use vstd::prelude::*;

verus! {

/// Where one processing engine sits: its processor kind and its DRAM coordinates (channel,
/// rank, bank group, bank, pseudo bank).
#[derive(Clone, Copy, Debug, PartialEq, Eq, Hash, Structural)]
pub enum engine_cfg {
    CGO { ch: u64, ra: u64, bg: u64, ba: u64, pb: u64 },
    FGO { ch: u64, ra: u64, bg: u64, ba: u64, pb: u64 },
}

/// The same coordinates under the other processor kind.
pub open spec fn other_processor_spec(c: engine_cfg) -> engine_cfg {
    match c {
        engine_cfg::CGO { ch, ra, bg, ba, pb } => engine_cfg::FGO { ch, ra, bg, ba, pb },
        engine_cfg::FGO { ch, ra, bg, ba, pb } => engine_cfg::CGO { ch, ra, bg, ba, pb },
    }
}

impl engine_cfg {
    pub fn other_processor(self) -> (r: Self)
        ensures
            r == other_processor_spec(self),
    {
        match self {
            engine_cfg::CGO { ch, ra, bg, ba, pb } => engine_cfg::FGO { ch, ra, bg, ba, pb },
            engine_cfg::FGO { ch, ra, bg, ba, pb } => engine_cfg::CGO { ch, ra, bg, ba, pb },
        }
    }

    /// The DRAM coordinates of the engine.
    pub fn coordinates(&self) -> (r: (u64, u64, u64, u64, u64))
        ensures
            r == (match *self {
                engine_cfg::CGO { ch, ra, bg, ba, pb } => (ch, ra, bg, ba, pb),
                engine_cfg::FGO { ch, ra, bg, ba, pb } => (ch, ra, bg, ba, pb),
            }),
    {
        match *self {
            engine_cfg::CGO { ch, ra, bg, ba, pb } => (ch, ra, bg, ba, pb),
            engine_cfg::FGO { ch, ra, bg, ba, pb } => (ch, ra, bg, ba, pb),
        }
    }
}

/// Switching to the other processor kind and back gives the same engine.
pub proof fn lemma_other_processor_involution(c: engine_cfg)
    ensures
        other_processor_spec(other_processor_spec(c)) == c,
        other_processor_spec(c) != c,
{
}

/// Which side drives the memory: the host or the PIM engines.
#[derive(Clone, Copy, Debug, PartialEq, Eq, Structural)]
pub enum SimMode {
    Host,
    Pim,
}

} // verus!
