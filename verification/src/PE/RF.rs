use vstd::prelude::*;
use crate::memory::flat_memory::zero_vector;

verus! {

/// Number of PE vector registers.
pub const vRF_max: usize = 16;

/// Number of PE scalar registers.
pub const sRF_max: usize = 8;

/// The PE's register files; register 0 of each file reads as zero and ignores writes.
pub struct arch_rf {
    pub vRF: [[i16; 8]; 16],
    pub sRF: [i32; 8],
}

/// The abstract register files: 16 vector registers and 8 scalar registers.
pub struct pe_rf_state {
    pub v: Seq<[i16; 8]>,
    pub s: Seq<i32>,
}

impl View for arch_rf {
    type V = pe_rf_state;

    open spec fn view(&self) -> pe_rf_state {
        pe_rf_state { v: self.vRF@, s: self.sRF@ }
    }
}

/// Value of vector register `id` as the PE reads it.
pub open spec fn vreg(rf: pe_rf_state, id: u8) -> [i16; 8] {
    if id == 0 { zero_vector() } else { rf.v[id as int] }
}

/// Value of scalar register `id` as the PE reads it.
pub open spec fn sreg(rf: pe_rf_state, id: u8) -> i32 {
    if id == 0 { 0 } else { rf.s[id as int] }
}

/// The register files after writing vector register `id` (writes to register 0 are dropped).
pub open spec fn with_vreg(rf: pe_rf_state, id: u8, c: [i16; 8]) -> pe_rf_state {
    if id == 0 { rf } else { pe_rf_state { v: rf.v.update(id as int, c), ..rf } }
}

/// The register files after writing scalar register `id` (writes to register 0 are dropped).
pub open spec fn with_sreg(rf: pe_rf_state, id: u8, c: i32) -> pe_rf_state {
    if id == 0 { rf } else { pe_rf_state { s: rf.s.update(id as int, c), ..rf } }
}

impl arch_rf {
    pub fn new() -> (r: Self)
        ensures
            r@.v.len() == 16,
            r@.s.len() == 8,
            forall|i: int| 0 <= i < 16 ==> #[trigger] r@.v[i] == zero_vector(),
            forall|i: int| 0 <= i < 8 ==> #[trigger] r@.s[i] == 0,
    {
        let r = Self { vRF: [[0; 8]; 16], sRF: [0; 8] };
        assert forall|i: int| 0 <= i < 16 implies #[trigger] r.vRF@[i] == zero_vector() by {
            assert(r.vRF@[i]@ =~= zero_vector()@);
        }
        r
    }

    pub fn read_vRF(&self, id: u8) -> (r: [i16; 8])
        requires
            (id as usize) < vRF_max,
        ensures
            r == vreg(self@, id),
    {
        if id == 0 {
            let z = [0i16; 8];
            assert(z@ =~= zero_vector()@);
            z
        } else {
            self.vRF[id as usize]
        }
    }

    pub fn write_vRF(&mut self, id: u8, content: [i16; 8])
        requires
            (id as usize) < vRF_max,
        ensures
            final(self)@ == with_vreg(old(self)@, id, content),
    {
        if id != 0 {
            self.vRF[id as usize] = content;
        }
    }

    pub fn read_sRF(&self, id: u8) -> (r: i32)
        requires
            (id as usize) < sRF_max,
        ensures
            r == sreg(self@, id),
    {
        if id == 0 {
            0
        } else {
            self.sRF[id as usize]
        }
    }

    pub fn write_sRF(&mut self, id: u8, content: i32)
        requires
            (id as usize) < sRF_max,
        ensures
            final(self)@ == with_sreg(old(self)@, id, content),
    {
        if id != 0 {
            self.sRF[id as usize] = content;
        }
    }
}

} // verus!
