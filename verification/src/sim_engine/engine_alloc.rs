use vstd::prelude::*;
use crate::sim_engine::sim::engine_cfg;
use std::ops::Range;

verus! {

/// Bytes of a logical bank.
pub const LOGICAL_BANK_SZ: u64 = 0x4000_0000;

/// Bytes of a physical (pseudo) bank.
pub const PHY_BANK_SZ: u64 = 0x0400_0000;

/// Bytes of a cache line.
pub const CACHELINE_SZ: u64 = 64;

/// Pseudo banks in one logical bank.
pub const PSEUDO_BANKS_PER_LOGICAL_BANK: u64 = 16;

/// Cache lines in one pseudo bank.
pub const PSEUDO_BANK_CACHELINES: u64 = 0x10_0000;

/// 16-byte entries in one pseudo bank.
pub const PSEUDO_BANK_ENTRIES: u64 = 0x40_0000;

/// The bank geometry constants agree with each other.
pub proof fn lemma_bank_geometry()
    ensures
        PSEUDO_BANKS_PER_LOGICAL_BANK * PHY_BANK_SZ == LOGICAL_BANK_SZ,
        PSEUDO_BANK_CACHELINES * CACHELINE_SZ == PHY_BANK_SZ,
        PSEUDO_BANK_ENTRIES * 16 == PHY_BANK_SZ,
{
}

/// The processor kind an allocation is for.
#[derive(Clone, Copy, Debug, PartialEq, Eq, Hash, Structural)]
pub enum EngineAllocKind {
    CGO,
    FGO,
}

/// One pseudo bank of a logical bank.
#[derive(Clone, Copy, Debug, PartialEq, Eq, Structural)]
pub struct pseudo_bank_location {
    pub ch: u64,
    pub ra: u64,
    pub bg: u64,
    pub ba: u64,
    pub pb: u64,
}

/// Hands the pseudo banks of the configured logical banks to one address space and
/// processor kind: the first allocation wins, later ones for another (address space, kind)
/// get nothing, and a repeated allocation gets the same answer.
pub struct engine_alloc {
    pub logical_banks: Vec<(u64, u64, u64, u64)>,
    pub pseudo_banks: Vec<pseudo_bank_location>,
    pub winner: Option<(u64, EngineAllocKind)>,
    pub table: Vec<((u64, EngineAllocKind), Vec<engine_cfg>)>,
}

/// A coordinate lies in a range.
pub open spec fn in_range(x: u64, r: (u64, u64)) -> bool {
    r.0 <= x < r.1
}

/// The logical banks of the coordinate ranges, channel outermost.
pub open spec fn banks_in(c: (u64, u64), r: (u64, u64), g: (u64, u64), b: (u64, u64)) -> Set<(u64, u64, u64, u64)> {
    Set::new(|t: (u64, u64, u64, u64)| in_range(t.0, c) && in_range(t.1, r) && in_range(t.2, g) && in_range(t.3, b))
}

/// The number of values in `[a, b)`.
pub open spec fn span(a: u64, b: u64) -> int {
    if a < b { b - a } else { 0 }
}

proof fn lemma_push_fresh<T>(s: Seq<T>, x: T)
    requires
        s.no_duplicates(),
        !s.contains(x),
    ensures
        s.push(x).no_duplicates(),
{
    let t = s.push(x);
    assert forall|i: int, j: int| 0 <= i < t.len() && 0 <= j < t.len() && i != j implies t[i] != t[j] by {
        if i == s.len() {
            assert(t[j] == s[j]);
        } else if j == s.len() {
            assert(t[i] == s[i]);
        }
    }
}

proof fn lemma_mul_step(a: int, p: int)
    ensures
        (a + 1) * p == a * p + p,
{
    assert((a + 1) * p == a * p + p) by (nonlinear_arith);
}

/// The engine of kind `kind` at a pseudo bank.
pub open spec fn cfg_at(kind: EngineAllocKind, l: pseudo_bank_location) -> engine_cfg {
    match kind {
        EngineAllocKind::CGO => engine_cfg::CGO { ch: l.ch, ra: l.ra, bg: l.bg, ba: l.ba, pb: l.pb },
        EngineAllocKind::FGO => engine_cfg::FGO { ch: l.ch, ra: l.ra, bg: l.bg, ba: l.ba, pb: l.pb },
    }
}

/// The allocation answer recorded for `key`, if any.
pub open spec fn table_get(t: Seq<((u64, EngineAllocKind), Seq<engine_cfg>)>, key: (u64, EngineAllocKind)) -> Option<Seq<engine_cfg>> {
    if exists|i: int| 0 <= i < t.len() && (#[trigger] t[i]).0 == key {
        Some(t[choose|i: int| 0 <= i < t.len() && (#[trigger] t[i]).0 == key].1)
    } else {
        None
    }
}

/// The abstract state of an allocator.
pub struct alloc_state {
    pub logical: Seq<(u64, u64, u64, u64)>,
    pub pseudo: Seq<pseudo_bank_location>,
    pub winner: Option<(u64, EngineAllocKind)>,
    pub table: Seq<((u64, EngineAllocKind), Seq<engine_cfg>)>,
}

impl View for engine_alloc {
    type V = alloc_state;

    open spec fn view(&self) -> alloc_state {
        alloc_state {
            logical: self.logical_banks@,
            pseudo: self.pseudo_banks@,
            winner: self.winner,
            table: self.table@.map_values(|e: ((u64, EngineAllocKind), Vec<engine_cfg>)| (e.0, e.1@)),
        }
    }
}

/// Keys of the answer table are distinct.
pub open spec fn alloc_wf(v: alloc_state) -> bool {
    forall|i: int, j: int| 0 <= i < j < v.table.len() ==> (#[trigger] v.table[i]).0 != (#[trigger] v.table[j]).0
}

/// The answer to an allocation for `key`: a recorded answer is repeated; otherwise the
/// first key wins every pseudo bank, and another key gets nothing.
pub open spec fn alloc_spec(v: alloc_state, key: (u64, EngineAllocKind)) -> (Seq<engine_cfg>, alloc_state) {
    match table_get(v.table, key) {
        Some(a) => (a, v),
        None => match v.winner {
            Some(w) if w != key => (Seq::empty(), alloc_state { table: v.table.push((key, Seq::empty())), ..v }),
            _ => {
                let a = v.pseudo.map_values(|l: pseudo_bank_location| cfg_at(key.1, l));
                (a, alloc_state { winner: Some(key), table: v.table.push((key, a)), ..v })
            },
        },
    }
}

impl engine_alloc {
    /// An allocator over the logical banks in the given coordinate ranges, each split into its
    /// pseudo banks.
    #[verifier::rlimit(30)]
    pub fn new(channels: Range<u64>, ranks: Range<u64>, bank_groups: Range<u64>, banks: Range<u64>) -> (r: Self)
        ensures
            forall|t: (u64, u64, u64, u64)| r@.logical.contains(t) <==> banks_in(
                (channels.start, channels.end),
                (ranks.start, ranks.end),
                (bank_groups.start, bank_groups.end),
                (banks.start, banks.end),
            ).contains(t),
            forall|l: pseudo_bank_location| #[trigger] r@.pseudo.contains(l) <==> (banks_in(
                (channels.start, channels.end),
                (ranks.start, ranks.end),
                (bank_groups.start, bank_groups.end),
                (banks.start, banks.end),
            ).contains((l.ch, l.ra, l.bg, l.ba)) && l.pb < PSEUDO_BANKS_PER_LOGICAL_BANK),
            r@.logical.no_duplicates(),
            r@.pseudo.no_duplicates(),
            r@.logical.len() == span(channels.start, channels.end) * span(ranks.start, ranks.end) * span(
                bank_groups.start,
                bank_groups.end,
            ) * span(banks.start, banks.end),
            r@.pseudo.len() == PSEUDO_BANKS_PER_LOGICAL_BANK * r@.logical.len(),
            r@.winner == None::<(u64, EngineAllocKind)>,
            r@.table == Seq::<((u64, EngineAllocKind), Seq<engine_cfg>)>::empty(),
    {
        let c0 = channels.start;
        let c1 = channels.end;
        let r0 = ranks.start;
        let r1 = ranks.end;
        let g0 = bank_groups.start;
        let g1 = bank_groups.end;
        let b0 = banks.start;
        let b1 = banks.end;
        let ghost full = banks_in((c0, c1), (r0, r1), (g0, g1), (b0, b1));
        let ghost pb_n: int = span(b0, b1);
        let ghost pg_n: int = span(g0, g1) * pb_n;
        let ghost pr_n: int = span(r0, r1) * pg_n;
        let mut logical_banks: Vec<(u64, u64, u64, u64)> = Vec::new();
        let mut pseudo_banks: Vec<pseudo_bank_location> = Vec::new();
        let mut ch = c0;
        while ch < c1
            invariant
                c0 <= ch,
                ch <= c1 || ch == c0,
                logical_banks@.no_duplicates(),
                pseudo_banks@.no_duplicates(),
                pseudo_banks@.len() == PSEUDO_BANKS_PER_LOGICAL_BANK * logical_banks@.len(),
                pb_n == span(b0, b1),
                pg_n == span(g0, g1) * pb_n,
                pr_n == span(r0, r1) * pg_n,
                logical_banks@.len() == (ch - c0) * pr_n,
                forall|t: (u64, u64, u64, u64)| #[trigger] logical_banks@.contains(t) <==> (full.contains(t) && t.0 < ch),
                forall|l: pseudo_bank_location| #[trigger] pseudo_banks@.contains(l) <==> (full.contains((l.ch, l.ra, l.bg, l.ba)) && l.pb < PSEUDO_BANKS_PER_LOGICAL_BANK && l.ch < ch),
                full == banks_in((c0, c1), (r0, r1), (g0, g1), (b0, b1)),
            decreases c1 - ch,
        {
            let mut ra = r0;
            while ra < r1
                invariant
                    c0 <= ch < c1,
                    r0 <= ra,
                    ra <= r1 || ra == r0,
                    logical_banks@.no_duplicates(),
                    pseudo_banks@.no_duplicates(),
                    pseudo_banks@.len() == PSEUDO_BANKS_PER_LOGICAL_BANK * logical_banks@.len(),
                    pb_n == span(b0, b1),
                    pg_n == span(g0, g1) * pb_n,
                    pr_n == span(r0, r1) * pg_n,
                    logical_banks@.len() == (ch - c0) * pr_n + (ra - r0) * pg_n,
                    forall|t: (u64, u64, u64, u64)| #[trigger] logical_banks@.contains(t) <==> (full.contains(t) && (t.0 < ch || (t.0 == ch && t.1 < ra))),
                    forall|l: pseudo_bank_location| #[trigger] pseudo_banks@.contains(l) <==> (full.contains((l.ch, l.ra, l.bg, l.ba)) && l.pb < PSEUDO_BANKS_PER_LOGICAL_BANK && (l.ch < ch || (l.ch == ch && l.ra < ra))),
                    full == banks_in((c0, c1), (r0, r1), (g0, g1), (b0, b1)),
                decreases r1 - ra,
            {
                let mut bg = g0;
                while bg < g1
                    invariant
                        c0 <= ch < c1,
                        r0 <= ra < r1,
                        g0 <= bg,
                        bg <= g1 || bg == g0,
                        logical_banks@.no_duplicates(),
                        pseudo_banks@.no_duplicates(),
                        pseudo_banks@.len() == PSEUDO_BANKS_PER_LOGICAL_BANK * logical_banks@.len(),
                        pb_n == span(b0, b1),
                        pg_n == span(g0, g1) * pb_n,
                        pr_n == span(r0, r1) * pg_n,
                        logical_banks@.len() == (ch - c0) * pr_n + (ra - r0) * pg_n + (bg - g0) * pb_n,
                        forall|t: (u64, u64, u64, u64)| #[trigger] logical_banks@.contains(t) <==> (full.contains(t) && (t.0 < ch || (t.0 == ch && (t.1 < ra || (t.1 == ra && t.2 < bg))))),
                        forall|l: pseudo_bank_location| #[trigger] pseudo_banks@.contains(l) <==> (full.contains((l.ch, l.ra, l.bg, l.ba)) && l.pb < PSEUDO_BANKS_PER_LOGICAL_BANK && (l.ch < ch || (l.ch == ch && (l.ra < ra || (l.ra == ra && l.bg < bg))))),
                        full == banks_in((c0, c1), (r0, r1), (g0, g1), (b0, b1)),
                    decreases g1 - bg,
                {
                    let mut ba = b0;
                    while ba < b1
                        invariant
                            c0 <= ch < c1,
                            r0 <= ra < r1,
                            g0 <= bg < g1,
                            b0 <= ba,
                            ba <= b1 || ba == b0,
                            logical_banks@.no_duplicates(),
                            pseudo_banks@.no_duplicates(),
                            pseudo_banks@.len() == PSEUDO_BANKS_PER_LOGICAL_BANK * logical_banks@.len(),
                            pb_n == span(b0, b1),
                            pg_n == span(g0, g1) * pb_n,
                            pr_n == span(r0, r1) * pg_n,
                            logical_banks@.len() == (ch - c0) * pr_n + (ra - r0) * pg_n + (bg - g0) * pb_n + (ba - b0),
                            forall|t: (u64, u64, u64, u64)| #[trigger] logical_banks@.contains(t) <==> (full.contains(t) && (t.0 < ch || (t.0 == ch && (t.1 < ra || (t.1 == ra && (t.2 < bg || (t.2 == bg && t.3 < ba))))))),
                            forall|l: pseudo_bank_location| #[trigger] pseudo_banks@.contains(l) <==> (full.contains((l.ch, l.ra, l.bg, l.ba)) && l.pb < PSEUDO_BANKS_PER_LOGICAL_BANK && (l.ch < ch || (l.ch == ch && (l.ra < ra || (l.ra == ra && (l.bg < bg || (l.bg == bg && l.ba < ba))))))),
                            full == banks_in((c0, c1), (r0, r1), (g0, g1), (b0, b1)),
                        decreases b1 - ba,
                    {
                        let ghost before = logical_banks@;
                        proof {
                            let t0 = (ch, ra, bg, ba);
                            assert(!before.contains(t0));
                        }
                        logical_banks.push((ch, ra, bg, ba));
                        proof {
                            lemma_push_fresh(before, (ch, ra, bg, ba));
                            assert forall|t: (u64, u64, u64, u64)| #[trigger] logical_banks@.contains(t) <==> before.contains(t) || t == (ch, ra, bg, ba) by {
                                if t == (ch, ra, bg, ba) {
                                    assert(logical_banks@[before.len() as int] == t);
                                }
                                if logical_banks@.contains(t) && t != (ch, ra, bg, ba) {
                                    let i = choose|i: int| 0 <= i < logical_banks@.len() && logical_banks@[i] == t;
                                    assert(before[i] == t);
                                }
                                if before.contains(t) {
                                    let i = choose|i: int| 0 <= i < before.len() && before[i] == t;
                                    assert(logical_banks@[i] == t);
                                }
                            }
                        }
                        let mut pb: u64 = 0;
                        while pb < PSEUDO_BANKS_PER_LOGICAL_BANK
                            invariant
                                c0 <= ch < c1,
                                r0 <= ra < r1,
                                g0 <= bg < g1,
                                b0 <= ba < b1,
                                pb <= PSEUDO_BANKS_PER_LOGICAL_BANK,
                                pseudo_banks@.no_duplicates(),
                                pseudo_banks@.len() == PSEUDO_BANKS_PER_LOGICAL_BANK * (logical_banks@.len() - 1) + pb,
                                logical_banks@.len() >= 1,
                                forall|l: pseudo_bank_location| #[trigger] pseudo_banks@.contains(l) <==> (full.contains((l.ch, l.ra, l.bg, l.ba)) && l.pb < PSEUDO_BANKS_PER_LOGICAL_BANK && (l.ch < ch || (l.ch == ch && (l.ra < ra || (l.ra == ra && (l.bg < bg || (l.bg == bg && (l.ba < ba || (l.ba == ba && l.pb < pb))))))))),
                                full == banks_in((c0, c1), (r0, r1), (g0, g1), (b0, b1)),
                            decreases PSEUDO_BANKS_PER_LOGICAL_BANK - pb,
                        {
                            let ghost before_p = pseudo_banks@;
                            let loc = pseudo_bank_location { ch, ra, bg, ba, pb };
                            proof {
                                assert(!before_p.contains(loc));
                            }
                            pseudo_banks.push(loc);
                            proof {
                                lemma_push_fresh(before_p, loc);
                                assert forall|l: pseudo_bank_location| #[trigger] pseudo_banks@.contains(l) <==> before_p.contains(l) || l == loc by {
                                    if l == loc {
                                        assert(pseudo_banks@[before_p.len() as int] == l);
                                    }
                                    if pseudo_banks@.contains(l) && l != loc {
                                        let i = choose|i: int| 0 <= i < pseudo_banks@.len() && pseudo_banks@[i] == l;
                                        assert(before_p[i] == l);
                                    }
                                    if before_p.contains(l) {
                                        let i = choose|i: int| 0 <= i < before_p.len() && before_p[i] == l;
                                        assert(pseudo_banks@[i] == l);
                                    }
                                }
                            }
                            pb = pb + 1;
                        }
                        ba = ba + 1;
                    }
                    proof {
                        assert forall|t: (u64, u64, u64, u64)| #[trigger] logical_banks@.contains(t) <==> (full.contains(t) && (t.0 < ch || (t.0 == ch && (t.1 < ra || (t.1 == ra && t.2 < bg + 1))))) by {
                            if full.contains(t) {
                                assert(t.3 < b1);
                            }
                        }
                        assert forall|l: pseudo_bank_location| #[trigger] pseudo_banks@.contains(l) <==> (full.contains((l.ch, l.ra, l.bg, l.ba)) && l.pb < PSEUDO_BANKS_PER_LOGICAL_BANK && (l.ch < ch || (l.ch == ch && (l.ra < ra || (l.ra == ra && l.bg < bg + 1))))) by {
                            if full.contains((l.ch, l.ra, l.bg, l.ba)) {
                                assert(l.ba < b1);
                            }
                        }
                    }
                    proof {
                        assert(ba - b0 == pb_n);
                        lemma_mul_step(bg - g0, pb_n);
                    }
                    bg = bg + 1;
                }
                proof {
                    assert(bg - g0 == span(g0, g1));
                    lemma_mul_step(ra - r0, pg_n);
                }
                ra = ra + 1;
            }
            proof {
                assert(ra - r0 == span(r0, r1));
                lemma_mul_step(ch - c0, pr_n);
            }
            ch = ch + 1;
        }
        proof {
            assert(ch - c0 == span(c0, c1));
            assert(span(c0, c1) * pr_n == span(c0, c1) * span(r0, r1) * span(g0, g1) * span(b0, b1)) by (nonlinear_arith)
                requires
                    pb_n == span(b0, b1),
                    pg_n == span(g0, g1) * pb_n,
                    pr_n == span(r0, r1) * pg_n,
            ;
        }
        Self { logical_banks, pseudo_banks, winner: None, table: Vec::new() }
    }

    fn copy_cfgs(v: &Vec<engine_cfg>) -> (r: Vec<engine_cfg>)
        ensures
            r@ == v@,
    {
        let mut r: Vec<engine_cfg> = Vec::new();
        let mut i: usize = 0;
        while i < v.len()
            invariant
                i <= v@.len(),
                r@ == v@.subrange(0, i as int),
            decreases v@.len() - i,
        {
            r.push(v[i]);
            i = i + 1;
            assert(r@ =~= v@.subrange(0, i as int));
        }
        assert(v@.subrange(0, v@.len() as int) =~= v@);
        r
    }

    fn allocate(&mut self, asid: u64, kind: EngineAllocKind) -> (r: Vec<engine_cfg>)
        requires
            alloc_wf(old(self)@),
        ensures
            (r@, final(self)@) == alloc_spec(old(self)@, (asid, kind)),
            alloc_wf(final(self)@),
    {
        let ghost v0 = self@;
        let mut i: usize = 0;
        while i < self.table.len()
            invariant
                i <= self.table@.len(),
                self@ == v0,
                alloc_wf(v0),
                forall|j: int| 0 <= j < i ==> (#[trigger] v0.table[j]).0 != (asid, kind),
            decreases self.table@.len() - i,
        {
            let k = self.table[i].0;
            if k.0 == asid && k.1 == kind {
                proof {
                    assert(v0.table[i as int].0 == (asid, kind));
                    let c = choose|j: int| 0 <= j < v0.table.len() && (#[trigger] v0.table[j]).0 == (asid, kind);
                    if c != i as int {
                        if c < i as int {
                            assert(v0.table[c].0 != v0.table[i as int].0);
                        } else {
                            assert(v0.table[i as int].0 != v0.table[c].0);
                        }
                    }
                }
                return Self::copy_cfgs(&self.table[i].1);
            }
            i = i + 1;
        }
        let key = (asid, kind);
        match self.winner {
            Some(w) => {
                if !(w.0 == asid && w.1 == kind) {
                    self.table.push((key, Vec::new()));
                    proof {
                        assert(self@.table =~= v0.table.push((key, Seq::<engine_cfg>::empty())));
                    }
                    return Vec::new();
                }
            },
            None => {
                self.winner = Some(key);
            },
        }
        let mut allocated: Vec<engine_cfg> = Vec::new();
        let mut j: usize = 0;
        while j < self.pseudo_banks.len()
            invariant
                j <= self.pseudo_banks@.len(),
                self.pseudo_banks@ == v0.pseudo,
                allocated@ == v0.pseudo.subrange(0, j as int).map_values(|l: pseudo_bank_location| cfg_at(kind, l)),
            decreases self.pseudo_banks@.len() - j,
        {
            let l = self.pseudo_banks[j];
            let c = match kind {
                EngineAllocKind::CGO => engine_cfg::CGO { ch: l.ch, ra: l.ra, bg: l.bg, ba: l.ba, pb: l.pb },
                EngineAllocKind::FGO => engine_cfg::FGO { ch: l.ch, ra: l.ra, bg: l.bg, ba: l.ba, pb: l.pb },
            };
            allocated.push(c);
            j = j + 1;
            assert(allocated@ =~= v0.pseudo.subrange(0, j as int).map_values(|l: pseudo_bank_location| cfg_at(kind, l)));
        }
        assert(v0.pseudo.subrange(0, v0.pseudo.len() as int) =~= v0.pseudo);
        let kept = Self::copy_cfgs(&allocated);
        self.table.push((key, kept));
        proof {
            assert(self@.table =~= v0.table.push((key, allocated@)));
        }
        allocated
    }

    /// Allocates the pseudo banks for the CGO processors of address space `asid`.
    pub fn alloc_cgo(&mut self, asid: u64) -> (r: Vec<engine_cfg>)
        requires
            alloc_wf(old(self)@),
        ensures
            (r@, final(self)@) == alloc_spec(old(self)@, (asid, EngineAllocKind::CGO)),
            alloc_wf(final(self)@),
    {
        self.allocate(asid, EngineAllocKind::CGO)
    }

    /// Allocates the pseudo banks for the FGO processors of address space `asid`.
    pub fn alloc_fgo(&mut self, asid: u64) -> (r: Vec<engine_cfg>)
        requires
            alloc_wf(old(self)@),
        ensures
            (r@, final(self)@) == alloc_spec(old(self)@, (asid, EngineAllocKind::FGO)),
            alloc_wf(final(self)@),
    {
        self.allocate(asid, EngineAllocKind::FGO)
    }

    /// The configured logical banks.
    pub fn logical_banks(&self) -> (r: Vec<(u64, u64, u64, u64)>)
        ensures
            r@ == self@.logical,
    {
        let mut r: Vec<(u64, u64, u64, u64)> = Vec::new();
        let mut i: usize = 0;
        while i < self.logical_banks.len()
            invariant
                i <= self@.logical.len(),
                r@ == self@.logical.subrange(0, i as int),
            decreases self@.logical.len() - i,
        {
            r.push(self.logical_banks[i]);
            i = i + 1;
            assert(r@ =~= self@.logical.subrange(0, i as int));
        }
        assert(self@.logical.subrange(0, self@.logical.len() as int) =~= self@.logical);
        r
    }
}

/// Allocation is exclusive: once an (address space, kind) has won, a different one gets
/// nothing, and asking again repeats the first answer.
pub proof fn lemma_alloc_exclusive(v: alloc_state, k1: (u64, EngineAllocKind), k2: (u64, EngineAllocKind))
    requires
        alloc_wf(v),
        v.winner is None,
        v.table.len() == 0,
        k1 != k2,
    ensures
        alloc_spec(alloc_spec(v, k1).1, k2).0 == Seq::<engine_cfg>::empty(),
        alloc_spec(alloc_spec(alloc_spec(v, k1).1, k2).1, k1).0 == alloc_spec(v, k1).0,
{
    let v1 = alloc_spec(v, k1).1;
    assert(v1.table.len() == 1);
    assert(v1.table[0].0 == k1);
    assert(table_get(v1.table, k2) is None);
    let v2 = alloc_spec(v1, k2).1;
    assert(v2.table[0].0 == k1);
    assert(table_get(v2.table, k1) == Some(v2.table[0].1));
}

} // verus!
