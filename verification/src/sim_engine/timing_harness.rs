use vstd::prelude::*;
use crate::PE::types::inst as FGO_inst;
use crate::sim_engine::sim::engine_cfg;

verus! {

/// Progress of one FGO engine's measured interval.
#[derive(Clone, Copy, Debug, PartialEq, Eq, Structural)]
pub struct FGO_harness_state {
    pub start_cycle: u64,
    pub vector_store_count: u64,
    pub passing_vector_store_count: u64,
}

/// The result of one FGO interval, closed by a retired NOP.
#[derive(Clone, Copy, Debug, PartialEq, Eq, Structural)]
pub struct FGO_harness_summary {
    pub start_cycle: u64,
    pub end_cycle: u64,
    pub elapsed_cycles: u64,
    pub vector_store_count: u64,
    pub passing_vector_store_count: u64,
    pub result_passed: bool,
}

/// Progress of one CGO engine's run.
#[derive(Clone, Copy, Debug, PartialEq, Eq, Structural)]
pub struct CGO_harness_state {
    pub start_cycle: u64,
}

/// The result of one CGO run.
#[derive(Clone, Copy, Debug, PartialEq, Eq, Structural)]
pub struct CGO_harness_summary {
    pub start_cycle: u64,
    pub end_cycle: u64,
    pub elapsed_cycles: u64,
    pub output_vector_count: u64,
    pub passing_output_vector_count: u64,
    pub result_passed: bool,
}

/// Measures engine runs: per FGO engine the interval from its first command to a retired
/// NOP with the vector stores it made, per CGO engine the run from its first start to its
/// finish (each CGO engine is measured once).
pub struct timing_harness {
    pub FGO_states: Vec<(engine_cfg, FGO_harness_state)>,
    pub CGO_states: Vec<(engine_cfg, CGO_harness_state)>,
    pub completed_CGO: Vec<engine_cfg>,
}

/// The value recorded for `k` in an association list, if any.
pub open spec fn assoc_get<V>(s: Seq<(engine_cfg, V)>, k: engine_cfg) -> Option<V> {
    if exists|i: int| 0 <= i < s.len() && (#[trigger] s[i]).0 == k {
        Some(s[choose|i: int| 0 <= i < s.len() && (#[trigger] s[i]).0 == k].1)
    } else {
        None
    }
}

/// The keys of an association list are distinct.
pub open spec fn assoc_wf<V>(s: Seq<(engine_cfg, V)>) -> bool {
    forall|i: int, j: int| 0 <= i < j < s.len() ==> (#[trigger] s[i]).0 != (#[trigger] s[j]).0
}

/// A vector of outputs has a nonzero element.
pub open spec fn nonzero(v: [u32; 4]) -> bool {
    v@[0] != 0 || v@[1] != 0 || v@[2] != 0 || v@[3] != 0
}

/// The number of outputs with a nonzero element.
pub open spec fn nonzero_count(s: Seq<[u32; 4]>) -> nat
    decreases s.len(),
{
    if s.len() == 0 {
        0
    } else {
        nonzero_count(s.drop_last()) + if nonzero(s.last()) { 1nat } else { 0nat }
    }
}

/// The summary of a CGO run started at `start` and finished at `end` with outputs `outs`:
/// it passes when there are outputs and every one of them has a nonzero element.
pub open spec fn cgo_summary(start: u64, end: u64, outs: Seq<[u32; 4]>) -> CGO_harness_summary {
    CGO_harness_summary {
        start_cycle: start,
        end_cycle: end,
        elapsed_cycles: if end >= start { (end - start) as u64 } else { 0 },
        output_vector_count: outs.len() as u64,
        passing_output_vector_count: nonzero_count(outs) as u64,
        result_passed: outs.len() > 0 && outs.len() == nonzero_count(outs),
    }
}

/// The summary of an FGO interval from state `st` retired at `end`: it passes when there
/// were vector stores and every one of them stored a nonzero vector.
pub open spec fn fgo_summary(st: FGO_harness_state, end: u64) -> FGO_harness_summary {
    FGO_harness_summary {
        start_cycle: st.start_cycle,
        end_cycle: end,
        elapsed_cycles: if end >= st.start_cycle { (end - st.start_cycle) as u64 } else { 0 },
        vector_store_count: st.vector_store_count,
        passing_vector_store_count: st.passing_vector_store_count,
        result_passed: st.vector_store_count > 0 && st.vector_store_count == st.passing_vector_store_count,
    }
}

/// A fresh FGO interval starting at `cycle`.
pub open spec fn fresh_fgo(cycle: u64) -> FGO_harness_state {
    FGO_harness_state { start_cycle: cycle, vector_store_count: 0, passing_vector_store_count: 0 }
}

/// An output vector stored by an FGO engine is all zero (a missing output counts as zero).
pub open spec fn all_zero(output: Option<[i16; 8]>) -> bool {
    match output {
        Some(v) => forall|i: int| 0 <= i < 8 ==> v@[i] == 0,
        None => true,
    }
}

/// The harness's lists have distinct keys.
pub open spec fn harness_wf(h: &timing_harness) -> bool {
    assoc_wf(h.FGO_states@) && assoc_wf(h.CGO_states@)
}

/// What the harness knows of CGO runs: the engines being measured, with their start cycles,
/// and the engines whose run has finished.
pub struct cgo_track {
    pub measuring: Map<engine_cfg, u64>,
    pub finished: Set<engine_cfg>,
}

/// The CGO runs a harness records.
pub open spec fn cgo_track_of(h: &timing_harness) -> cgo_track {
    cgo_track {
        measuring: Map::new(
            |k: engine_cfg| assoc_get(h.CGO_states@, k) is Some,
            |k: engine_cfg| assoc_get(h.CGO_states@, k)->Some_0.start_cycle,
        ),
        finished: h.completed_CGO@.to_set(),
    }
}

/// A start of `cfg` at `cycle`: measured from then on unless it is measured already or has
/// finished.
pub open spec fn track_start(t: cgo_track, cfg: engine_cfg, cycle: u64) -> cgo_track {
    if !t.finished.contains(cfg) && !t.measuring.contains_key(cfg) {
        cgo_track { measuring: t.measuring.insert(cfg, cycle), ..t }
    } else {
        t
    }
}

/// A finish of `cfg`: a measured engine stops being measured and counts as finished.
pub open spec fn track_finish(t: cgo_track, cfg: engine_cfg) -> cgo_track {
    if t.measuring.contains_key(cfg) {
        cgo_track { measuring: t.measuring.remove(cfg), finished: t.finished.insert(cfg) }
    } else {
        t
    }
}

/// One recorded CGO event: a start at a cycle, or a finish.
pub enum cgo_event {
    Start { cfg: engine_cfg, cycle: u64 },
    Finish { cfg: engine_cfg },
}

/// The CGO runs recorded after `evs`, from a new harness.
pub open spec fn replay(evs: Seq<cgo_event>) -> cgo_track
    decreases evs.len(),
{
    if evs.len() == 0 {
        cgo_track { measuring: Map::empty(), finished: Set::empty() }
    } else {
        let t = replay(evs.drop_last());
        match evs.last() {
            cgo_event::Start { cfg, cycle } => track_start(t, cfg, cycle),
            cgo_event::Finish { cfg } => track_finish(t, cfg),
        }
    }
}

/// The position and cycle of the first start of `cfg` in `evs`, if any.
pub open spec fn first_start(evs: Seq<cgo_event>, cfg: engine_cfg) -> Option<(int, u64)>
    decreases evs.len(),
{
    if evs.len() == 0 {
        None
    } else {
        match first_start(evs.drop_last(), cfg) {
            Some(p) => Some(p),
            None => match evs.last() {
                cgo_event::Start { cfg: c, cycle } => if c == cfg { Some(((evs.len() - 1) as int, cycle)) } else { None },
                _ => None,
            },
        }
    }
}

/// Some finish of `cfg` comes in `evs` after position `i`.
pub open spec fn finish_after(evs: Seq<cgo_event>, cfg: engine_cfg, i: int) -> bool {
    exists|j: int| i < j < evs.len() && #[trigger] evs[j] == (cgo_event::Finish { cfg })
}

/// Each CGO engine is measured once, from its first start to the first finish after it:
/// after any sequence of starts and finishes on a new harness, an engine is being measured
/// exactly when it has been started and no finish of it came after its first start, and then
/// from the cycle of that first start; it has finished exactly when such a finish came. A
/// start of an engine being measured or finished, and a finish of an engine not being
/// measured, change nothing.
pub proof fn lemma_cgo_measured_once(evs: Seq<cgo_event>, cfg: engine_cfg)
    ensures
        replay(evs).measuring.contains_key(cfg) <==> (first_start(evs, cfg) matches Some(p) && !finish_after(evs, cfg, p.0)),
        replay(evs).measuring.contains_key(cfg) ==> replay(evs).measuring[cfg] == first_start(evs, cfg)->Some_0.1,
        replay(evs).finished.contains(cfg) <==> (first_start(evs, cfg) matches Some(p) && finish_after(evs, cfg, p.0)),
    decreases evs.len(),
{
    if evs.len() > 0 {
        let pre = evs.drop_last();
        let n = (evs.len() - 1) as int;
        lemma_cgo_measured_once(pre, cfg);
        lemma_first_start_bound(pre, cfg);
        let fs = first_start(pre, cfg);
        if let Some(p) = fs {
            assert(finish_after(evs, cfg, p.0) <==> (finish_after(pre, cfg, p.0) || evs[n] == (cgo_event::Finish { cfg }))) by {
                if finish_after(evs, cfg, p.0) {
                    let j = choose|j: int| p.0 < j < evs.len() && #[trigger] evs[j] == (cgo_event::Finish { cfg });
                    if j < n {
                        assert(pre[j] == evs[j]);
                    }
                }
                if finish_after(pre, cfg, p.0) {
                    let j = choose|j: int| p.0 < j < pre.len() && #[trigger] pre[j] == (cgo_event::Finish { cfg });
                    assert(evs[j] == pre[j]);
                }
            }
        } else {
            match evs.last() {
                cgo_event::Start { cfg: c, cycle } => {
                    if c == cfg {
                        assert(!finish_after(evs, cfg, n));
                    }
                },
                _ => {},
            }
        }
    }
}

proof fn lemma_measuring_is_assoc(h: &timing_harness)
    ensures
        forall|k: engine_cfg| #[trigger] cgo_track_of(h).measuring.contains_key(k) == (assoc_get(h.CGO_states@, k) is Some),
        forall|k: engine_cfg|
            #[trigger] assoc_get(h.CGO_states@, k) is Some ==> cgo_track_of(h).measuring[k] == assoc_get(h.CGO_states@, k)->Some_0.start_cycle,
        forall|k: engine_cfg| #[trigger] cgo_track_of(h).finished.contains(k) == h.completed_CGO@.contains(k),
{
}

proof fn lemma_first_start_bound(evs: Seq<cgo_event>, cfg: engine_cfg)
    ensures
        first_start(evs, cfg) matches Some(p) ==> 0 <= p.0 < evs.len(),
    decreases evs.len(),
{
    if evs.len() > 0 {
        lemma_first_start_bound(evs.drop_last(), cfg);
    }
}

fn find_key<V>(s: &Vec<(engine_cfg, V)>, k: engine_cfg) -> (r: Option<usize>)
    requires
        assoc_wf(s@),
    ensures
        match r {
            Some(i) => i < s@.len() && s@[i as int].0 == k && assoc_get(s@, k) == Some(s@[i as int].1),
            None => assoc_get(s@, k) is None,
        },
{
    let mut i: usize = 0;
    while i < s.len()
        invariant
            i <= s@.len(),
            assoc_wf(s@),
            forall|j: int| 0 <= j < i ==> (#[trigger] s@[j]).0 != k,
        decreases s@.len() - i,
    {
        if s[i].0 == k {
            proof {
                assert(s@[i as int].0 == k);
                let c = choose|j: int| 0 <= j < s@.len() && (#[trigger] s@[j]).0 == k;
                if c != i as int {
                    if c < i as int {
                        assert(s@[c].0 != s@[i as int].0);
                    } else {
                        assert(s@[i as int].0 != s@[c].0);
                    }
                }
            }
            return Some(i);
        }
        i = i + 1;
    }
    None
}

/// Removing entry `i` of a list with distinct keys forgets its key and keeps the others.
proof fn lemma_assoc_remove<V>(s: Seq<(engine_cfg, V)>, i: int)
    requires
        assoc_wf(s),
        0 <= i < s.len(),
    ensures
        assoc_wf(s.remove(i)),
        assoc_get(s.remove(i), s[i].0) is None,
        forall|k: engine_cfg| k != s[i].0 ==> #[trigger] assoc_get(s.remove(i), k) == assoc_get(s, k),
{
    let r = s.remove(i);
    assert forall|a: int, b: int| 0 <= a < b < r.len() implies (#[trigger] r[a]).0 != (#[trigger] r[b]).0 by {
        let a0 = if a < i { a } else { a + 1 };
        let b0 = if b < i { b } else { b + 1 };
        assert(r[a] == s[a0] && r[b] == s[b0]);
        assert(s[a0].0 != s[b0].0);
    }
    if exists|j: int| 0 <= j < r.len() && (#[trigger] r[j]).0 == s[i].0 {
        let j = choose|j: int| 0 <= j < r.len() && (#[trigger] r[j]).0 == s[i].0;
        let j0 = if j < i { j } else { j + 1 };
        assert(r[j] == s[j0]);
        if j0 < i {
            assert(s[j0].0 != s[i].0);
        } else {
            assert(s[i].0 != s[j0].0);
        }
    }
    assert forall|k: engine_cfg| k != s[i].0 implies #[trigger] assoc_get(r, k) == assoc_get(s, k) by {
        if exists|j: int| 0 <= j < s.len() && (#[trigger] s[j]).0 == k {
            let j = choose|j: int| 0 <= j < s.len() && (#[trigger] s[j]).0 == k;
            assert(j != i);
            let j1 = if j < i { j } else { j - 1 };
            assert(r[j1] == s[j]);
            let c = choose|c: int| 0 <= c < r.len() && (#[trigger] r[c]).0 == k;
            let c0 = if c < i { c } else { c + 1 };
            assert(r[c] == s[c0]);
            if c0 != j {
                if c0 < j {
                    assert(s[c0].0 != s[j].0);
                } else {
                    assert(s[j].0 != s[c0].0);
                }
            }
        } else {
            if exists|c: int| 0 <= c < r.len() && (#[trigger] r[c]).0 == k {
                let c = choose|c: int| 0 <= c < r.len() && (#[trigger] r[c]).0 == k;
                let c0 = if c < i { c } else { c + 1 };
                assert(r[c] == s[c0]);
            }
        }
    }
}

/// Appending a new key records its value and keeps the others.
proof fn lemma_assoc_push<V>(s: Seq<(engine_cfg, V)>, k: engine_cfg, v: V)
    requires
        assoc_wf(s),
        assoc_get(s, k) is None,
    ensures
        assoc_wf(s.push((k, v))),
        assoc_get(s.push((k, v)), k) == Some(v),
        forall|k2: engine_cfg| k2 != k ==> #[trigger] assoc_get(s.push((k, v)), k2) == assoc_get(s, k2),
{
    let r = s.push((k, v));
    assert forall|a: int, b: int| 0 <= a < b < r.len() implies (#[trigger] r[a]).0 != (#[trigger] r[b]).0 by {
        if b == s.len() {
            assert(r[a] == s[a]);
            if s[a].0 == k {
                assert(exists|j: int| 0 <= j < s.len() && (#[trigger] s[j]).0 == k);
            }
        } else {
            assert(r[a] == s[a] && r[b] == s[b]);
        }
    }
    assert(r[s.len() as int].0 == k);
    let c = choose|j: int| 0 <= j < r.len() && (#[trigger] r[j]).0 == k;
    if c != s.len() {
        assert(r[c] == s[c]);
        assert(exists|j: int| 0 <= j < s.len() && (#[trigger] s[j]).0 == k);
    }
    assert forall|k2: engine_cfg| k2 != k implies #[trigger] assoc_get(r, k2) == assoc_get(s, k2) by {
        if exists|j: int| 0 <= j < s.len() && (#[trigger] s[j]).0 == k2 {
            let j = choose|j: int| 0 <= j < s.len() && (#[trigger] s[j]).0 == k2;
            assert(r[j] == s[j]);
            let c2 = choose|c2: int| 0 <= c2 < r.len() && (#[trigger] r[c2]).0 == k2;
            assert(c2 != s.len());
            assert(r[c2] == s[c2]);
            if c2 != j {
                if c2 < j {
                    assert(s[c2].0 != s[j].0);
                } else {
                    assert(s[j].0 != s[c2].0);
                }
            }
        } else {
            if exists|c2: int| 0 <= c2 < r.len() && (#[trigger] r[c2]).0 == k2 {
                let c2 = choose|c2: int| 0 <= c2 < r.len() && (#[trigger] r[c2]).0 == k2;
                assert(c2 != s.len());
                assert(r[c2] == s[c2]);
            }
        }
    }
}

fn contains_cfg(v: &Vec<engine_cfg>, k: engine_cfg) -> (r: bool)
    ensures
        r == v@.contains(k),
{
    let mut i: usize = 0;
    while i < v.len()
        invariant
            i <= v@.len(),
            forall|j: int| 0 <= j < i ==> v@[j] != k,
        decreases v@.len() - i,
    {
        if v[i] == k {
            assert(v@[i as int] == k);
            return true;
        }
        i = i + 1;
    }
    false
}

fn count_nonzero(outs: &Vec<[u32; 4]>) -> (r: u64)
    ensures
        r == nonzero_count(outs@),
{
    let mut n: u64 = 0;
    let mut i: usize = 0;
    while i < outs.len()
        invariant
            i <= outs@.len(),
            n == nonzero_count(outs@.take(i as int)),
            n <= i,
        decreases outs@.len() - i,
    {
        let v = outs[i];
        assert(outs@.take(i as int + 1).drop_last() =~= outs@.take(i as int));
        if v[0] != 0 || v[1] != 0 || v[2] != 0 || v[3] != 0 {
            n = n + 1;
        }
        i = i + 1;
    }
    assert(outs@.take(outs@.len() as int) =~= outs@);
    n
}

impl timing_harness {
    pub fn new() -> (r: Self)
        ensures
            r.FGO_states@.len() == 0,
            r.CGO_states@.len() == 0,
            r.completed_CGO@.len() == 0,
            harness_wf(&r),
            cgo_track_of(&r) == replay(Seq::empty()),
    {
        let r = Self { FGO_states: Vec::new(), CGO_states: Vec::new(), completed_CGO: Vec::new() };
        proof {
            lemma_measuring_is_assoc(&r);
            assert(cgo_track_of(&r).measuring =~= Map::<engine_cfg, u64>::empty());
            assert(cgo_track_of(&r).finished =~= Set::<engine_cfg>::empty());
            assert(replay(Seq::<cgo_event>::empty()) == cgo_track { measuring: Map::empty(), finished: Set::empty() });
        }
        r
    }

    /// Starts measuring CGO engine `cfg` at `cycle`, unless it is measured already or has
    /// finished before; returns whether a measurement started.
    pub fn log_CGO_start(&mut self, cfg: engine_cfg, cycle: u64, req_id: u64) -> (r: bool)
        requires
            harness_wf(old(self)),
            cfg is CGO,
        ensures
            r == (!old(self).completed_CGO@.contains(cfg) && assoc_get(old(self).CGO_states@, cfg) is None),
            r ==> assoc_get(final(self).CGO_states@, cfg) == Some(CGO_harness_state { start_cycle: cycle }),
            forall|k: engine_cfg| k != cfg ==> #[trigger] assoc_get(final(self).CGO_states@, k) == assoc_get(old(self).CGO_states@, k),
            !r ==> final(self).CGO_states@ == old(self).CGO_states@,
            final(self).FGO_states@ == old(self).FGO_states@,
            final(self).completed_CGO@ == old(self).completed_CGO@,
            harness_wf(final(self)),
            cgo_track_of(final(self)) == track_start(cgo_track_of(old(self)), cfg, cycle),
    {
        proof {
            lemma_measuring_is_assoc(old(self));
        }
        if contains_cfg(&self.completed_CGO, cfg) {
            return false;
        }
        if find_key(&self.CGO_states, cfg).is_some() {
            return false;
        }
        proof {
            lemma_assoc_push(self.CGO_states@, cfg, CGO_harness_state { start_cycle: cycle });
        }
        self.CGO_states.push((cfg, CGO_harness_state { start_cycle: cycle }));
        proof {
            lemma_measuring_is_assoc(self);
            assert(cgo_track_of(self).measuring =~= cgo_track_of(old(self)).measuring.insert(cfg, cycle));
        }
        true
    }

    /// Whether CGO engine `cfg` is being measured.
    pub fn is_tracking_CGO(&self, cfg: engine_cfg) -> (r: bool)
        requires
            harness_wf(self),
        ensures
            r == (assoc_get(self.CGO_states@, cfg) is Some),
            r == cgo_track_of(self).measuring.contains_key(cfg),
    {
        find_key(&self.CGO_states, cfg).is_some()
    }

    /// Finishes measuring CGO engine `cfg` at `cycle` with the run's outputs (none counts as
    /// no outputs); an engine not being measured gives `None`.
    pub fn log_CGO_finish(&mut self, cfg: engine_cfg, cycle: u64, outputs: Option<Vec<[u32; 4]>>) -> (r: Option<CGO_harness_summary>)
        requires
            harness_wf(old(self)),
            assoc_get(old(self).CGO_states@, cfg) is Some ==> cfg is CGO,
            match outputs {
                Some(o) => o@.len() <= u64::MAX,
                None => true,
            },
        ensures
            match assoc_get(old(self).CGO_states@, cfg) {
                None => r is None && final(self).CGO_states@ == old(self).CGO_states@
                    && final(self).completed_CGO@ == old(self).completed_CGO@,
                Some(st) => r == Some(cgo_summary(st.start_cycle, cycle, match outputs {
                    Some(o) => o@,
                    None => Seq::<[u32; 4]>::empty(),
                })) && assoc_get(final(self).CGO_states@, cfg) is None
                    && final(self).completed_CGO@ == old(self).completed_CGO@.push(cfg),
            },
            forall|k: engine_cfg| k != cfg ==> #[trigger] assoc_get(final(self).CGO_states@, k) == assoc_get(old(self).CGO_states@, k),
            final(self).FGO_states@ == old(self).FGO_states@,
            harness_wf(final(self)),
            cgo_track_of(final(self)) == track_finish(cgo_track_of(old(self)), cfg),
    {
        proof {
            lemma_measuring_is_assoc(old(self));
        }
        let i = match find_key(&self.CGO_states, cfg) {
            Some(i) => i,
            None => {
                return None;
            },
        };
        proof {
            lemma_assoc_remove(self.CGO_states@, i as int);
        }
        let (_, state) = self.CGO_states.remove(i);
        let outs = match outputs {
            Some(o) => o,
            None => Vec::new(),
        };
        let output_vector_count = outs.len() as u64;
        let passing = count_nonzero(&outs);
        let elapsed = if cycle >= state.start_cycle { cycle - state.start_cycle } else { 0 };
        let summary = CGO_harness_summary {
            start_cycle: state.start_cycle,
            end_cycle: cycle,
            elapsed_cycles: elapsed,
            output_vector_count,
            passing_output_vector_count: passing,
            result_passed: output_vector_count > 0 && output_vector_count == passing,
        };
        let ghost done_before = self.completed_CGO@;
        self.completed_CGO.push(cfg);
        proof {
            lemma_measuring_is_assoc(self);
            assert(cgo_track_of(self).measuring =~= cgo_track_of(old(self)).measuring.remove(cfg));
            assert(self.completed_CGO@.to_set() =~= done_before.to_set().insert(cfg)) by {
                assert forall|k: engine_cfg| #[trigger] self.completed_CGO@.contains(k) <==> (done_before.contains(k) || k == cfg) by {
                    if self.completed_CGO@.contains(k) && k != cfg {
                        let j = choose|j: int| 0 <= j < self.completed_CGO@.len() && self.completed_CGO@[j] == k;
                        assert(done_before[j] == k);
                    }
                    if done_before.contains(k) {
                        let j = choose|j: int| 0 <= j < done_before.len() && done_before[j] == k;
                        assert(self.completed_CGO@[j] == k);
                    }
                    if k == cfg {
                        assert(self.completed_CGO@[done_before.len() as int] == cfg);
                    }
                }
            }
        }
        Some(summary)
    }

    /// Records a command received by FGO engine `cfg` at `cycle`: the first one opens its
    /// interval.
    pub fn log_FGO_receive(&mut self, cfg: engine_cfg, cycle: u64, req_id: u64, instruction: FGO_inst)
        requires
            harness_wf(old(self)),
            cfg is FGO,
        ensures
            assoc_get(final(self).FGO_states@, cfg) == (match assoc_get(old(self).FGO_states@, cfg) {
                Some(st) => Some(st),
                None => Some(fresh_fgo(cycle)),
            }),
            forall|k: engine_cfg| k != cfg ==> #[trigger] assoc_get(final(self).FGO_states@, k) == assoc_get(old(self).FGO_states@, k),
            final(self).CGO_states@ == old(self).CGO_states@,
            final(self).completed_CGO@ == old(self).completed_CGO@,
            harness_wf(final(self)),
    {
        if find_key(&self.FGO_states, cfg).is_none() {
            proof {
                lemma_assoc_push(self.FGO_states@, cfg, fresh_fgo(cycle));
            }
            self.FGO_states.push(
                (cfg, FGO_harness_state { start_cycle: cycle, vector_store_count: 0, passing_vector_store_count: 0 }),
            );
        }
    }

    /// Records a vector store of FGO engine `cfg` at `cycle`: it counts, and it passes when
    /// the stored vector has a nonzero element. Returns whether the vector was all zero and
    /// whether the engine had received a command (otherwise its interval opens here).
    pub fn log_FGO_result(&mut self, cfg: engine_cfg, cycle: u64, req_id: u64, addr: u32, output: Option<[i16; 8]>) -> (r: (bool, bool))
        requires
            harness_wf(old(self)),
            cfg is FGO,
            match assoc_get(old(self).FGO_states@, cfg) {
                Some(st) => st.vector_store_count < u64::MAX && st.passing_vector_store_count < u64::MAX,
                None => true,
            },
        ensures
            r.0 == all_zero(output),
            r.1 == (assoc_get(old(self).FGO_states@, cfg) is Some),
            ({
                let st = match assoc_get(old(self).FGO_states@, cfg) {
                    Some(st) => st,
                    None => fresh_fgo(cycle),
                };
                assoc_get(final(self).FGO_states@, cfg) == Some(FGO_harness_state {
                    vector_store_count: (st.vector_store_count + 1) as u64,
                    passing_vector_store_count: if all_zero(output) {
                        st.passing_vector_store_count
                    } else {
                        (st.passing_vector_store_count + 1) as u64
                    },
                    ..st
                })
            }),
            forall|k: engine_cfg| k != cfg ==> #[trigger] assoc_get(final(self).FGO_states@, k) == assoc_get(old(self).FGO_states@, k),
            final(self).CGO_states@ == old(self).CGO_states@,
            final(self).completed_CGO@ == old(self).completed_CGO@,
            harness_wf(final(self)),
    {
        let zero = match output {
            Some(v) => {
                let z = v[0] == 0 && v[1] == 0 && v[2] == 0 && v[3] == 0 && v[4] == 0 && v[5] == 0 && v[6] == 0 && v[7] == 0;
                proof {
                    if z {
                        assert forall|i: int| 0 <= i < 8 implies v@[i] == 0 by {
                            assert(i == 0 || i == 1 || i == 2 || i == 3 || i == 4 || i == 5 || i == 6 || i == 7);
                        }
                    }
                }
                z
            },
            None => true,
        };
        let (i, received) = match find_key(&self.FGO_states, cfg) {
            Some(i) => (i, true),
            None => {
                proof {
                    lemma_assoc_push(self.FGO_states@, cfg, fresh_fgo(cycle));
                }
                self.FGO_states.push(
                    (cfg, FGO_harness_state { start_cycle: cycle, vector_store_count: 0, passing_vector_store_count: 0 }),
                );
                (self.FGO_states.len() - 1, false)
            },
        };
        let ghost mid = self.FGO_states@;
        let st = self.FGO_states[i].1;
        let new_st = FGO_harness_state {
            vector_store_count: st.vector_store_count + 1,
            passing_vector_store_count: if zero { st.passing_vector_store_count } else { st.passing_vector_store_count + 1 },
            ..st
        };
        proof {
            assert(mid[i as int].0 == cfg);
            lemma_assoc_remove(mid, i as int);
            lemma_assoc_push(mid.remove(i as int), cfg, new_st);
        }
        self.FGO_states.remove(i);
        self.FGO_states.push((cfg, new_st));
        (zero, received)
    }

    /// Records an instruction retired by FGO engine `cfg` at `cycle`: a NOP closes the
    /// engine's interval and gives its summary (an engine without a received command gets an
    /// empty interval starting here); other instructions give `None`.
    pub fn log_FGO_retire(&mut self, cfg: engine_cfg, cycle: u64, req_id: u64, instruction: FGO_inst) -> (r: Option<FGO_harness_summary>)
        requires
            harness_wf(old(self)),
            cfg is FGO,
        ensures
            instruction != FGO_inst::NOP ==> r is None && final(self).FGO_states@ == old(self).FGO_states@,
            instruction == FGO_inst::NOP ==> r == Some(fgo_summary(match assoc_get(old(self).FGO_states@, cfg) {
                Some(st) => st,
                None => fresh_fgo(cycle),
            }, cycle)) && assoc_get(final(self).FGO_states@, cfg) is None,
            forall|k: engine_cfg| k != cfg ==> #[trigger] assoc_get(final(self).FGO_states@, k) == assoc_get(old(self).FGO_states@, k),
            final(self).CGO_states@ == old(self).CGO_states@,
            final(self).completed_CGO@ == old(self).completed_CGO@,
            harness_wf(final(self)),
    {
        match instruction {
            FGO_inst::NOP => {},
            _ => {
                return None;
            },
        }
        let state = match find_key(&self.FGO_states, cfg) {
            Some(i) => {
                proof {
                    lemma_assoc_remove(self.FGO_states@, i as int);
                }
                self.FGO_states.remove(i).1
            },
            None => FGO_harness_state { start_cycle: cycle, vector_store_count: 0, passing_vector_store_count: 0 },
        };
        let elapsed = if cycle >= state.start_cycle { cycle - state.start_cycle } else { 0 };
        Some(FGO_harness_summary {
            start_cycle: state.start_cycle,
            end_cycle: cycle,
            elapsed_cycles: elapsed,
            vector_store_count: state.vector_store_count,
            passing_vector_store_count: state.passing_vector_store_count,
            result_passed: state.vector_store_count > 0 && state.vector_store_count == state.passing_vector_store_count,
        })
    }
}

} // verus!
