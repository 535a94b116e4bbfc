use vstd::prelude::*;
use crate::sim_engine::sim::engine_cfg;

verus! {

/// `x * 4`, saturating at `usize::MAX`.
pub open spec fn sat_mul4(x: usize) -> int {
    if x * 4 > usize::MAX { usize::MAX as int } else { x * 4 }
}

/// The engine workers a process may run on a machine with `logical` hardware threads: 80% of
/// them, at least one, leaving room for the controller thread on a two-way SMT machine.
pub open spec fn worker_limit_spec(logical: usize) -> int {
    let w = sat_mul4(logical) / 5;
    if w < 1 { 1 } else { w }
}

/// The engine workers of one controller: the process budget, split between the two equally
/// sized PIM controllers of the full configuration (controller 0 takes the odd worker, and
/// every controller id from 1 up counts as the second), at least one each.
pub open spec fn controller_limit_spec(logical: usize, controller_id: u32, pim_size: u64, controller_size: u64) -> int {
    let p = worker_limit_spec(logical);
    if pim_size != controller_size {
        p
    } else {
        let idx: int = if controller_id >= 1 { 1 } else { 0 };
        let w = (p + 1 - idx) / 2;
        if w < 1 { 1 } else { w }
    }
}

/// The workers that tick `engine_count` engines under a limit of `worker_limit`: none without
/// engines, otherwise the limit (at least one) but no more than there are engines.
pub open spec fn fixed_workers_spec(worker_limit: usize, engine_count: usize) -> int {
    if engine_count == 0 {
        0
    } else {
        let l: int = if worker_limit < 1 { 1 } else { worker_limit as int };
        if l < engine_count { l } else { engine_count as int }
    }
}

/// The engine worker limit of a process on a machine with `logical_parallelism` hardware
/// threads; see `worker_limit_spec`.
pub fn smt_aware_engine_worker_limit(logical_parallelism: usize) -> (r: usize)
    ensures
        r == worker_limit_spec(logical_parallelism),
        r >= 1,
{
    let m = if logical_parallelism > usize::MAX / 4 { usize::MAX } else { logical_parallelism * 4 };
    let w = m / 5;
    if w < 1 { 1 } else { w }
}

/// The engine worker limit of controller `controller_id`; see `controller_limit_spec`.
pub fn controller_engine_worker_limit(
    logical_parallelism: usize,
    controller_id: u32,
    pim_size: u64,
    controller_size: u64,
) -> (r: usize)
    ensures
        r == controller_limit_spec(logical_parallelism, controller_id, pim_size, controller_size),
        r >= 1,
{
    let process_limit = smt_aware_engine_worker_limit(logical_parallelism);
    if pim_size != controller_size {
        return process_limit;
    }
    let controller_index: usize = if controller_id >= 1 { 1 } else { 0 };
    let w = (process_limit + 1 - controller_index) / 2;
    if w < 1 { 1 } else { w }
}

/// The number of workers that tick `engine_count` engines; see `fixed_workers_spec`.
pub fn fixed_worker_count(worker_limit: usize, engine_count: usize) -> (r: usize)
    ensures
        r == fixed_workers_spec(worker_limit, engine_count),
        engine_count > 0 ==> 1 <= r <= engine_count,
{
    if engine_count == 0 {
        return 0;
    }
    let l = if worker_limit < 1 { 1 } else { worker_limit };
    if l < engine_count { l } else { engine_count }
}

/// The engines that shard `s` of `w` holds: every `w`-th engine of `cfgs` from the `s`-th.
pub open spec fn shard_of(cfgs: Seq<engine_cfg>, w: int, s: int) -> Seq<engine_cfg> {
    Seq::new(
        (if s < cfgs.len() { (cfgs.len() - s + w - 1) / w } else { 0 }) as nat,
        |j: int| cfgs[j * w + s],
    )
}

/// Deals the engines `cfgs`, in the order given, round robin onto `worker_count` shards: the
/// `i`-th engine goes to shard `i % worker_count` at position `i / worker_count`. Returns the
/// shards and, for each engine, its (shard, position).
pub fn shard_plan(cfgs: &Vec<engine_cfg>, worker_count: usize) -> (r: (Vec<Vec<engine_cfg>>, Vec<(usize, usize)>))
    requires
        0 < worker_count <= cfgs.len(),
    ensures
        r.0.len() == worker_count,
        r.1.len() == cfgs.len(),
        forall|s: int| 0 <= s < worker_count ==> #[trigger] r.0[s]@ == shard_of(cfgs@, worker_count as int, s),
        forall|i: int|
            0 <= i < cfgs.len() ==> #[trigger] r.1[i] == ((i % worker_count as int) as usize, (i / worker_count as int) as usize),
{
    let w = worker_count;
    let mut shards: Vec<Vec<engine_cfg>> = Vec::new();
    let mut s: usize = 0;
    while s < w
        invariant
            s <= w,
            shards.len() == s,
            forall|t: int| 0 <= t < s ==> (#[trigger] shards[t])@.len() == 0,
        decreases w - s,
    {
        shards.push(Vec::new());
        s = s + 1;
    }
    let mut locations: Vec<(usize, usize)> = Vec::new();
    let mut i: usize = 0;
    while i < cfgs.len()
        invariant
            0 < w <= cfgs.len(),
            i <= cfgs.len(),
            shards.len() == w,
            locations.len() == i,
            forall|t: int| 0 <= t < w ==> #[trigger] shards[t]@ == shard_of(cfgs@.take(i as int), w as int, t),
            forall|k: int| 0 <= k < i ==> #[trigger] locations[k] == ((k % w as int) as usize, (k / w as int) as usize),
        decreases cfgs.len() - i,
    {
        let shard = i % w;
        let index = shards[shard].len();
        proof {
            lemma_deal_step(cfgs@, w as int, i as int);
        }
        let mut v = shards.remove(shard);
        v.push(cfgs[i]);
        shards.insert(shard, v);
        locations.push((shard, index));
        i = i + 1;
        proof {
            assert forall|t: int| 0 <= t < w implies #[trigger] shards[t]@ == shard_of(cfgs@.take(i as int), w as int, t) by {
                lemma_deal_step(cfgs@, w as int, (i - 1) as int);
            }
        }
    }
    proof {
        assert(cfgs@.take(i as int) =~= cfgs@);
    }
    (shards, locations)
}

/// Dealing engine `i` onto its shard extends that shard by it and leaves the others alone.
proof fn lemma_deal_step(cfgs: Seq<engine_cfg>, w: int, i: int)
    requires
        0 < w,
        0 <= i < cfgs.len(),
    ensures
        shard_of(cfgs.take(i), w, i % w).len() == i / w,
        shard_of(cfgs.take(i + 1), w, i % w) == shard_of(cfgs.take(i), w, i % w).push(cfgs[i]),
        forall|t: int| 0 <= t < w && t != i % w ==> #[trigger] shard_of(cfgs.take(i + 1), w, t) == shard_of(cfgs.take(i), w, t),
{
    let s = i % w;
    let q = i / w;
    assert(i == q * w + s && 0 <= s < w) by (nonlinear_arith)
        requires
            0 < w,
            0 <= i,
            s == i % w,
            q == i / w,
    ;
    assert((i - s + w - 1) / w == q) by (nonlinear_arith)
        requires
            0 < w,
            0 <= s < w,
            i == q * w + s,
            q >= 0,
    ;
    assert((i + 1 - s + w - 1) / w == q + 1) by (nonlinear_arith)
        requires
            0 < w,
            0 <= s < w,
            i == q * w + s,
            q >= 0,
    ;
    assert(cfgs.take(i).len() == i && cfgs.take(i + 1).len() == i + 1);
    if s == i {
        assert(q == 0) by (nonlinear_arith)
            requires
                0 < w,
                i == q * w + s,
                s == i,
        ;
    }
    let a = shard_of(cfgs.take(i + 1), w, s);
    let b = shard_of(cfgs.take(i), w, s).push(cfgs[i]);
    assert(a.len() == b.len());
    assert forall|j: int| 0 <= j < a.len() implies a[j] == b[j] by {
        if j < q {
            assert(j * w + s < i) by (nonlinear_arith)
                requires
                    0 < w,
                    0 <= s < w,
                    i == q * w + s,
                    0 <= j < q,
            ;
            assert(j * w + s >= 0) by (nonlinear_arith)
                requires
                    0 < w,
                    0 <= s,
                    0 <= j,
            ;
        } else {
            assert(j * w + s == i) by (nonlinear_arith)
                requires
                    j == q,
                    i == q * w + s,
            ;
        }
    }
    assert(a =~= b);
    assert forall|t: int| 0 <= t < w && t != s implies #[trigger] shard_of(cfgs.take(i + 1), w, t) == shard_of(cfgs.take(i), w, t) by {
        let c = shard_of(cfgs.take(i + 1), w, t);
        let d = shard_of(cfgs.take(i), w, t);
        lemma_count_skips(i, w, s, t, q);
        assert(c.len() == d.len());
        assert forall|j: int| 0 <= j < c.len() implies c[j] == d[j] by {
            lemma_index_below(i, w, t, j, d.len() as int);
        }
        assert(c =~= d);
    }
}

/// Adding index `i` (of residue `s`) does not change how many indices of another residue `t`
/// lie below the bound.
proof fn lemma_count_skips(i: int, w: int, s: int, t: int, q: int)
    requires
        0 < w,
        0 <= s < w,
        0 <= t < w,
        t != s,
        i == q * w + s,
        q >= 0,
    ensures
        (if t < i + 1 { (i + 1 - t + w - 1) / w } else { 0 }) == (if t < i { (i - t + w - 1) / w } else { 0 }),
{
    if t < i {
        if t < s {
            assert((i + 1 - t + w - 1) / w == q + 1 && (i - t + w - 1) / w == q + 1) by (nonlinear_arith)
                requires
                    0 < w,
                    0 <= t < s < w,
                    i == q * w + s,
                    q >= 0,
            ;
        } else {
            assert((i + 1 - t + w - 1) / w == q && (i - t + w - 1) / w == q) by (nonlinear_arith)
                requires
                    0 < w,
                    0 <= s < t < w,
                    i == q * w + s,
                    q >= 1,
            ;
        }
    } else {
        assert(q == 0) by (nonlinear_arith)
            requires
                0 < w,
                0 <= s,
                q >= 0,
                q * w + s <= t < w,
        ;
        assert(t >= i + 1);
    }
}

/// An index of residue `t` below the shard length lies below `i`.
proof fn lemma_index_below(i: int, w: int, t: int, j: int, len: int)
    requires
        0 < w,
        0 <= t < w,
        0 <= j < len,
        len == (if t < i { (i - t + w - 1) / w } else { 0 }),
    ensures
        0 <= j * w + t < i,
{
    assert(0 <= j * w + t < i) by (nonlinear_arith)
        requires
            0 < w,
            0 <= t < w,
            0 <= j,
            t < i,
            j < (i - t + w - 1) / w,
    ;
}


/// The round-robin shards are balanced: with at least as many engines as shards, two shards
/// differ in size by at most one, an earlier shard never holding fewer engines than a later
/// one, and every shard gets at least one engine.
pub proof fn lemma_shards_balanced(cfgs: Seq<engine_cfg>, w: int, s: int, t: int)
    requires
        0 < w <= cfgs.len(),
        0 <= s <= t < w,
    ensures
        shard_of(cfgs, w, t).len() <= shard_of(cfgs, w, s).len() <= shard_of(cfgs, w, t).len() + 1,
        shard_of(cfgs, w, t).len() >= 1,
{
    let n = cfgs.len() as int;
    assert((n - t + w - 1) / w <= (n - s + w - 1) / w <= (n - t + w - 1) / w + 1) by (nonlinear_arith)
        requires
            0 < w <= n,
            0 <= s <= t < w,
    ;
    assert((n - t + w - 1) / w >= 1) by (nonlinear_arith)
        requires
            0 < w <= n,
            0 <= t < w,
    ;
}

} // verus!
