use vstd::prelude::*;
use std::collections::HashMap;
use std::collections::VecDeque;
use crate::memory::mem_portal::dram_req;

verus! {

broadcast use vstd::std_specs::hash::group_hash_axioms;

/// A completion reported by the timing model: the cycle, the timing-model address and the
/// direction.
#[derive(Clone, Copy, Debug, PartialEq, Eq, Structural)]
pub struct dramsim3_mem_event {
    pub time: u64,
    pub addr: u64,
    pub is_write: bool,
}

/// A location in the timing model, in its components: channel, rank, bank group, bank, row,
/// column, the global address and the bank-local cache line.
#[derive(Clone, Copy, Debug, PartialEq, Eq, Structural)]
pub struct local_addr_bulk {
    pub channel: u64,
    pub rank: u64,
    pub bank_group: u64,
    pub bank: u64,
    pub row: u64,
    pub column: u64,
    pub global_addr: u64,
    pub bank_local_addr: u64,
}

/// Requests in flight in the timing model, one queue per timing-model address, oldest first.
pub struct pending_queues {
    queues: HashMap<u64, VecDeque<dram_req>>,
}

impl View for pending_queues {
    type V = Map<u64, Seq<dram_req>>;

    closed spec fn view(&self) -> Map<u64, Seq<dram_req>> {
        Map::new(|a: u64| self.queues@.contains_key(a), |a: u64| self.queues@[a]@)
    }
}

/// The queue of `a` in `m`, empty where `a` has none.
pub open spec fn queue_of(m: Map<u64, Seq<dram_req>>, a: u64) -> Seq<dram_req> {
    if m.contains_key(a) { m[a] } else { Seq::empty() }
}

/// `m` with `q` as the queue of `a`; an empty queue is dropped.
pub open spec fn with_queue(m: Map<u64, Seq<dram_req>>, a: u64, q: Seq<dram_req>) -> Map<u64, Seq<dram_req>> {
    if q.len() == 0 { m.remove(a) } else { m.insert(a, q) }
}

/// Every address that has a queue has a request in it.
pub open spec fn queues_wf(m: Map<u64, Seq<dram_req>>) -> bool {
    forall|a: u64| #[trigger] m.contains_key(a) ==> m[a].len() > 0
}

impl pending_queues {
    /// Whether this holds well-formed queues.
    pub closed spec fn wf(&self) -> bool {
        queues_wf(self@)
    }

    /// No request in flight.
    pub fn new() -> (r: Self)
        ensures
            r.wf(),
            r@ == Map::<u64, Seq<dram_req>>::empty(),
    {
        let r = pending_queues { queues: HashMap::new() };
        assert(r@ =~= Map::<u64, Seq<dram_req>>::empty());
        r
    }

    /// Whether no request is in flight.
    pub fn is_empty(&self) -> (r: bool)
        requires
            self.wf(),
        ensures
            r == (self@ == Map::<u64, Seq<dram_req>>::empty()),
    {
        let r = self.queues.is_empty();
        proof {
            if r {
                assert(self@ =~= Map::<u64, Seq<dram_req>>::empty());
            } else {
                let a = choose|a: u64| self.queues@.contains_key(a);
                assert(self@.contains_key(a));
            }
        }
        r
    }

    /// Whether a request is in flight at `addr`.
    pub fn has_pending(&self, addr: u64) -> (r: bool)
        requires
            self.wf(),
        ensures
            r == (queue_of(self@, addr).len() > 0),
    {
        self.queues.contains_key(&addr)
    }

    /// Takes the queue of `addr` out of the map.
    fn take_queue(&mut self, addr: u64) -> (q: VecDeque<dram_req>)
        ensures
            q@ == queue_of(old(self)@, addr),
            final(self)@ == old(self)@.remove(addr),
    {
        let q = match self.queues.remove(&addr) {
            Some(q) => q,
            None => VecDeque::new(),
        };
        assert(self@ =~= old(self)@.remove(addr));
        q
    }

    /// Queues `req` behind the requests in flight at `addr`. A request without an id cannot
    /// be queued: its completion could not be told apart.
    pub fn push_pending(&mut self, addr: u64, req: dram_req)
        requires
            old(self).wf(),
            req.id is Some,
        ensures
            final(self).wf(),
            final(self)@ == old(self)@.insert(addr, queue_of(old(self)@, addr).push(req)),
    {
        let mut q = self.take_queue(addr);
        q.push_back(req);
        let ghost mid = self.queues@;
        let ghost before = self@;
        self.queues.insert(addr, q);
        assert(self.queues@ == mid.insert(addr, q));
        proof {
            let target = old(self)@.insert(addr, queue_of(old(self)@, addr).push(req));
            assert(self@.contains_key(addr));
            assert(self.queues@[addr] == q);
            assert(self@[addr] == q@);
            assert(target[addr] == q@);
            assert forall|a: u64| a != addr implies #[trigger] self@.contains_key(a) == target.contains_key(a)
                && (self@.contains_key(a) ==> self@[a] == target[a]) by {
                assert(before.contains_key(a) == mid.contains_key(a));
                assert(self.queues@.contains_key(a) == mid.contains_key(a));
                if self@.contains_key(a) {
                    assert(self.queues@[a] == mid[a]);
                    assert(before[a] == mid[a]@);
                    assert(before[a] == old(self)@[a]);
                }
            }
            assert(self@ =~= target);
        }
    }

    /// Removes and returns the oldest request in flight at `addr`, as a completion at that
    /// address names it; the queue goes when it empties.
    pub fn pop_completed(&mut self, addr: u64) -> (r: dram_req)
        requires
            old(self).wf(),
            queue_of(old(self)@, addr).len() > 0,
        ensures
            final(self).wf(),
            r == queue_of(old(self)@, addr)[0],
            final(self)@ == with_queue(old(self)@, addr, queue_of(old(self)@, addr).drop_first()),
    {
        let mut q = self.take_queue(addr);
        let r = q.pop_front().unwrap();
        assert(q@ =~= queue_of(old(self)@, addr).drop_first());
        let ghost mid = self.queues@;
        let ghost before = self@;
        if q.len() > 0 {
            self.queues.insert(addr, q);
            assert(self.queues@ == mid.insert(addr, q));
        }
        proof {
            let target = with_queue(old(self)@, addr, queue_of(old(self)@, addr).drop_first());
            if q.len() > 0 {
                assert(self@.contains_key(addr) && self@[addr] == q@);
            } else {
                assert(!self@.contains_key(addr));
            }
            assert forall|a: u64| a != addr implies #[trigger] self@.contains_key(a) == target.contains_key(a)
                && (self@.contains_key(a) ==> self@[a] == target[a]) by {
                assert(before.contains_key(a) == mid.contains_key(a));
                assert(self.queues@.contains_key(a) == mid.contains_key(a));
                if self@.contains_key(a) {
                    assert(self.queues@[a] == mid[a]);
                    assert(before[a] == mid[a]@);
                    assert(before[a] == old(self)@[a]);
                }
            }
            assert(self@ =~= target);
        }
        assert(self@ =~= with_queue(old(self)@, addr, queue_of(old(self)@, addr).drop_first()));
        r
    }
}


/// One completion event of the timing model, `(addr, is_write)`, taken from the read or
/// write queues `(r, w)`: the oldest request in flight at `addr` in that direction completes;
/// an event with no such request is a fault.
pub open spec fn complete_one(r: Map<u64, Seq<dram_req>>, w: Map<u64, Seq<dram_req>>, ev: dramsim3_mem_event) -> Option<
    (Map<u64, Seq<dram_req>>, Map<u64, Seq<dram_req>>, dram_req),
> {
    let a = ev.addr;
    let is_write = ev.is_write;
    let m = if is_write { w } else { r };
    let q = queue_of(m, a);
    if q.len() == 0 {
        None
    } else {
        let m2 = with_queue(m, a, q.drop_first());
        if is_write { Some((r, m2, q[0])) } else { Some((m2, w, q[0])) }
    }
}

/// The events `evs` taken in order: the queues after them and the requests they complete,
/// or the first event that matches no request in flight, with the queues as they stood then.
pub open spec fn complete_events(r: Map<u64, Seq<dram_req>>, w: Map<u64, Seq<dram_req>>, evs: Seq<dramsim3_mem_event>) -> (
    Map<u64, Seq<dram_req>>,
    Map<u64, Seq<dram_req>>,
    Result<Seq<dram_req>, dramsim3_mem_event>,
)
    decreases evs.len(),
{
    if evs.len() == 0 {
        (r, w, Ok(Seq::empty()))
    } else {
        let (r1, w1, res) = complete_events(r, w, evs.drop_last());
        match res {
            Err(e) => (r1, w1, Err(e)),
            Ok(done) => match complete_one(r1, w1, evs.last()) {
                None => (r1, w1, Err(evs.last())),
                Some((r2, w2, req)) => (r2, w2, Ok(done.push(req))),
            },
        }
    }
}

proof fn lemma_fault_persists(r: Map<u64, Seq<dram_req>>, w: Map<u64, Seq<dram_req>>, evs: Seq<dramsim3_mem_event>, i: int)
    requires
        0 <= i <= evs.len(),
        complete_events(r, w, evs.take(i)).2 is Err,
    ensures
        complete_events(r, w, evs) == complete_events(r, w, evs.take(i)),
    decreases evs.len() - i,
{
    if i < evs.len() {
        assert(evs.take(i + 1).drop_last() =~= evs.take(i));
        lemma_fault_persists(r, w, evs, i + 1);
    } else {
        assert(evs.take(i) =~= evs);
    }
}

/// Where a request goes in the timing model.
#[derive(Clone, Copy, Debug, PartialEq, Eq, Structural)]
pub enum timing_target {
    /// A host access, at its address relative to the controller base.
    Host(u64),
    /// A PIM access, at a cache line of the tracker's bank (row, column and global address
    /// left zero for the timing model to fill in).
    PimBankLocal(local_addr_bulk),
}

/// The request bookkeeping of one timing-model controller: the bank it serves (and, for a
/// pseudo bank, the bank-local window it owns), the base of its host addresses, the next
/// request id, and the reads and writes in flight.
pub struct dram_tracker {
    pub ch: u64,
    pub ra: u64,
    pub bg: u64,
    pub ba: u64,
    pub pseudo_bank: Option<u64>,
    pub pim_bank_local_base: u64,
    pub pim_bank_local_size: Option<u64>,
    pub host_addr_base: u64,
    pub req_id: u64,
    pub pend_read: pending_queues,
    pub pend_write: pending_queues,
}

/// The address `addr` of a host (`!is_pim`) or PIM access can be placed: a host address lies
/// at or above the controller base; a PIM address lies within the pseudo bank's window, where
/// there is one, and its bank-local cache line fits in 64 bits.
pub open spec fn placeable(t: dram_tracker, addr: u64, is_pim: bool) -> bool {
    if !is_pim {
        addr >= t.host_addr_base
    } else {
        &&& (t.pim_bank_local_size matches Some(size) ==> addr < size)
        &&& t.pim_bank_local_base + addr <= u64::MAX
    }
}

/// Where `addr` goes; see `placeable`.
pub open spec fn target_of(t: dram_tracker, addr: u64, is_pim: bool) -> timing_target {
    if !is_pim {
        timing_target::Host((addr - t.host_addr_base) as u64)
    } else {
        timing_target::PimBankLocal(
            local_addr_bulk {
                channel: t.ch,
                rank: t.ra,
                bank_group: t.bg,
                bank: t.ba,
                row: 0,
                column: 0,
                global_addr: 0,
                bank_local_addr: (t.pim_bank_local_base + addr) as u64,
            },
        )
    }
}

impl dram_tracker {
    /// Both queue sets are well formed.
    pub open spec fn wf(&self) -> bool {
        self.pend_read.wf() && self.pend_write.wf()
    }

    /// A tracker for bank `ba` of bank group `bg`, rank `ra`, channel `ch`, optionally for
    /// pseudo bank `pseudo_bank` owning `pim_bank_local_size` cache lines from
    /// `pim_bank_local_base`, whose host addresses start at `host_addr_base`; ids start at 0
    /// and nothing is in flight.
    fn build(
        ch: u64,
        ra: u64,
        bg: u64,
        ba: u64,
        pseudo_bank: Option<u64>,
        pim_bank_local_base: u64,
        pim_bank_local_size: Option<u64>,
        host_addr_base: u64,
    ) -> (r: Self)
        ensures
            r.wf(),
            r.ch == ch && r.ra == ra && r.bg == bg && r.ba == ba,
            r.pseudo_bank == pseudo_bank,
            r.pim_bank_local_base == pim_bank_local_base,
            r.pim_bank_local_size == pim_bank_local_size,
            r.host_addr_base == host_addr_base,
            r.req_id == 0,
            r.pend_read@ == Map::<u64, Seq<dram_req>>::empty(),
            r.pend_write@ == Map::<u64, Seq<dram_req>>::empty(),
    {
        dram_tracker {
            ch,
            ra,
            bg,
            ba,
            pseudo_bank,
            pim_bank_local_base,
            pim_bank_local_size,
            host_addr_base,
            req_id: 0,
            pend_read: pending_queues::new(),
            pend_write: pending_queues::new(),
        }
    }

    /// A tracker for a whole bank whose host addresses start at 0.
    pub fn new(ch_: u64, ra_: u64, bg_: u64, ba_: u64) -> (r: Self)
        ensures
            r.wf(),
            r.ch == ch_ && r.ra == ra_ && r.bg == bg_ && r.ba == ba_,
            r.pseudo_bank is None && r.pim_bank_local_base == 0 && r.pim_bank_local_size is None,
            r.host_addr_base == 0,
            r.req_id == 0,
            r.pend_read@ == Map::<u64, Seq<dram_req>>::empty(),
            r.pend_write@ == Map::<u64, Seq<dram_req>>::empty(),
    {
        Self::build(ch_, ra_, bg_, ba_, None, 0, None, 0)
    }

    /// A tracker for a whole bank whose host addresses start at `host_addr_base`.
    pub fn new_with_address_base(ch_: u64, ra_: u64, bg_: u64, ba_: u64, host_addr_base: u64) -> (r: Self)
        ensures
            r.wf(),
            r.ch == ch_ && r.ra == ra_ && r.bg == bg_ && r.ba == ba_,
            r.pseudo_bank is None && r.pim_bank_local_base == 0 && r.pim_bank_local_size is None,
            r.host_addr_base == host_addr_base,
            r.req_id == 0,
            r.pend_read@ == Map::<u64, Seq<dram_req>>::empty(),
            r.pend_write@ == Map::<u64, Seq<dram_req>>::empty(),
    {
        Self::build(ch_, ra_, bg_, ba_, None, 0, None, host_addr_base)
    }

    /// A tracker for one pseudo bank, owning `pim_bank_local_size` cache lines of its bank
    /// from `pim_bank_local_base`.
    pub fn new_for_pseudo_bank(
        ch_: u64,
        ra_: u64,
        bg_: u64,
        ba_: u64,
        pseudo_bank: u64,
        pim_bank_local_base: u64,
        pim_bank_local_size: u64,
        host_addr_base: u64,
    ) -> (r: Self)
        ensures
            r.wf(),
            r.ch == ch_ && r.ra == ra_ && r.bg == bg_ && r.ba == ba_,
            r.pseudo_bank == Some(pseudo_bank),
            r.pim_bank_local_base == pim_bank_local_base,
            r.pim_bank_local_size == Some(pim_bank_local_size),
            r.host_addr_base == host_addr_base,
            r.req_id == 0,
            r.pend_read@ == Map::<u64, Seq<dram_req>>::empty(),
            r.pend_write@ == Map::<u64, Seq<dram_req>>::empty(),
    {
        Self::build(
            ch_,
            ra_,
            bg_,
            ba_,
            Some(pseudo_bank),
            pim_bank_local_base,
            Some(pim_bank_local_size),
            host_addr_base,
        )
    }

    /// A fresh request id: ids count up from 0, so each is handed out once.
    pub fn get_req_id(&mut self) -> (r: u64)
        requires
            old(self).req_id < u64::MAX,
        ensures
            r == old(self).req_id,
            *final(self) == (dram_tracker { req_id: (old(self).req_id + 1) as u64, ..*old(self) }),
    {
        let id = self.req_id;
        self.req_id = self.req_id + 1;
        id
    }

    /// Whether `addr` can be placed; see `placeable`.
    pub fn can_place(&self, addr: u64, is_pim: bool) -> (r: bool)
        ensures
            r == placeable(*self, addr, is_pim),
    {
        if !is_pim {
            addr >= self.host_addr_base
        } else {
            let in_window = match self.pim_bank_local_size {
                Some(size) => addr < size,
                None => true,
            };
            in_window && addr <= u64::MAX - self.pim_bank_local_base
        }
    }

    /// Where a request at `addr` goes in the timing model; see `target_of`.
    pub fn request_addr_to_dram_addr(&self, addr: u64, is_pim: bool) -> (r: timing_target)
        requires
            placeable(*self, addr, is_pim),
        ensures
            r == target_of(*self, addr, is_pim),
    {
        if !is_pim {
            timing_target::Host(addr - self.host_addr_base)
        } else {
            timing_target::PimBankLocal(
                local_addr_bulk {
                    channel: self.ch,
                    rank: self.ra,
                    bank_group: self.bg,
                    bank: self.ba,
                    row: 0,
                    column: 0,
                    global_addr: 0,
                    bank_local_addr: self.pim_bank_local_base + addr,
                },
            )
        }
    }

    /// The controller-global address of the timing model's local address `local`.
    pub fn host_global_addr(&self, local: u64) -> (r: u64)
        requires
            local + self.host_addr_base <= u64::MAX,
        ensures
            r == local + self.host_addr_base,
    {
        local + self.host_addr_base
    }

    /// Records `req`, accepted by the timing model at `real_addr`, as in flight behind the
    /// requests of its direction at that address.
    pub fn record_issued(&mut self, real_addr: u64, req: dram_req)
        requires
            old(self).wf(),
            req.id is Some,
        ensures
            final(self).wf(),
            final(self).pend_read@ == (if req.is_read {
                old(self).pend_read@.insert(real_addr, queue_of(old(self).pend_read@, real_addr).push(req))
            } else {
                old(self).pend_read@
            }),
            final(self).pend_write@ == (if !req.is_read {
                old(self).pend_write@.insert(real_addr, queue_of(old(self).pend_write@, real_addr).push(req))
            } else {
                old(self).pend_write@
            }),
            final(self).req_id == old(self).req_id,
    {
        if req.is_read {
            self.pend_read.push_pending(real_addr, req);
        } else {
            self.pend_write.push_pending(real_addr, req);
        }
    }

    /// Takes the completion events of one timing-model cycle in order; see
    /// `complete_events`. At an event that matches no request in flight it stops and returns
    /// that event.
    pub fn take_completions(&mut self, events: &Vec<dramsim3_mem_event>) -> (r: Result<Vec<dram_req>, dramsim3_mem_event>)
        requires
            old(self).wf(),
        ensures
            final(self).wf(),
            final(self).req_id == old(self).req_id,
            ({
                let (r2, w2, res) = complete_events(old(self).pend_read@, old(self).pend_write@, events@);
                &&& final(self).pend_read@ == r2
                &&& final(self).pend_write@ == w2
                &&& match (r, res) {
                    (Ok(v), Ok(s)) => v@ == s,
                    (Err(e), Err(e2)) => e == e2,
                    _ => false,
                }
            }),
    {
        let ghost r0 = self.pend_read@;
        let ghost w0 = self.pend_write@;
        let mut done: Vec<dram_req> = Vec::new();
        let mut i: usize = 0;
        while i < events.len()
            invariant
                i <= events.len(),
                self.wf(),
                self.req_id == old(self).req_id,
                r0 == old(self).pend_read@,
                w0 == old(self).pend_write@,
                complete_events(r0, w0, events@.take(i as int)) == (self.pend_read@, self.pend_write@, Ok::<
                    Seq<dram_req>,
                    dramsim3_mem_event,
                >(done@)),
            decreases events.len() - i,
        {
            let ev = events[i];
            let a = ev.addr;
            let is_write = ev.is_write;
            assert(events@.take(i + 1).drop_last() =~= events@.take(i as int));
            assert(events@.take(i + 1).last() == events@[i as int]);
            if is_write {
                if !self.pend_write.has_pending(a) {
                    proof {
                        lemma_fault_persists(r0, w0, events@, i + 1);
                    }
                    return Err(ev);
                }
                let req = self.pend_write.pop_completed(a);
                done.push(req);
            } else {
                if !self.pend_read.has_pending(a) {
                    proof {
                        lemma_fault_persists(r0, w0, events@, i + 1);
                    }
                    return Err(ev);
                }
                let req = self.pend_read.pop_completed(a);
                done.push(req);
            }
            i = i + 1;
        }
        assert(events@.take(i as int) =~= events@);
        Ok(done)
    }

    /// Whether nothing is in flight: no request waits here and the timing model reports itself
    /// drained (`model_drained`).
    pub fn is_drained(&self, model_drained: bool) -> (r: bool)
        requires
            self.wf(),
        ensures
            r == (self.pend_read@ == Map::<u64, Seq<dram_req>>::empty() && self.pend_write@ == Map::<
                u64,
                Seq<dram_req>,
            >::empty() && model_drained),
    {
        self.pend_read.is_empty() && self.pend_write.is_empty() && model_drained
    }
}


/// Completions come back in issue order at each address: two reads issued one after the other
/// at an address with nothing in flight complete, on two read events there (at any cycles
/// `t1`, `t2`), in that order, and leave nothing in flight there; the writes are untouched.
pub proof fn lemma_completions_in_issue_order(
    r: Map<u64, Seq<dram_req>>,
    w: Map<u64, Seq<dram_req>>,
    a: u64,
    x: dram_req,
    y: dram_req,
    t1: u64,
    t2: u64,
)
    requires
        !r.contains_key(a),
    ensures
        ({
            let r1 = r.insert(a, queue_of(r, a).push(x));
            let r2 = r1.insert(a, queue_of(r1, a).push(y));
            let evs = seq![
                dramsim3_mem_event { time: t1, addr: a, is_write: false },
                dramsim3_mem_event { time: t2, addr: a, is_write: false },
            ];
            complete_events(r2, w, evs) == (r, w, Ok::<Seq<dram_req>, dramsim3_mem_event>(seq![x, y]))
        }),
{
    let r1 = r.insert(a, queue_of(r, a).push(x));
    let r2 = r1.insert(a, queue_of(r1, a).push(y));
    let e_1 = dramsim3_mem_event { time: t1, addr: a, is_write: false };
    let e_2 = dramsim3_mem_event { time: t2, addr: a, is_write: false };
    let evs = seq![e_1, e_2];
    assert(queue_of(r2, a) =~= seq![x, y]);
    let e1 = evs.drop_last();
    assert(e1 =~= seq![e_1]);
    assert(e1.drop_last() =~= Seq::<dramsim3_mem_event>::empty());
    let r3 = r2.insert(a, seq![y]);
    assert(seq![x, y].drop_first() =~= seq![y]);
    assert(complete_events(r2, w, e1.drop_last()) == (r2, w, Ok::<Seq<dram_req>, dramsim3_mem_event>(Seq::empty())));
    assert(complete_one(r2, w, e_1) == Some((r3, w, x)));
    assert(Seq::<dram_req>::empty().push(x) =~= seq![x]);
    assert(complete_events(r2, w, e1) == (r3, w, Ok::<Seq<dram_req>, dramsim3_mem_event>(seq![x])));
    assert(queue_of(r3, a) =~= seq![y]);
    assert(seq![y].drop_first() =~= Seq::<dram_req>::empty());
    assert(r3.remove(a) =~= r);
    assert(seq![x].push(y) =~= seq![x, y]);
}

} // verus!
