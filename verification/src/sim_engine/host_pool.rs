use vstd::prelude::*;
use std::collections::HashSet;
use std::collections::VecDeque;
use crate::memory::dram_tracker::dram_tracker;
use crate::memory::mem_portal::{dram_portal, dram_req, popped, portal_mode, portal_req, portal_state};

verus! {

broadcast use vstd::std_specs::hash::group_hash_axioms;

/// Host memory requests waiting for an engine to serve them, oldest first.
pub struct host_pool {
    reqs: VecDeque<dram_req>,
}

impl View for host_pool {
    type V = Seq<dram_req>;

    closed spec fn view(&self) -> Seq<dram_req> {
        self.reqs@
    }
}

/// The portal with `s` pushed, in order, onto its host request stack.
pub open spec fn host_pushed(v: portal_state, s: Seq<dram_req>) -> portal_state {
    portal_state { host_req: v.host_req + s, ..v }
}

/// The requests the DRAM side takes from the portal in `k` steps, in the order taken.
pub open spec fn taken_in_order(v: portal_state, k: nat) -> Seq<dram_req>
    decreases k,
{
    if k == 0 {
        Seq::empty()
    } else {
        match popped(v).0 {
            Some(r) => seq![r] + taken_in_order(popped(v).1, (k - 1) as nat),
            None => Seq::empty(),
        }
    }
}

/// `sent` is `orig` as handed to the portal in a host quantum: the same transaction, keeping
/// its id if it had one and otherwise carrying a fresh one in `[lo, hi)`, its id recorded in
/// `ids`.
pub open spec fn quantum_sent(sent: dram_req, orig: dram_req, ids: Set<u64>, lo: u64, hi: u64) -> bool {
    &&& sent.addr == orig.addr && sent.is_read == orig.is_read && sent.is_pim == orig.is_pim
    &&& (orig.id is Some ==> sent.id == orig.id)
    &&& (orig.id is None ==> (sent.id matches Some(n) && lo <= n < hi))
    &&& sent.id is Some
    &&& ids.contains(sent.id->0)
}

/// `b` differs from `a` at most in its host request stack, which extends that of `a`.
pub open spec fn host_stack_grown(a: portal_state, b: portal_state) -> bool {
    &&& b == (portal_state { host_req: b.host_req, ..a })
    &&& b.host_req.len() >= a.host_req.len()
    &&& forall|i: int| 0 <= i < a.host_req.len() ==> #[trigger] b.host_req[i] == a.host_req[i]
}

impl host_pool {
    /// No request waits.
    pub fn new() -> (r: Self)
        ensures
            r@ == Seq::<dram_req>::empty(),
    {
        host_pool { reqs: VecDeque::new() }
    }

    /// The number of waiting requests.
    pub fn len(&self) -> (r: usize)
        ensures
            r == self@.len(),
    {
        self.reqs.len()
    }

    /// Whether no request waits.
    pub fn is_empty(&self) -> (r: bool)
        ensures
            r == (self@.len() == 0),
    {
        self.reqs.len() == 0
    }

    /// Queues a host memory request; PIM accesses do not come this way.
    pub fn enqueue_host_mem_request(&mut self, req: dram_req)
        requires
            !req.is_pim,
        ensures
            final(self)@ == old(self)@.push(req),
    {
        self.reqs.push_back(req);
    }

    /// Hands every waiting request to the portal's host stack, newest first, so that the
    /// DRAM side takes them oldest first.
    pub fn submit_all_host_requests(&mut self, port: &mut dram_portal)
        ensures
            final(self)@ == Seq::<dram_req>::empty(),
            final(port)@ == host_pushed(old(port)@, old(self)@.reverse()),
    {
        let ghost p = self@;
        while self.reqs.len() > 0
            invariant
                p == old(self)@,
                self@ == p.take(self@.len() as int),
                self@.len() <= p.len(),
                port@ == host_pushed(old(port)@, p.skip(self@.len() as int).reverse()),
            decreases self@.len(),
        {
            let ghost n = self@.len() as int;
            let req = self.reqs.pop_back().unwrap();
            port.submit(portal_req::HOST_REQ { req });
            proof {
                assert(self@ =~= p.take(n - 1));
                assert(p.skip(n - 1).reverse() =~= p.skip(n).reverse().push(p[n - 1]));
                assert(old(port)@.host_req + p.skip(n).reverse().push(p[n - 1]) =~= (old(port)@.host_req + p.skip(
                    n,
                ).reverse()).push(req));
            }
        }
        proof {
            assert(p.skip(0) =~= p);
        }
    }

    /// Hands the oldest waiting request to the portal's host stack.
    pub fn issue_oldest(&mut self, port: &mut dram_portal)
        requires
            old(self)@.len() > 0,
        ensures
            final(self)@ == old(self)@.drop_first(),
            final(port)@ == host_pushed(old(port)@, seq![old(self)@[0]]),
    {
        let req = self.reqs.pop_front().unwrap();
        port.submit(portal_req::HOST_REQ { req });
        assert(old(port)@.host_req.push(req) =~= old(port)@.host_req + seq![req]);
    }

    /// A host quantum of `k` requests: the `k` oldest waiting requests get an id from
    /// `tracker` where they have none, their ids are recorded in `quantum_ids`, and they go to
    /// the portal's host stack newest first, so that the DRAM side takes them oldest first.
    pub fn issue_quantum(
        &mut self,
        k: usize,
        tracker: &mut dram_tracker,
        quantum_ids: &mut HashSet<u64>,
        port: &mut dram_portal,
    )
        requires
            k <= old(self)@.len(),
            old(tracker).req_id + k <= u64::MAX,
        ensures
            final(self)@ == old(self)@.skip(k as int),
            host_stack_grown(old(port)@, final(port)@),
            final(port)@.host_req.len() == old(port)@.host_req.len() + k,
            forall|i: int|
                0 <= i < k ==> quantum_sent(
                    #[trigger] final(port)@.host_req[old(port)@.host_req.len() + k - 1 - i],
                    old(self)@[i],
                    final(quantum_ids)@,
                    old(tracker).req_id,
                    final(tracker).req_id,
                ),
            old(quantum_ids)@.subset_of(final(quantum_ids)@),
            old(tracker).req_id <= final(tracker).req_id <= old(tracker).req_id + k,
            final(tracker).pend_read@ == old(tracker).pend_read@,
            final(tracker).pend_write@ == old(tracker).pend_write@,
    {
        let mut batch: Vec<dram_req> = Vec::new();
        let mut i: usize = 0;
        while i < k
            invariant
                i <= k,
                k <= old(self)@.len(),
                batch@ == old(self)@.take(i as int),
                self@ == old(self)@.skip(i as int),
            decreases k - i,
        {
            let req = self.reqs.pop_front().unwrap();
            batch.push(req);
            i = i + 1;
            assert(batch@ =~= old(self)@.take(i as int));
            assert(self@ =~= old(self)@.skip(i as int));
        }
        let ghost base = port@.host_req.len();
        let mut j: usize = k;
        while j > 0
            invariant
                j <= k,
                batch@ == old(self)@.take(k as int),
                k <= old(self)@.len(),
                tracker.req_id + j <= u64::MAX,
                tracker.req_id <= old(tracker).req_id + (k - j),
                tracker.req_id >= old(tracker).req_id,
                tracker.pend_read@ == old(tracker).pend_read@,
                tracker.pend_write@ == old(tracker).pend_write@,
                base == old(port)@.host_req.len(),
                port@.host_req.len() == base + (k - j),
                host_stack_grown(old(port)@, port@),
                forall|t: int|
                    j <= t < k ==> quantum_sent(
                        #[trigger] port@.host_req[base + k - 1 - t],
                        old(self)@[t],
                        quantum_ids@,
                        old(tracker).req_id,
                        tracker.req_id,
                    ),
                old(quantum_ids)@.subset_of(quantum_ids@),
            decreases j,
        {
            j = j - 1;
            let mut req = batch[j];
            if req.id.is_none() {
                let id = tracker.get_req_id();
                req.set_id(id);
            }
            let id = match req.id {
                Some(id) => id,
                None => 0,
            };
            quantum_ids.insert(id);
            let ghost before = port@.host_req;
            port.submit(portal_req::HOST_REQ { req });
            proof {
                assert(port@.host_req == before.push(req));
                assert forall|t: int| j <= t < k implies quantum_sent(
                    #[trigger] port@.host_req[base + k - 1 - t],
                    old(self)@[t],
                    quantum_ids@,
                    old(tracker).req_id,
                    tracker.req_id,
                ) by {
                    if t == j {
                        assert(base + k - 1 - t == before.len());
                    } else {
                        assert(port@.host_req[base + k - 1 - t] == before[base + k - 1 - t]);
                    }
                }
            }
        }
    }
}

/// A host request of the current quantum completed: its id leaves the quantum's ids.
pub fn complete_quantum_request(quantum_ids: &mut HashSet<u64>, req: &dram_req)
    ensures
        final(quantum_ids)@ == (match req.id {
            Some(id) => old(quantum_ids)@.remove(id),
            None => old(quantum_ids)@,
        }),
{
    if let Some(id) = req.id {
        quantum_ids.remove(&id);
    }
}

/// Handing waiting requests to the portal newest first keeps their order: the DRAM side,
/// draining the host stack of a portal in host mode with no host request pending, takes them
/// exactly in the order they arrived.
pub proof fn lemma_reverse_submission_is_fifo(v: portal_state, p: Seq<dram_req>)
    requires
        v.mode == portal_mode::HOST,
        v.host_req.len() == 0,
    ensures
        taken_in_order(host_pushed(v, p.reverse()), p.len()) == p,
    decreases p.len(),
{
    let v1 = host_pushed(v, p.reverse());
    if p.len() > 0 {
        let rest = p.drop_first();
        assert(p.reverse().last() == p[0]);
        assert(p.reverse().drop_last() =~= rest.reverse());
        assert(v.host_req + p.reverse() =~= p.reverse());
        assert(popped(v1).0 == Some(p[0]));
        assert(popped(v1).1 == host_pushed(v, rest.reverse())) by {
            assert(v.host_req + rest.reverse() =~= rest.reverse());
        }
        lemma_reverse_submission_is_fifo(v, rest);
        assert(seq![p[0]] + rest =~= p);
    } else {
        assert(taken_in_order(v1, 0) =~= Seq::<dram_req>::empty());
        assert(p =~= Seq::<dram_req>::empty());
    }
}

} // verus!
