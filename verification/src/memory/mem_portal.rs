use vstd::prelude::*;

verus! {

/// A DRAM transaction as the simulator tracks it.
#[derive(Clone, Copy, Debug, PartialEq, Eq, Structural)]
pub struct dram_req {
    pub addr: u64,
    pub id: Option<u64>,
    pub is_read: bool,
    pub is_pim: bool,
}

/// Two requests describe the same transaction for completion matching:
/// same address, direction and origin (the id is not compared).
pub open spec fn same_transaction(a: dram_req, b: dram_req) -> bool {
    a.addr == b.addr && a.is_read == b.is_read && a.is_pim == b.is_pim
}

impl dram_req {
    pub fn new(addr: u64, is_read_: bool, is_pim_: bool) -> (r: Self)
        ensures
            r == (dram_req { addr, id: None, is_read: is_read_, is_pim: is_pim_ }),
    {
        Self { addr, id: None, is_read: is_read_, is_pim: is_pim_ }
    }

    pub fn set_id(&mut self, new_id: u64)
        ensures
            *final(self) == (dram_req { id: Some(new_id), ..*old(self) }),
    {
        self.id = Some(new_id)
    }

    pub fn get_addr(&self) -> (r: u64)
        ensures
            r == self.addr,
    {
        self.addr
    }

    pub fn get_id(&self) -> (r: Option<u64>)
        ensures
            r == self.id,
    {
        self.id
    }

    pub fn is_read(&self) -> (r: bool)
        ensures
            r == self.is_read,
    {
        self.is_read
    }

    pub fn is_pim(&self) -> (r: bool)
        ensures
            r == self.is_pim,
    {
        self.is_pim
    }

    pub fn matches_completion(&self, other: &dram_req) -> (r: bool)
        ensures
            r == same_transaction(*self, *other),
    {
        self.addr == other.addr && self.is_read == other.is_read && self.is_pim == other.is_pim
    }
}

/// A request handed to the portal, tagged with the queue it belongs to.
pub enum portal_req {
    PIM_REQ { req: dram_req },
    HOST_REQ { req: dram_req },
}

/// Which request queue the DRAM side currently drains.
#[derive(Clone, Copy, Debug, PartialEq, Eq, Structural)]
pub enum portal_mode {
    PIM,
    HOST,
}

/// Request and response queues between a processor and the DRAM timing model.
///
/// The request queues are stacks: the DRAM side takes the most recently submitted request first.
pub struct dram_portal {
    pub simcpu_req: Vec<dram_req>,
    pub host_req: Vec<dram_req>,
    pub simcpu_resp: Vec<dram_req>,
    pub host_resp: Vec<dram_req>,
    pub mode: portal_mode,
    pub pimcpu_reqcnt: u64,
    pub host_reqcnt: u64,
}

/// Index of the first response in `s` that completes `req`.
pub open spec fn first_match(s: Seq<dram_req>, req: dram_req) -> int
    recommends
        exists|i: int| 0 <= i < s.len() && same_transaction(req, s[i]),
{
    choose|i: int|
        0 <= i < s.len() && same_transaction(req, #[trigger] s[i]) && forall|j: int|
            0 <= j < i ==> !same_transaction(req, #[trigger] s[j])
}

/// Some response in `s` completes `req`.
pub open spec fn has_match(s: Seq<dram_req>, req: dram_req) -> bool {
    exists|i: int| 0 <= i < s.len() && same_transaction(req, #[trigger] s[i])
}

/// The abstract state of a portal: its four queues, its mode and its counters.
pub struct portal_state {
    pub simcpu_req: Seq<dram_req>,
    pub host_req: Seq<dram_req>,
    pub simcpu_resp: Seq<dram_req>,
    pub host_resp: Seq<dram_req>,
    pub mode: portal_mode,
    pub pimcpu_reqcnt: u64,
    pub host_reqcnt: u64,
}

/// The portal state after submitting `req` to the queue that `pim` selects.
pub open spec fn submitted(v: portal_state, req: dram_req, pim: bool) -> portal_state {
    if pim {
        portal_state { simcpu_req: v.simcpu_req.push(req), ..v }
    } else {
        portal_state { host_req: v.host_req.push(req), ..v }
    }
}

/// The portal state after recording the completion of `req`.
pub open spec fn completed(v: portal_state, req: dram_req) -> portal_state {
    if req.is_pim {
        portal_state { simcpu_resp: v.simcpu_resp.push(req), ..v }
    } else {
        portal_state { host_resp: v.host_resp.push(req), ..v }
    }
}

/// The response queue that holds completions of requests like `req`.
pub open spec fn resp_queue(v: portal_state, req: dram_req) -> Seq<dram_req> {
    if req.is_pim { v.simcpu_resp } else { v.host_resp }
}

/// Taking the completion of `req`: the oldest matching response, if any, and the portal
/// state without it.
pub open spec fn taken(v: portal_state, req: dram_req) -> (Option<dram_req>, portal_state) {
    let q = resp_queue(v, req);
    if has_match(q, req) {
        let i = first_match(q, req);
        (Some(q[i]), if req.is_pim {
            portal_state { simcpu_resp: q.remove(i), ..v }
        } else {
            portal_state { host_resp: q.remove(i), ..v }
        })
    } else {
        (None, v)
    }
}

/// The request queue drained in `mode`.
pub open spec fn req_queue(v: portal_state, mode: portal_mode) -> Seq<dram_req> {
    match mode {
        portal_mode::PIM => v.simcpu_req,
        portal_mode::HOST => v.host_req,
    }
}

/// Taking one request in the current mode: the most recently submitted one.
pub open spec fn popped(v: portal_state) -> (Option<dram_req>, portal_state) {
    let q = req_queue(v, v.mode);
    if q.len() == 0 {
        (None, v)
    } else {
        (Some(q.last()), match v.mode {
            portal_mode::PIM => portal_state { simcpu_req: q.drop_last(), ..v },
            portal_mode::HOST => portal_state { host_req: q.drop_last(), ..v },
        })
    }
}

impl View for dram_portal {
    type V = portal_state;

    open spec fn view(&self) -> portal_state {
        portal_state {
            simcpu_req: self.simcpu_req@,
            host_req: self.host_req@,
            simcpu_resp: self.simcpu_resp@,
            host_resp: self.host_resp@,
            mode: self.mode,
            pimcpu_reqcnt: self.pimcpu_reqcnt,
            host_reqcnt: self.host_reqcnt,
        }
    }
}

impl dram_portal {
    pub fn new() -> (r: Self)
        ensures
            r@ == (portal_state {
                simcpu_req: Seq::empty(),
                host_req: Seq::empty(),
                simcpu_resp: Seq::empty(),
                host_resp: Seq::empty(),
                mode: portal_mode::PIM,
                pimcpu_reqcnt: 0,
                host_reqcnt: 0,
            }),
    {
        Self {
            simcpu_req: Vec::new(),
            host_req: Vec::new(),
            simcpu_resp: Vec::new(),
            host_resp: Vec::new(),
            mode: portal_mode::PIM,
            host_reqcnt: 0,
            pimcpu_reqcnt: 0,
        }
    }

    pub fn get_mode(&self) -> (r: portal_mode)
        ensures
            r == self@.mode,
    {
        self.mode
    }

    pub fn set_mode(&mut self, new_mode: portal_mode)
        ensures
            final(self)@ == (portal_state { mode: new_mode, ..old(self)@ }),
    {
        self.mode = new_mode;
    }

    pub fn get_pimreq_cnt(&self) -> (r: u64)
        ensures
            r == self@.pimcpu_reqcnt,
    {
        self.pimcpu_reqcnt
    }

    pub fn get_hostreq_cnt(&self) -> (r: u64)
        ensures
            r == self@.host_reqcnt,
    {
        self.host_reqcnt
    }

    /// No request of the queue that `mode` selects is waiting.
    pub fn req_drained_for_mode(&self, mode: portal_mode) -> (r: bool)
        ensures
            r == (req_queue(self@, mode).len() == 0),
    {
        match mode {
            portal_mode::PIM => self.simcpu_req.len() == 0,
            portal_mode::HOST => self.host_req.len() == 0,
        }
    }

    pub fn submit(&mut self, req: portal_req)
        ensures
            final(self)@ == (match req {
                portal_req::PIM_REQ { req } => submitted(old(self)@, req, true),
                portal_req::HOST_REQ { req } => submitted(old(self)@, req, false),
            }),
    {
        match req {
            portal_req::PIM_REQ { req } => {
                self.simcpu_req.push(req);
            },
            portal_req::HOST_REQ { req } => {
                self.host_req.push(req);
            },
        }
    }

    /// Takes the most recently submitted request of the queue the current mode selects.
    pub fn get_one_req(&mut self) -> (r: Option<dram_req>)
        ensures
            (r, final(self)@) == popped(old(self)@),
    {
        if let portal_mode::PIM = self.get_mode() {
            self.simcpu_req.pop()
        } else {
            self.host_req.pop()
        }
    }

    /// Records a finished transaction in the response queue of its origin.
    pub fn complete(&mut self, req: dram_req)
        ensures
            final(self)@ == completed(old(self)@, req),
    {
        if req.is_pim() {
            self.simcpu_resp.push(req);
        } else {
            self.host_resp.push(req);
        }
    }

    /// Removes and returns the oldest response that completes `req`, looking in the
    /// response queue of `req`'s origin.
    pub fn take_completed(&mut self, req: &dram_req) -> (r: Option<dram_req>)
        ensures
            (r, final(self)@) == taken(old(self)@, *req),
    {
        let ghost q = if req.is_pim { self.simcpu_resp@ } else { self.host_resp@ };
        let pos = if req.is_pim() {
            find_match(&self.simcpu_resp, req)
        } else {
            find_match(&self.host_resp, req)
        };
        match pos {
            Some(idx) => {
                proof {
                    let f = first_match(q, *req);
                    assert(0 <= f < q.len() && same_transaction(*req, q[f]));
                    if f < idx {
                        assert(!same_transaction(*req, q[f]));
                    }
                    if idx < f {
                        assert(!same_transaction(*req, q[idx as int]));
                    }
                }
                let done = if req.is_pim() {
                    self.simcpu_resp.remove(idx)
                } else {
                    self.host_resp.remove(idx)
                };
                Some(done)
            },
            None => None,
        }
    }
}

/// Position of the first element of `v` that completes `req`.
fn find_match(v: &Vec<dram_req>, req: &dram_req) -> (r: Option<usize>)
    ensures
        match r {
            Some(i) => i < v@.len() && same_transaction(*req, v@[i as int]) && forall|j: int|
                0 <= j < i ==> !same_transaction(*req, #[trigger] v@[j]),
            None => !has_match(v@, *req),
        },
{
    let mut i: usize = 0;
    while i < v.len()
        invariant
            i <= v@.len(),
            forall|j: int| 0 <= j < i ==> !same_transaction(*req, #[trigger] v@[j]),
        decreases v@.len() - i,
    {
        if req.matches_completion(&v[i]) {
            return Some(i);
        }
        i = i + 1;
    }
    None
}

/// A matching response has a first one.
pub proof fn lemma_first_match(s: Seq<dram_req>, req: dram_req)
    requires
        has_match(s, req),
    ensures
        0 <= first_match(s, req) < s.len(),
        same_transaction(req, s[first_match(s, req)]),
        forall|j: int| 0 <= j < first_match(s, req) ==> !same_transaction(req, #[trigger] s[j]),
    decreases s.len(),
{
    let k = choose|i: int| 0 <= i < s.len() && same_transaction(req, #[trigger] s[i]);
    if has_match(s.take(k), req) {
        let t = s.take(k);
        lemma_first_match(t, req);
        let f = first_match(t, req);
        assert(s[f] == t[f]);
        assert forall|j: int| 0 <= j < f implies !same_transaction(req, #[trigger] s[j]) by {
            assert(s[j] == t[j]);
        }
    } else {
        assert forall|j: int| 0 <= j < k implies !same_transaction(req, #[trigger] s[j]) by {
            assert(s[j] == s.take(k)[j]);
        }
    }
}

/// A completed request can be taken back: after completing `req`, taking the completion of
/// `req` succeeds with a response of the same transaction; if there was no earlier
/// completion of it, the one taken is the one just recorded and nothing of it is left.
pub proof fn lemma_complete_then_take(v: portal_state, req: dram_req)
    ensures
        taken(completed(v, req), req).0 is Some,
        same_transaction(req, taken(completed(v, req), req).0->Some_0),
        !has_match(resp_queue(v, req), req) ==> taken(completed(v, req), req) == (Some(req), v),
{
    let v1 = completed(v, req);
    let q0 = resp_queue(v, req);
    let q = resp_queue(v1, req);
    assert(q == q0.push(req));
    assert(q[q.len() - 1] == req);
    assert(same_transaction(req, q[q.len() - 1]));
    assert(has_match(q, req));
    lemma_first_match(q, req);
    if !has_match(q0, req) {
        let i = first_match(q, req);
        if i < q.len() - 1 {
            assert(q[i] == q0[i]);
        }
        assert(i == q.len() - 1);
        assert(q.remove(i) =~= q0);
    }
}

/// Completions are kept per origin: completing a request of the other origin does not change
/// what taking the completion of `req` gives.
pub proof fn lemma_origins_are_separate(v: portal_state, other: dram_req, req: dram_req)
    requires
        other.is_pim != req.is_pim,
    ensures
        taken(completed(v, other), req).0 == taken(v, req).0,
{
    assert(resp_queue(completed(v, other), req) == resp_queue(v, req));
}

/// Request queues are stacks: taking a request in the mode of its origin right after
/// submitting it gives it back and restores the portal.
pub proof fn lemma_submit_then_pop(v: portal_state, req: dram_req, pim: bool)
    requires
        v.mode == (if pim { portal_mode::PIM } else { portal_mode::HOST }),
    ensures
        popped(submitted(v, req, pim)) == (Some(req), v),
{
    if pim {
        assert(v.simcpu_req.push(req).drop_last() =~= v.simcpu_req);
    } else {
        assert(v.host_req.push(req).drop_last() =~= v.host_req);
    }
}

} // verus!
