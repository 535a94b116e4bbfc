use vstd::prelude::*;
use std::collections::HashMap;
use crate::memory::mem_portal::dram_req;
use crate::sim_engine::engine::EngineSchedulingMode;
use crate::sim_engine::request_router::pim_cmd;
use crate::sim_engine::engine_alloc::{PHY_BANK_SZ, PSEUDO_BANK_CACHELINES, PSEUDO_BANKS_PER_LOGICAL_BANK, pseudo_bank_location};
use crate::sim_engine::request_router::{cacheline_payload, decode_pim_cmd, decode_spec, failure_message, validate_pim_cmd_access};
use crate::sim_engine::sim::{SimMode, engine_cfg, other_processor_spec};
use crate::sim_engine::tick_shards::{controller_engine_worker_limit, controller_limit_spec};
use std::path::PathBuf;

verus! {

broadcast use vstd::std_specs::hash::group_hash_axioms;

/// The requests of `c` whose address no engine owns (`owned[i]` is false), in order.
pub open spec fn unowned(c: Seq<dram_req>, owned: Seq<bool>) -> Seq<dram_req>
    decreases c.len(),
{
    if c.len() == 0 || owned.len() < c.len() {
        Seq::empty()
    } else {
        let rest = unowned(c.drop_last(), owned.take(c.len() - 1));
        if owned[c.len() - 1] { rest } else { rest.push(c.last()) }
    }
}

/// The completions a simulator hands back to its host: those of the timing model, those of
/// the engines, and the immediate ones (answered without the timing model), which become
/// visible one cycle after they are made.
pub struct completion_queues {
    pub dsim3_comp_queue: Vec<dram_req>,
    pub engine_comp_queue: Vec<dram_req>,
    pub immediate_complete_next: Vec<dram_req>,
    pub immediate_complete_ready: Vec<dram_req>,
}

/// Whether a completion is waiting, in simulator mode `mode`: an immediate one that is
/// visible, one of the timing model, or, with engines running, one of an engine.
pub open spec fn has_complete_spec(q: completion_queues, mode: SimMode) -> bool {
    q.immediate_complete_ready@.len() > 0 || q.dsim3_comp_queue@.len() > 0 || (mode == SimMode::Pim
        && q.engine_comp_queue@.len() > 0)
}

impl completion_queues {
    /// No completion anywhere.
    pub fn new() -> (r: Self)
        ensures
            r.dsim3_comp_queue@ == Seq::<dram_req>::empty(),
            r.engine_comp_queue@ == Seq::<dram_req>::empty(),
            r.immediate_complete_next@ == Seq::<dram_req>::empty(),
            r.immediate_complete_ready@ == Seq::<dram_req>::empty(),
    {
        completion_queues {
            dsim3_comp_queue: Vec::new(),
            engine_comp_queue: Vec::new(),
            immediate_complete_next: Vec::new(),
            immediate_complete_ready: Vec::new(),
        }
    }

    /// Whether a completion is waiting; see `has_complete_spec`.
    pub fn hasComplete(&self, mode: SimMode) -> (r: bool)
        ensures
            r == has_complete_spec(*self, mode),
    {
        if self.immediate_complete_ready.len() > 0 {
            return true;
        }
        match mode {
            SimMode::Host => self.dsim3_comp_queue.len() > 0,
            SimMode::Pim => self.dsim3_comp_queue.len() > 0 || self.engine_comp_queue.len() > 0,
        }
    }

    /// Takes one completion: the newest visible immediate one, else the newest of the timing
    /// model, else the newest of an engine; none when all three are empty.
    pub fn getComplete(&mut self) -> (r: Option<dram_req>)
        ensures
            ({
                let ready = old(self).immediate_complete_ready@;
                let dsim = old(self).dsim3_comp_queue@;
                let eng = old(self).engine_comp_queue@;
                if ready.len() > 0 {
                    &&& r == Some(ready.last())
                    &&& final(self).immediate_complete_ready@ == ready.drop_last()
                    &&& final(self).dsim3_comp_queue@ == dsim
                    &&& final(self).engine_comp_queue@ == eng
                } else if dsim.len() > 0 {
                    &&& r == Some(dsim.last())
                    &&& final(self).immediate_complete_ready@ == ready
                    &&& final(self).dsim3_comp_queue@ == dsim.drop_last()
                    &&& final(self).engine_comp_queue@ == eng
                } else if eng.len() > 0 {
                    &&& r == Some(eng.last())
                    &&& final(self).immediate_complete_ready@ == ready
                    &&& final(self).dsim3_comp_queue@ == dsim
                    &&& final(self).engine_comp_queue@ == eng.drop_last()
                } else {
                    &&& r is None
                    &&& final(self).immediate_complete_ready@ == ready
                    &&& final(self).dsim3_comp_queue@ == dsim
                    &&& final(self).engine_comp_queue@ == eng
                }
            }),
            final(self).immediate_complete_next@ == old(self).immediate_complete_next@,
    {
        if let Some(req) = self.immediate_complete_ready.pop() {
            return Some(req);
        }
        if let Some(req) = self.dsim3_comp_queue.pop() {
            return Some(req);
        }
        self.engine_comp_queue.pop()
    }

    /// The end of a cycle: the timing model's completions `completed` whose address no
    /// engine owns (per `owned`) join its queue, and the immediate completions made this cycle
    /// become visible.
    pub fn settle_tick(&mut self, completed: Vec<dram_req>, owned: &Vec<bool>)
        requires
            owned.len() == completed.len(),
        ensures
            final(self).dsim3_comp_queue@ == old(self).dsim3_comp_queue@ + unowned(completed@, owned@),
            final(self).engine_comp_queue@ == old(self).engine_comp_queue@,
            final(self).immediate_complete_ready@ == old(self).immediate_complete_ready@
                + old(self).immediate_complete_next@,
            final(self).immediate_complete_next@ == Seq::<dram_req>::empty(),
    {
        let mut i: usize = 0;
        while i < completed.len()
            invariant
                i <= completed.len(),
                owned.len() == completed.len(),
                self.dsim3_comp_queue@ == old(self).dsim3_comp_queue@ + unowned(
                    completed@.take(i as int),
                    owned@.take(i as int),
                ),
                self.engine_comp_queue@ == old(self).engine_comp_queue@,
                self.immediate_complete_ready@ == old(self).immediate_complete_ready@,
                self.immediate_complete_next@ == old(self).immediate_complete_next@,
            decreases completed.len() - i,
        {
            proof {
                let c = completed@.take(i + 1);
                assert(c.drop_last() =~= completed@.take(i as int));
                assert(owned@.take(i + 1).take(i as int) =~= owned@.take(i as int));
                assert(c.last() == completed@[i as int]);
            }
            if !owned[i] {
                self.dsim3_comp_queue.push(completed[i]);
            }
            i = i + 1;
        }
        proof {
            assert(completed@.take(i as int) =~= completed@);
            assert(owned@.take(i as int) =~= owned@);
        }
        self.immediate_complete_ready.append(&mut self.immediate_complete_next);
    }
}

/// A PIM command sent to several engines, waiting for each of them to complete it.
#[derive(Clone, Copy, Debug, PartialEq, Eq, Structural)]
pub struct PendingPimCmd {
    pub request: dram_req,
    pub command: pim_cmd,
    pub remaining: usize,
    pub emit_completion: bool,
}

/// What became of one completion an engine handed back.
#[derive(Clone, Copy, Debug, PartialEq, Eq, Structural)]
pub enum completion_route {
    /// An ordinary completion, passed on to the host.
    Ordinary(dram_req),
    /// One engine more has completed a pending PIM command; others still have to.
    Counted,
    /// The last engine has completed a PIM command: its request, if the host waits for a
    /// completion.
    Retired(Option<dram_req>),
}

/// The PIM commands in flight, by request id.
pub struct pending_pim_cmds {
    cmds: HashMap<u64, PendingPimCmd>,
}

impl View for pending_pim_cmds {
    type V = Map<u64, PendingPimCmd>;

    closed spec fn view(&self) -> Map<u64, PendingPimCmd> {
        self.cmds@
    }
}

/// Every pending command still waits for at least one engine.
pub open spec fn pending_wf(m: Map<u64, PendingPimCmd>) -> bool {
    forall|id: u64| #[trigger] m.contains_key(id) ==> m[id].remaining > 0
}

/// One engine completion `req` (a host PIM command when `host_cmd`): a host command whose id
/// is pending counts down, and retires at zero; anything else is ordinary.
pub open spec fn routed(m: Map<u64, PendingPimCmd>, req: dram_req, host_cmd: bool) -> (Map<u64, PendingPimCmd>, completion_route) {
    if !host_cmd || req.id is None || !m.contains_key(req.id->0) {
        (m, completion_route::Ordinary(req))
    } else {
        let id = req.id->0;
        let p = m[id];
        if p.remaining == 1 {
            (m.remove(id), completion_route::Retired(if p.emit_completion { Some(p.request) } else { None }))
        } else {
            (m.insert(id, PendingPimCmd { remaining: (p.remaining - 1) as usize, ..p }), completion_route::Counted)
        }
    }
}

impl pending_pim_cmds {
    /// No command in flight.
    pub fn new() -> (r: Self)
        ensures
            r@ == Map::<u64, PendingPimCmd>::empty(),
    {
        pending_pim_cmds { cmds: HashMap::new() }
    }

    /// Whether command `req_id` is in flight.
    pub fn contains(&self, req_id: u64) -> (r: bool)
        ensures
            r == self@.contains_key(req_id),
    {
        self.cmds.contains_key(&req_id)
    }

    /// Records command `command` with request `request`, sent to `targets` engines under
    /// request id `req_id`, to be answered to the host when `emit_completion`. An id is used
    /// once.
    pub fn register(&mut self, req_id: u64, request: dram_req, command: pim_cmd, targets: usize, emit_completion: bool)
        requires
            pending_wf(old(self)@),
            !old(self)@.contains_key(req_id),
            targets > 0,
        ensures
            pending_wf(final(self)@),
            final(self)@ == old(self)@.insert(
                req_id,
                PendingPimCmd { request, command, remaining: targets, emit_completion },
            ),
    {
        self.cmds.insert(req_id, PendingPimCmd { request, command, remaining: targets, emit_completion });
    }

    /// Routes one engine completion; see `routed`.
    pub fn route_completion(&mut self, req: dram_req, host_cmd: bool) -> (r: completion_route)
        requires
            pending_wf(old(self)@),
        ensures
            pending_wf(final(self)@),
            (final(self)@, r) == routed(old(self)@, req, host_cmd),
    {
        if !host_cmd {
            return completion_route::Ordinary(req);
        }
        let id = match req.id {
            Some(id) => id,
            None => {
                return completion_route::Ordinary(req);
            },
        };
        let p = match self.cmds.get(&id) {
            Some(p) => *p,
            None => {
                return completion_route::Ordinary(req);
            },
        };
        if p.remaining == 1 {
            self.cmds.remove(&id);
            completion_route::Retired(if p.emit_completion { Some(p.request) } else { None })
        } else {
            self.cmds.insert(id, PendingPimCmd { remaining: p.remaining - 1, ..p });
            completion_route::Counted
        }
    }
}

/// A command sent to `targets` engines retires exactly once, on the completion of its last
/// engine: the first `targets - 1` completions of its request only count down, the last one
/// retires it, answering the host with its request when asked to, and removes it.
pub proof fn lemma_retires_on_last_target(
    m: Map<u64, PendingPimCmd>,
    req_id: u64,
    request: dram_req,
    command: pim_cmd,
    targets: usize,
    emit: bool,
    done: nat,
)
    requires
        !m.contains_key(req_id),
        targets > 0,
        done < targets,
        request.id == Some(req_id),
    ensures
        ({
            let m0 = m.insert(req_id, PendingPimCmd { request, command, remaining: targets, emit_completion: emit });
            let md = counted_down(m0, request, done);
            &&& md == m.insert(req_id, PendingPimCmd { request, command, remaining: (targets - done) as usize, emit_completion: emit })
            &&& routed(md, request, true).1 == (if done + 1 == targets {
                completion_route::Retired(if emit { Some(request) } else { None })
            } else {
                completion_route::Counted
            })
            &&& (done + 1 == targets ==> routed(md, request, true).0 == m)
        }),
    decreases done,
{
    let m0 = m.insert(req_id, PendingPimCmd { request, command, remaining: targets, emit_completion: emit });
    if done > 0 {
        lemma_retires_on_last_target(m, req_id, request, command, targets, emit, (done - 1) as nat);
        let prev = m.insert(req_id, PendingPimCmd { request, command, remaining: (targets - (done - 1)) as usize, emit_completion: emit });
        assert(routed(prev, request, true).0 =~= m.insert(req_id, PendingPimCmd { request, command, remaining: (targets - done) as usize, emit_completion: emit }));
    } else {
        assert(counted_down(m0, request, 0) == m0);
    }
    let md = m.insert(req_id, PendingPimCmd { request, command, remaining: (targets - done) as usize, emit_completion: emit });
    if done + 1 == targets {
        assert(md.remove(req_id) =~= m);
    }
}

/// The pending commands after `k` completions of `req` as a host command.
pub open spec fn counted_down(m: Map<u64, PendingPimCmd>, req: dram_req, k: nat) -> Map<u64, PendingPimCmd>
    decreases k,
{
    if k == 0 { m } else { routed(counted_down(m, req, (k - 1) as nat), req, true).0 }
}


/// The engines a simulator has set up, in the order they were added.
pub struct engine_slots {
    cfgs: Vec<engine_cfg>,
}

/// No pseudo bank has two engines: no engine occurs twice, nor under both processor kinds.
pub open spec fn slots_wf(s: Seq<engine_cfg>) -> bool {
    forall|i: int, j: int|
        0 <= i < s.len() && 0 <= j < s.len() && i != j ==> #[trigger] s[i] != #[trigger] s[j] && s[i]
            != other_processor_spec(s[j])
}

/// The engine of pseudo bank `pb` of bank `ba`, bank group `bg`, rank `ra`, channel `ch`
/// among `s`: the CGO engine if there is one, else the FGO engine if there is one.
pub open spec fn engine_at(s: Seq<engine_cfg>, ch: u64, ra: u64, bg: u64, ba: u64, pb: u64) -> Option<engine_cfg> {
    let c = engine_cfg::CGO { ch, ra, bg, ba, pb };
    let f = engine_cfg::FGO { ch, ra, bg, ba, pb };
    if s.contains(c) {
        Some(c)
    } else if s.contains(f) {
        Some(f)
    } else {
        None
    }
}

impl View for engine_slots {
    type V = Seq<engine_cfg>;

    closed spec fn view(&self) -> Seq<engine_cfg> {
        self.cfgs@
    }
}

impl engine_slots {
    /// No engine.
    pub fn new() -> (r: Self)
        ensures
            r@ == Seq::<engine_cfg>::empty(),
            slots_wf(r@),
    {
        engine_slots { cfgs: Vec::new() }
    }

    /// The number of engines.
    pub fn len(&self) -> (r: usize)
        ensures
            r == self@.len(),
    {
        self.cfgs.len()
    }

    /// Whether engine `cfg` is set up.
    pub fn contains_key(&self, cfg: engine_cfg) -> (r: bool)
        ensures
            r == self@.contains(cfg),
    {
        let mut i: usize = 0;
        while i < self.cfgs.len()
            invariant
                i <= self.cfgs.len(),
                forall|k: int| 0 <= k < i ==> self.cfgs@[k] != cfg,
            decreases self.cfgs.len() - i,
        {
            if self.cfgs[i] == cfg {
                return true;
            }
            i = i + 1;
        }
        false
    }

    /// Whether engine `cfg` can be added: its pseudo bank has no engine of the other kind and
    /// it is not set up yet.
    pub fn can_add(&self, cfg: engine_cfg) -> (r: Result<(), &'static str>)
        ensures
            r == (if self@.contains(other_processor_spec(cfg)) {
                Err::<(), &'static str>("Cannot add engine: pseudo bank is already owned by another processor type")
            } else if self@.contains(cfg) {
                Err::<(), &'static str>("Cannot add engine with given cfg: already existed")
            } else {
                Ok::<(), &'static str>(())
            }),
    {
        if self.contains_key(cfg.other_processor()) {
            return Err("Cannot add engine: pseudo bank is already owned by another processor type");
        }
        if self.contains_key(cfg) {
            return Err("Cannot add engine with given cfg: already existed");
        }
        Ok(())
    }

    /// Sets up engine `cfg`, whose pseudo bank has no engine yet.
    pub fn add_engines(&mut self, cfg: engine_cfg)
        requires
            slots_wf(old(self)@),
            !old(self)@.contains(cfg),
            !old(self)@.contains(other_processor_spec(cfg)),
        ensures
            slots_wf(final(self)@),
            final(self)@ == old(self)@.push(cfg),
    {
        self.cfgs.push(cfg);
        proof {
            let s = self.cfgs@;
            assert forall|i: int, j: int|
                0 <= i < s.len() && 0 <= j < s.len() && i != j implies #[trigger] s[i] != #[trigger] s[j] && s[i]
                    != other_processor_spec(s[j]) by {
                if i == s.len() - 1 {
                    assert(old(self)@[j] == s[j]);
                    assert(other_processor_spec(other_processor_spec(s[j])) == s[j]);
                } else if j == s.len() - 1 {
                    assert(old(self)@[i] == s[i]);
                    assert(other_processor_spec(other_processor_spec(s[i])) == s[i]);
                } else {
                    assert(old(self)@[i] == s[i] && old(self)@[j] == s[j]);
                }
            }
        }
    }

    /// The engine that owns the timing-model location with channel `channel`, rank `rank`,
    /// bank group `bank_group`, bank `bank` and bank-local cache line `bank_local_addr`: the
    /// engine of its pseudo bank (see `engine_at`); none beyond the pseudo banks of one
    /// logical bank.
    pub fn get_engine_cfg(&self, channel: u64, rank: u64, bank_group: u64, bank: u64, bank_local_addr: u64) -> (r: Option<
        engine_cfg,
    >)
        ensures
            r == (if bank_local_addr / PSEUDO_BANK_CACHELINES >= PSEUDO_BANKS_PER_LOGICAL_BANK {
                None
            } else {
                engine_at(self@, channel, rank, bank_group, bank, bank_local_addr / PSEUDO_BANK_CACHELINES)
            }),
    {
        let pb = bank_local_addr / PSEUDO_BANK_CACHELINES;
        if pb >= PSEUDO_BANKS_PER_LOGICAL_BANK {
            return None;
        }
        let cgo_cfg = engine_cfg::CGO { ch: channel, ra: rank, bg: bank_group, ba: bank, pb };
        let fgo_cfg = engine_cfg::FGO { ch: channel, ra: rank, bg: bank_group, ba: bank, pb };
        if self.contains_key(cgo_cfg) {
            Some(cgo_cfg)
        } else if self.contains_key(fgo_cfg) {
            Some(fgo_cfg)
        } else {
            None
        }
    }
}

/// A pseudo bank has at most one engine: in well-formed slots, an engine and the engine of the
/// other processor kind at the same coordinates are never both set up, so an address finds its
/// engine whichever kind it has.
pub proof fn lemma_one_engine_per_pseudo_bank(s: Seq<engine_cfg>, c: engine_cfg)
    requires
        slots_wf(s),
        s.contains(c),
    ensures
        !s.contains(other_processor_spec(c)),
        ({
            let (ch, ra, bg, ba, pb) = match c {
                engine_cfg::CGO { ch, ra, bg, ba, pb } => (ch, ra, bg, ba, pb),
                engine_cfg::FGO { ch, ra, bg, ba, pb } => (ch, ra, bg, ba, pb),
            };
            engine_at(s, ch, ra, bg, ba, pb) == Some(c)
        }),
{
    let i = choose|i: int| 0 <= i < s.len() && s[i] == c;
    if s.contains(other_processor_spec(c)) {
        let j = choose|j: int| 0 <= j < s.len() && s[j] == other_processor_spec(c);
        assert(i != j);
        assert(other_processor_spec(other_processor_spec(c)) == c);
        assert(s[j] != other_processor_spec(s[i]));
    }
}

/// Whether `addr` lies in the controller's range of `controller_size` bytes from
/// `controller_base`.
pub fn contains_addr(controller_base: u64, controller_size: u64, addr: u64) -> (r: bool)
    ensures
        r == (controller_base <= addr && addr - controller_base < controller_size),
{
    addr >= controller_base && addr - controller_base < controller_size
}

/// The progress answer of a PIM query: the number of engines in the high word and the number
/// that reached their final barrier in the low word.
pub fn pim_progress_word(total: u32, finished: u32) -> (r: u64)
    ensures
        r == total * 0x1_0000_0000 + finished,
{
    let r = ((total as u64) << 32u64) | (finished as u64);
    assert(r == total * 0x1_0000_0000 + finished) by (bit_vector)
        requires
            r == ((total as u64) << 32u64) | (finished as u64),
    ;
    r
}

/// The bytes of one burst: the bus width in bytes times the burst length, each taken as zero
/// when negative, saturating at `u32::MAX`.
pub fn burst_size(bus_bits: i32, burst_length: i32) -> (r: u32)
    ensures
        ({
            let bytes: int = if bus_bits < 0 { 0 } else { bus_bits / 8 };
            let len: int = if burst_length < 0 { 0 } else { burst_length as int };
            r == (if bytes * len > u32::MAX { u32::MAX as int } else { bytes * len })
        }),
{
    let bus_bytes: u32 = if bus_bits < 0 { 0 } else { (bus_bits as u32) / 8 };
    let len: u32 = if burst_length < 0 { 0 } else { burst_length as u32 };
    assert((bus_bytes as u64) * (len as u64) <= u64::MAX) by (nonlinear_arith)
        requires
            bus_bytes <= u32::MAX,
            len <= u32::MAX,
    ;
    let wide: u64 = (bus_bytes as u64) * (len as u64);
    assert(wide == bus_bytes * len) by (nonlinear_arith)
        requires
            wide == (bus_bytes as u64) * (len as u64),
            bus_bytes <= u32::MAX,
            len <= u32::MAX,
    ;
    if wide > u32::MAX as u64 { u32::MAX } else { wide as u32 }
}

/// The queue size of the timing model, taken as zero when negative.
pub fn queue_size(reported: i32) -> (r: u32)
    ensures
        r == (if reported < 0 { 0 } else { reported as int }),
{
    if reported < 0 { 0 } else { reported as u32 }
}

/// The checks on a controller's configuration, in order: its range must fit in 64 bits, the
/// timing model must be at least as large and have one channel, and a PIM region must be a
/// whole number of physical banks within the range.
pub open spec fn config_check(
    controller_base: u64,
    controller_size: u64,
    pim_size: u64,
    modeled_capacity: u64,
    channels: u64,
) -> Result<(), &'static str> {
    if controller_base + controller_size > u64::MAX {
        Err("controller address range overflow")
    } else if modeled_capacity < controller_size {
        Err("DRAMSim3 capacity is smaller than controller range")
    } else if channels != 1 {
        Err("each gem5 PESim controller must use a one-channel DRAMSim3 configuration")
    } else if pim_size > 0 && pim_size % PHY_BANK_SZ != 0 {
        Err("PIM region must be 64 MiB engine aligned")
    } else if pim_size > 0 && pim_size > controller_size {
        Err("PIM region cannot exceed the controller range")
    } else {
        Ok(())
    }
}

/// Checks a controller's configuration; see `config_check`.
pub fn validate_sim_config(
    controller_base: u64,
    controller_size: u64,
    pim_size: u64,
    modeled_capacity: u64,
    channels: u64,
) -> (r: Result<(), &'static str>)
    ensures
        r == config_check(controller_base, controller_size, pim_size, modeled_capacity, channels),
{
    if controller_base > u64::MAX - controller_size {
        return Err("controller address range overflow");
    }
    if modeled_capacity < controller_size {
        return Err("DRAMSim3 capacity is smaller than controller range");
    }
    if channels != 1 {
        return Err("each gem5 PESim controller must use a one-channel DRAMSim3 configuration");
    }
    if pim_size > 0 && pim_size % PHY_BANK_SZ != 0 {
        return Err("PIM region must be 64 MiB engine aligned");
    }
    if pim_size > 0 && pim_size > controller_size {
        return Err("PIM region cannot exceed the controller range");
    }
    Ok(())
}

/// The guest address of each physical bank of the PIM region, a whole number of physical
/// banks: one every `PHY_BANK_SZ` bytes from the controller base, covering `pim_size` bytes.
pub fn pim_prefix_addrs(controller_base: u64, pim_size: u64) -> (r: Vec<u64>)
    requires
        controller_base + pim_size <= u64::MAX,
        pim_size % PHY_BANK_SZ == 0,
    ensures
        r@.len() == pim_size / PHY_BANK_SZ,
        forall|k: int| 0 <= k < r@.len() ==> #[trigger] r@[k] == controller_base + k * PHY_BANK_SZ,
{
    let mut r: Vec<u64> = Vec::new();
    let mut offset: u64 = 0;
    let ghost m: int = (pim_size / PHY_BANK_SZ) as int;
    assert(pim_size == m * PHY_BANK_SZ) by (nonlinear_arith)
        requires
            pim_size % PHY_BANK_SZ == 0,
            m == pim_size / PHY_BANK_SZ,
            PHY_BANK_SZ > 0,
    ;
    while offset < pim_size
        invariant
            controller_base + pim_size <= u64::MAX,
            pim_size == m * PHY_BANK_SZ,
            offset == r@.len() * PHY_BANK_SZ,
            offset <= pim_size,
            forall|k: int| 0 <= k < r@.len() ==> #[trigger] r@[k] == controller_base + k * PHY_BANK_SZ,
        decreases pim_size - offset,
    {
        let ghost n: int = r@.len() as int;
        assert(offset + PHY_BANK_SZ <= pim_size) by (nonlinear_arith)
            requires
                offset == n * PHY_BANK_SZ,
                pim_size == m * PHY_BANK_SZ,
                offset < pim_size,
                PHY_BANK_SZ > 0,
        ;
        r.push(controller_base + offset);
        offset = offset + PHY_BANK_SZ;
    }
    let ghost n: int = r@.len() as int;
    assert(n == m) by (nonlinear_arith)
        requires
            n * PHY_BANK_SZ == m * PHY_BANK_SZ,
            PHY_BANK_SZ > 0,
    ;
    r
}

/// Two locations name the same pseudo bank.
pub open spec fn same_location(a: pseudo_bank_location, b: pseudo_bank_location) -> bool {
    a.ch == b.ch && a.ra == b.ra && a.bg == b.bg && a.ba == b.ba && a.pb == b.pb
}

/// The pseudo banks of the decoded PIM-region addresses `decoded` (channel, rank, bank group,
/// bank, bank-local cache line), in order, or the first fault: a pseudo bank outside one
/// logical bank, or one met twice.
pub open spec fn prefix_locations(decoded: Seq<(u64, u64, u64, u64, u64)>) -> Result<Seq<pseudo_bank_location>, &'static str>
    decreases decoded.len(),
{
    if decoded.len() == 0 {
        Ok(Seq::empty())
    } else {
        match prefix_locations(decoded.drop_last()) {
            Err(e) => Err(e),
            Ok(locs) => {
                let (ch, ra, bg, ba, local) = decoded.last();
                let pb = local / PSEUDO_BANK_CACHELINES;
                let loc = pseudo_bank_location { ch, ra, bg, ba, pb };
                if pb >= PSEUDO_BANKS_PER_LOGICAL_BANK {
                    Err("decoded pseudo-bank index is outside one logical bank")
                } else if exists|i: int| 0 <= i < locs.len() && #[trigger] same_location(locs[i], loc) {
                    Err("PIM prefix mapped two addresses to the same engine")
                } else {
                    Ok(locs.push(loc))
                }
            },
        }
    }
}

proof fn lemma_prefix_fault_persists(d: Seq<(u64, u64, u64, u64, u64)>, i: int)
    requires
        0 <= i <= d.len(),
        prefix_locations(d.take(i)) is Err,
    ensures
        prefix_locations(d) == prefix_locations(d.take(i)),
    decreases d.len() - i,
{
    if i < d.len() {
        assert(d.take(i + 1).drop_last() =~= d.take(i));
        lemma_prefix_fault_persists(d, i + 1);
    } else {
        assert(d.take(i) =~= d);
    }
}

/// Whether `locs` names the pseudo bank of `loc`.
fn has_location(locs: &Vec<pseudo_bank_location>, loc: pseudo_bank_location) -> (r: bool)
    ensures
        r == exists|i: int| 0 <= i < locs@.len() && #[trigger] same_location(locs@[i], loc),
{
    let mut j: usize = 0;
    while j < locs.len()
        invariant
            j <= locs.len(),
            forall|k: int| 0 <= k < j ==> !same_location(#[trigger] locs@[k], loc),
        decreases locs.len() - j,
    {
        let e = locs[j];
        if e.ch == loc.ch && e.ra == loc.ra && e.bg == loc.bg && e.ba == loc.ba && e.pb == loc.pb {
            assert(same_location(locs@[j as int], loc));
            return true;
        }
        j = j + 1;
    }
    false
}

/// The pseudo banks of the PIM region; see `prefix_locations`.
pub fn pim_prefix_locations(decoded: &Vec<(u64, u64, u64, u64, u64)>) -> (r: Result<Vec<pseudo_bank_location>, &'static str>)
    ensures
        match (r, prefix_locations(decoded@)) {
            (Ok(v), Ok(s)) => v@ == s,
            (Err(e), Err(e2)) => e == e2,
            _ => false,
        },
{
    let mut locs: Vec<pseudo_bank_location> = Vec::new();
    let mut i: usize = 0;
    while i < decoded.len()
        invariant
            i <= decoded.len(),
            prefix_locations(decoded@.take(i as int)) == Ok::<Seq<pseudo_bank_location>, &'static str>(locs@),
        decreases decoded.len() - i,
    {
        let (ch, ra, bg, ba, local) = decoded[i];
        let pb = local / PSEUDO_BANK_CACHELINES;
        assert(decoded@.take(i + 1).drop_last() =~= decoded@.take(i as int));
        assert(decoded@.take(i + 1).last() == decoded@[i as int]);
        if pb >= PSEUDO_BANKS_PER_LOGICAL_BANK {
            proof {
                lemma_prefix_fault_persists(decoded@, i + 1);
            }
            return Err("decoded pseudo-bank index is outside one logical bank");
        }
        let loc = pseudo_bank_location { ch, ra, bg, ba, pb };
        if has_location(&locs, loc) {
            proof {
                lemma_prefix_fault_persists(decoded@, i + 1);
            }
            return Err("PIM prefix mapped two addresses to the same engine");
        }
        locs.push(loc);
        i = i + 1;
    }
    assert(decoded@.take(i as int) =~= decoded@);
    Ok(locs)
}

/// The size in bytes of a PIM command's payload.
pub const PIM_CMD_PAYLOAD_SIZE_BYTES: u32 = 8;

/// Decodes a PIM command written to (or read from, `!is_write`) the command page at `offset`
/// with the `payload_sz_bytes` bytes of `payload`: only a PIM controller takes commands, only
/// with a payload of `PIM_CMD_PAYLOAD_SIZE_BYTES`, and only a command that decodes and is
/// accessed in its direction.
pub fn decode_pim_cmd_request(
    sim_mode: SimMode,
    offset: u64,
    payload: &cacheline_payload,
    payload_sz_bytes: u32,
    is_write: bool,
) -> (r: Result<pim_cmd, &'static str>)
    ensures
        sim_mode != SimMode::Pim ==> r == Err::<pim_cmd, &'static str>("PIM command sent to a non-PIM controller"),
        sim_mode == SimMode::Pim && payload_sz_bytes != PIM_CMD_PAYLOAD_SIZE_BYTES ==> r == Err::<pim_cmd, &'static str>(
            "PIM command payload must be eight bytes",
        ),
        sim_mode == SimMode::Pim && payload_sz_bytes == PIM_CMD_PAYLOAD_SIZE_BYTES ==> match decode_spec(offset, payload@[0]) {
            Err(f) => r is Err && r->Err_0@ == failure_message(f),
            Ok(c) => if !(c is CgoQuery) == is_write {
                r == Ok::<pim_cmd, &'static str>(c)
            } else {
                r is Err && r->Err_0@ == "PIM command access direction does not match command opcode"@
            },
        },
{
    match sim_mode {
        SimMode::Pim => {},
        SimMode::Host => {
            return Err("PIM command sent to a non-PIM controller");
        },
    }
    if payload_sz_bytes != PIM_CMD_PAYLOAD_SIZE_BYTES {
        return Err("PIM command payload must be eight bytes");
    }
    let cmd = match decode_pim_cmd(offset, payload) {
        Ok(c) => c,
        Err(e) => {
            return Err(e);
        },
    };
    match validate_pim_cmd_access(cmd, is_write) {
        Ok(()) => Ok(cmd),
        Err(e) => Err(e),
    }
}

/// The scheduling modes given to newly allocated CGO and FGO engines.
#[derive(Clone, Copy, Debug, PartialEq, Eq, Structural)]
pub struct alloc_modes {
    pub cgo: EngineSchedulingMode,
    pub fgo: EngineSchedulingMode,
}

impl alloc_modes {
    /// Sequential execution for both kinds in the sequential scenario, otherwise sharing with
    /// the host.
    pub fn new(sequential: bool) -> (r: Self)
        ensures
            r == (if sequential {
                alloc_modes { cgo: EngineSchedulingMode::Sequential, fgo: EngineSchedulingMode::Sequential }
            } else {
                alloc_modes { cgo: EngineSchedulingMode::Host_CGO_share, fgo: EngineSchedulingMode::Host_FGO_share }
            }),
    {
        if sequential {
            alloc_modes { cgo: EngineSchedulingMode::Sequential, fgo: EngineSchedulingMode::Sequential }
        } else {
            alloc_modes { cgo: EngineSchedulingMode::Host_CGO_share, fgo: EngineSchedulingMode::Host_FGO_share }
        }
    }

    /// Sets the mode of newly allocated CGO engines; only a mode a CGO engine runs under is
    /// taken.
    pub fn set_cgo_alloc_scheduling_mode(&mut self, scheduling_mode: EngineSchedulingMode) -> (r: Result<(), &'static str>)
        ensures
            (scheduling_mode == EngineSchedulingMode::CGO_only || scheduling_mode == EngineSchedulingMode::Host_CGO_share
                || scheduling_mode == EngineSchedulingMode::Sequential) ==> r is Ok && *final(self) == (alloc_modes {
                cgo: scheduling_mode,
                ..*old(self)
            }),
            !(scheduling_mode == EngineSchedulingMode::CGO_only || scheduling_mode == EngineSchedulingMode::Host_CGO_share
                || scheduling_mode == EngineSchedulingMode::Sequential) ==> r == Err::<(), &'static str>(
                "CGO allocation scheduling mode must target CGO engines",
            ) && *final(self) == *old(self),
    {
        match scheduling_mode {
            EngineSchedulingMode::CGO_only | EngineSchedulingMode::Host_CGO_share | EngineSchedulingMode::Sequential => {
                self.cgo = scheduling_mode;
                Ok(())
            },
            _ => Err("CGO allocation scheduling mode must target CGO engines"),
        }
    }
}


/// A file-system path, carried through unchanged.
#[verifier::external_type_specification]
#[verifier::external_body]
pub struct ExPathBuf(PathBuf);

/// How a controller is set up: the timing model's configuration file and output directory,
/// the controller's id, the base and size of its address range, and the size of its PIM
/// region at the start of that range (none when zero).
pub struct SimConfig {
    pub config_file: PathBuf,
    pub output_dir: PathBuf,
    pub controller_id: u32,
    pub controller_base: u64,
    pub controller_size: u64,
    pub pim_size: u64,
}

impl SimConfig {
    /// Checks this configuration against the timing model's capacity and channel count; see
    /// `config_check`.
    pub fn validate(&self, modeled_capacity: u64, channels: u64) -> (r: Result<(), &'static str>)
        ensures
            r == config_check(self.controller_base, self.controller_size, self.pim_size, modeled_capacity, channels),
    {
        validate_sim_config(self.controller_base, self.controller_size, self.pim_size, modeled_capacity, channels)
    }

    /// The simulator mode: PIM engines run when there is a PIM region.
    pub fn sim_mode(&self) -> (r: SimMode)
        ensures
            r == (if self.pim_size > 0 { SimMode::Pim } else { SimMode::Host }),
    {
        if self.pim_size > 0 { SimMode::Pim } else { SimMode::Host }
    }

    /// The engine worker limit of this controller on a machine with `logical_parallelism`
    /// hardware threads; see `controller_limit_spec`.
    pub fn engine_worker_limit(&self, logical_parallelism: usize) -> (r: usize)
        ensures
            r == controller_limit_spec(logical_parallelism, self.controller_id, self.pim_size, self.controller_size),
    {
        controller_engine_worker_limit(logical_parallelism, self.controller_id, self.pim_size, self.controller_size)
    }

    /// Whether `addr` lies in this controller's range.
    pub fn contains_addr(&self, addr: u64) -> (r: bool)
        ensures
            r == (self.controller_base <= addr && addr - self.controller_base < self.controller_size),
    {
        contains_addr(self.controller_base, self.controller_size, addr)
    }
}

} // verus!
