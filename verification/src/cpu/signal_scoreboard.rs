use vstd::prelude::*;
use crate::cpu::AGU::{AGU_stop_FSM, agu_stop_action, agu_stop_next};
use crate::cpu::EX::{
    EX_stop_FSM, ExceptionDrain_FSM, RAW_resolution_FSM, RAW_resolution_FSM_state, drain_action,
    drain_next, drain_ops, ex_stop_action, ex_stop_next, ex_stop_ops, raw_action, raw_ops,
};
use crate::cpu::ID::{ID_jump_FSG_states, ID_jump_FSM, jump_action, jump_ops};
use crate::cpu::MEM::{
    MEM_stop_FSM, MEM_stop_FSM_states, mem_stop_action, mem_stop_next, mem_stop_ops, port_view,
};
use crate::cpu::pimcpu_types::{CPU_stages, stage_rank};
use crate::memory::mem_portal::{dram_portal, dram_req, portal_state};

verus! {

/// Why a stage asks the pipeline controller for a non-normal action.
#[derive(Debug, Copy, Clone, PartialEq, Eq, Structural)]
pub enum signal_reason {
    jump_resolution,
    RAW_resolution,
    MEM_block { addr: u64, is_read: bool },
    external_pause,
    exception,
    prog_end,
    no_reason,
}

/// What a stage does this cycle, ordered by strength: `Normal < Flush < Stall < END`.
#[derive(Debug, Clone, Copy, PartialEq, Eq, PartialOrd, Ord, Structural)]
pub enum pipeline_action {
    Normal,
    Flush,
    Stall,
    END,
}

/// Strength of an action in arbitration.
pub open spec fn action_rank(a: pipeline_action) -> u8 {
    match a {
        pipeline_action::Normal => 1,
        pipeline_action::Flush => 2,
        pipeline_action::Stall => 3,
        pipeline_action::END => 4,
    }
}

impl pipeline_action {
    pub fn get_rank(&self) -> (r: u8)
        ensures
            r == action_rank(*self),
    {
        match self {
            pipeline_action::Normal => 1,
            pipeline_action::Flush => 2,
            pipeline_action::Stall => 3,
            pipeline_action::END => 4,
        }
    }
}

/// Arbitration priority of a signal reason; a higher priority wins.
pub open spec fn priority_of(r: signal_reason) -> u8 {
    match r {
        signal_reason::no_reason => 0,
        signal_reason::jump_resolution => 10,
        signal_reason::RAW_resolution => 20,
        signal_reason::external_pause => 30,
        signal_reason::MEM_block { .. } => 40,
        signal_reason::exception => 50,
        signal_reason::prog_end => 50,
    }
}

pub fn signal_priority(sig_reason: signal_reason) -> (r: u8)
    ensures
        r == priority_of(sig_reason),
{
    match sig_reason {
        signal_reason::no_reason => 0,
        signal_reason::jump_resolution => 10,
        signal_reason::RAW_resolution => 20,
        signal_reason::external_pause => 30,
        signal_reason::MEM_block { .. } => 40,
        signal_reason::exception => 50,
        signal_reason::prog_end => 50,
    }
}

/// The update rule of the latch between a producer stage and its consumer stage:
/// a stalled consumer holds the latch, two normal stages advance it, and otherwise
/// the latch is flushed.
pub open spec fn latch_action_spec(producer: pipeline_action, consumer: pipeline_action) -> pipeline_action {
    match (producer, consumer) {
        (_, pipeline_action::Stall) => pipeline_action::Stall,
        (pipeline_action::Normal, pipeline_action::Normal) => pipeline_action::Normal,
        _ => pipeline_action::Flush,
    }
}

/// How a pipeline latch is updated given the actions of the stage that writes it and the
/// stage that reads it.
pub fn latch_action(producer: pipeline_action, consumer: pipeline_action) -> (r: pipeline_action)
    ensures
        r == latch_action_spec(producer, consumer),
{
    match (producer, consumer) {
        (_, pipeline_action::Stall) => pipeline_action::Stall,
        (pipeline_action::Normal, pipeline_action::Normal) => pipeline_action::Normal,
        (pipeline_action::Stall, pipeline_action::Normal) => pipeline_action::Flush,
        (_, pipeline_action::Flush) | (_, pipeline_action::END) => pipeline_action::Flush,
        (pipeline_action::Flush, _) | (pipeline_action::END, _) => pipeline_action::Flush,
    }
}

/// A latch moves only when both of its stages run normally, never becomes `END`, and a
/// stalled consumer always holds it.
pub proof fn lemma_latch_action(producer: pipeline_action, consumer: pipeline_action)
    ensures
        (latch_action_spec(producer, consumer) == pipeline_action::Normal) <==> (producer
            == pipeline_action::Normal && consumer == pipeline_action::Normal),
        latch_action_spec(producer, consumer) != pipeline_action::END,
        consumer == pipeline_action::Stall ==> latch_action_spec(producer, consumer)
            == pipeline_action::Stall,
{
}

/// A set of pipeline stages.
#[derive(Clone, Copy, Debug, PartialEq, Eq)]
pub struct stage_set {
    pub members: [bool; 6],
}

/// Membership of a stage in a stage set.
pub open spec fn set_has(s: stage_set, st: CPU_stages) -> bool {
    s.members@[stage_rank(st) - 1]
}

/// The set {IF}.
pub open spec fn set_IF() -> stage_set {
    stage_set { members: [true, false, false, false, false, false] }
}

/// The set {IF, ID}.
pub open spec fn set_IF_ID() -> stage_set {
    stage_set { members: [true, true, false, false, false, false] }
}

/// The set {IF, ID, EX}.
pub open spec fn set_IF_ID_EX() -> stage_set {
    stage_set { members: [true, true, true, false, false, false] }
}

/// The set {IF, ID, EX, AGU}.
pub open spec fn set_IF_ID_EX_AGU() -> stage_set {
    stage_set { members: [true, true, true, true, false, false] }
}

impl stage_set {
    pub fn only_IF() -> (r: Self)
        ensures
            r == set_IF(),
    {
        Self { members: [true, false, false, false, false, false] }
    }

    pub fn IF_ID() -> (r: Self)
        ensures
            r == set_IF_ID(),
    {
        Self { members: [true, true, false, false, false, false] }
    }

    pub fn IF_ID_EX() -> (r: Self)
        ensures
            r == set_IF_ID_EX(),
    {
        Self { members: [true, true, true, false, false, false] }
    }

    pub fn IF_ID_EX_AGU() -> (r: Self)
        ensures
            r == set_IF_ID_EX_AGU(),
    {
        Self { members: [true, true, true, true, false, false] }
    }

    /// The set holding exactly the given stages.
    pub fn from_stages(stages: &[CPU_stages]) -> (r: Self)
        ensures
            forall|st: CPU_stages| #[trigger] set_has(r, st) == stages@.contains(st),
    {
        let mut members = [false; 6];
        let mut i: usize = 0;
        while i < stages.len()
            invariant
                i <= stages@.len(),
                forall|st: CPU_stages| #[trigger] members@[stage_rank(st) - 1] == stages@.subrange(0, i as int).contains(st),
            decreases stages@.len() - i,
        {
            let st = stages[i];
            let k = (st.get_rank() - 1) as usize;
            members[k] = true;
            proof {
                assert forall|x: CPU_stages| #[trigger] members@[stage_rank(x) - 1] == stages@.subrange(0, i as int + 1).contains(x) by {
                    let s1 = stages@.subrange(0, i as int + 1);
                    let s0 = stages@.subrange(0, i as int);
                    assert(s1 =~= s0.push(st));
                    if x == st {
                        assert(s1[i as int] == x);
                    } else {
                        assert(stage_rank(x) != stage_rank(st));
                        if s1.contains(x) {
                            let j = choose|j: int| 0 <= j < s1.len() && s1[j] == x;
                            assert(s0[j] == x);
                        }
                        if s0.contains(x) {
                            let j = choose|j: int| 0 <= j < s0.len() && s0[j] == x;
                            assert(s1[j] == x);
                        }
                    }
                }
            }
            i = i + 1;
        }
        assert(stages@.subrange(0, stages@.len() as int) =~= stages@);
        Self { members }
    }

    pub fn contains(&self, st: CPU_stages) -> (r: bool)
        ensures
            r == set_has(*self, st),
    {
        self.members[(st.get_rank() - 1) as usize]
    }
}

/// A stage's request to the pipeline controller: a reason, the issuing stage and,
/// optionally, the only stages the resulting actions may touch.
#[derive(Clone, Copy, Debug, PartialEq, Eq)]
pub struct signal_req {
    pub sig_reason: signal_reason,
    pub issuer_stage: CPU_stages,
    pub target_stages: Option<stage_set>,
}

/// The request a stage makes.
pub open spec fn sig(reason: signal_reason, issuer: CPU_stages, target: Option<stage_set>) -> signal_req {
    signal_req { sig_reason: reason, issuer_stage: issuer, target_stages: target }
}

impl signal_req {
    pub fn new(reason: signal_reason, issuer: CPU_stages, target: Option<stage_set>) -> (r: Self)
        ensures
            r == sig(reason, issuer, target),
    {
        Self { sig_reason: reason, issuer_stage: issuer, target_stages: target }
    }

    pub fn get_reason(&self) -> (r: signal_reason)
        ensures
            r == self.sig_reason,
    {
        self.sig_reason
    }

    pub fn get_issuer_stage(&self) -> (r: CPU_stages)
        ensures
            r == self.issuer_stage,
    {
        self.issuer_stage
    }
}

impl signal_reason {
    /// The reason under which the memory-stall controller is registered; any `MEM_block`
    /// has this kind, whatever its address.
    pub fn mem_block_kind() -> (r: signal_reason)
        ensures
            r == (signal_reason::MEM_block { addr: 0, is_read: false }),
    {
        signal_reason::MEM_block { addr: 0, is_read: false }
    }

    /// The kind of a reason: its variant, whatever the data it carries.
    pub fn kind(&self) -> (r: u8)
        ensures
            r == reason_kind(*self),
    {
        match self {
            signal_reason::jump_resolution => 0,
            signal_reason::RAW_resolution => 1,
            signal_reason::MEM_block { .. } => 2,
            signal_reason::external_pause => 3,
            signal_reason::exception => 4,
            signal_reason::prog_end => 5,
            signal_reason::no_reason => 6,
        }
    }
}

/// The kind of a reason, numbered in declaration order.
pub open spec fn reason_kind(r: signal_reason) -> u8 {
    match r {
        signal_reason::jump_resolution => 0,
        signal_reason::RAW_resolution => 1,
        signal_reason::MEM_block { .. } => 2,
        signal_reason::external_pause => 3,
        signal_reason::exception => 4,
        signal_reason::prog_end => 5,
        signal_reason::no_reason => 6,
    }
}

/// The actions a controller imposes on some stages (indexed by stage rank minus one);
/// `None` leaves a stage to the other signals.
#[derive(Clone, Copy, Debug, PartialEq, Eq)]
pub struct stage_ops {
    pub ops: [Option<pipeline_action>; 6],
}

/// The stage actions, IF first.
pub open spec fn ops6(
    a: Option<pipeline_action>,
    b: Option<pipeline_action>,
    c: Option<pipeline_action>,
    d: Option<pipeline_action>,
    e: Option<pipeline_action>,
    f: Option<pipeline_action>,
) -> stage_ops {
    stage_ops { ops: [a, b, c, d, e, f] }
}

/// The action `o` imposes on stage `st`, if any.
pub open spec fn ops_get(o: stage_ops, st: CPU_stages) -> Option<pipeline_action> {
    o.ops@[stage_rank(st) - 1]
}

impl stage_ops {
    pub fn of(
        a: Option<pipeline_action>,
        b: Option<pipeline_action>,
        c: Option<pipeline_action>,
        d: Option<pipeline_action>,
        e: Option<pipeline_action>,
        f: Option<pipeline_action>,
    ) -> (r: Self)
        ensures
            r == ops6(a, b, c, d, e, f),
    {
        Self { ops: [a, b, c, d, e, f] }
    }

    pub fn get(&self, st: CPU_stages) -> (r: Option<pipeline_action>)
        ensures
            r == ops_get(*self, st),
    {
        self.ops[(st.get_rank() - 1) as usize]
    }
}

/// The controller's decision for one cycle: an action for every stage, IF first.
#[derive(Clone, Copy, Debug, PartialEq, Eq)]
pub struct pipeline_decision {
    pub acts: [pipeline_action; 6],
}

/// The action decided for stage `st`.
pub open spec fn decision_get(d: pipeline_decision, st: CPU_stages) -> pipeline_action {
    d.acts@[stage_rank(st) - 1]
}

impl pipeline_decision {
    pub fn get(&self, st: CPU_stages) -> (r: pipeline_action)
        ensures
            r == decision_get(*self, st),
    {
        self.acts[(st.get_rank() - 1) as usize]
    }
}

/// A controller that resolves one kind of signal over several cycles.
pub trait SigFSM {
    /// The reason this controller resolves.
    fn reason(&self) -> signal_reason;

    /// The arbitration class of the controller; `Normal` once it has finished.
    fn action(&self) -> pipeline_action;

    /// The stage actions the controller imposes this cycle.
    fn get_ops(&self) -> stage_ops;

    /// Moves the controller on after it won arbitration for `sig_reason`.
    fn advance_winner(&mut self, sig_reason: signal_reason) -> bool;

    /// Moves the controller on after another signal won arbitration.
    fn handle_blocked(&mut self);
}

/// Holds the pipeline behind IF while an external pause is requested.
#[derive(Clone, Copy, Debug, PartialEq, Eq, Structural)]
pub struct ExternalPause_FSM;

/// The stages an external pause holds: everything but IF.
pub open spec fn pause_ops() -> stage_ops {
    let s = Some(pipeline_action::Stall);
    ops6(None, s, s, s, s, s)
}

impl ExternalPause_FSM {
    pub fn new() -> (r: Self) {
        ExternalPause_FSM
    }
}

impl SigFSM for ExternalPause_FSM {
    fn reason(&self) -> (r: signal_reason)
        ensures
            r == signal_reason::external_pause,
    {
        signal_reason::external_pause
    }

    fn action(&self) -> (r: pipeline_action)
        ensures
            r == pipeline_action::Stall,
    {
        pipeline_action::Stall
    }

    fn get_ops(&self) -> (r: stage_ops)
        ensures
            r == pause_ops(),
    {
        let s = Some(pipeline_action::Stall);
        stage_ops::of(None, s, s, s, s, s)
    }

    fn advance_winner(&mut self, sig_reason: signal_reason) -> (r: bool)
        ensures
            r,
    {
        true
    }

    fn handle_blocked(&mut self) {
    }
}

/// A controller instance of one of the kinds the pipeline resolves. The memory-stall
/// controller is held without its DRAM port, which the resolver keeps.
#[derive(Clone, Copy, Debug, PartialEq, Eq, Structural)]
pub enum fsm_slot {
    Jump(ID_jump_FSM),
    ProgEnd(EX_stop_FSM),
    Exception(ExceptionDrain_FSM),
    AddrException(AGU_stop_FSM),
    MemBlock { state: MEM_stop_FSM_states, req: Option<dram_req> },
    Pause(ExternalPause_FSM),
    Hazard(RAW_resolution_FSM),
}

/// The reason a controller resolves.
pub open spec fn slot_reason(s: fsm_slot) -> signal_reason {
    match s {
        fsm_slot::Jump(_) => signal_reason::jump_resolution,
        fsm_slot::ProgEnd(_) => signal_reason::prog_end,
        fsm_slot::Exception(_) => signal_reason::exception,
        fsm_slot::AddrException(_) => signal_reason::exception,
        fsm_slot::MemBlock { .. } => signal_reason::MEM_block { addr: 0, is_read: false },
        fsm_slot::Pause(_) => signal_reason::external_pause,
        fsm_slot::Hazard(_) => signal_reason::RAW_resolution,
    }
}

/// The arbitration class of a controller; `Normal` once it has finished.
pub open spec fn slot_action(s: fsm_slot) -> pipeline_action {
    match s {
        fsm_slot::Jump(f) => jump_action(f.state),
        fsm_slot::ProgEnd(f) => ex_stop_action(f.state),
        fsm_slot::Exception(f) => drain_action(f.state),
        fsm_slot::AddrException(f) => agu_stop_action(f.state),
        fsm_slot::MemBlock { state, .. } => mem_stop_action(state),
        fsm_slot::Pause(_) => pipeline_action::Stall,
        fsm_slot::Hazard(f) => raw_action(f.state),
    }
}

/// The arbitration class every unfinished controller of this kind has.
pub open spec fn busy_action(s: fsm_slot) -> pipeline_action {
    match s {
        fsm_slot::MemBlock { .. } | fsm_slot::Pause(_) | fsm_slot::Hazard(_) => pipeline_action::Stall,
        _ => pipeline_action::Flush,
    }
}

/// The stage actions a controller imposes this cycle.
pub open spec fn slot_ops(s: fsm_slot) -> stage_ops {
    match s {
        fsm_slot::Jump(_) => jump_ops(),
        fsm_slot::ProgEnd(_) => ex_stop_ops(),
        fsm_slot::Exception(_) => drain_ops(),
        fsm_slot::AddrException(_) => drain_ops(),
        fsm_slot::MemBlock { state, .. } => mem_stop_ops(state),
        fsm_slot::Pause(_) => pause_ops(),
        fsm_slot::Hazard(_) => raw_ops(),
    }
}

/// A controller after winning arbitration for `sig`, with the DRAM port before and after.
pub open spec fn slot_advance(s: fsm_slot, sig: signal_reason, port: Option<portal_state>) -> (fsm_slot, Option<portal_state>) {
    match s {
        fsm_slot::Jump(_) => (
            fsm_slot::Jump(ID_jump_FSM { state: ID_jump_FSG_states::IDLE, state_next: ID_jump_FSG_states::IDLE }),
            port,
        ),
        fsm_slot::ProgEnd(f) => (fsm_slot::ProgEnd(EX_stop_FSM { state: ex_stop_next(f.state) }), port),
        fsm_slot::Exception(f) => (fsm_slot::Exception(ExceptionDrain_FSM { state: drain_next(f.state) }), port),
        fsm_slot::AddrException(f) => {
            let n = agu_stop_next(f.state);
            (fsm_slot::AddrException(AGU_stop_FSM { state: n, state_next: n }), port)
        },
        fsm_slot::MemBlock { state, req } => {
            let (st, rq, p) = mem_stop_next(state, req, sig, port);
            (fsm_slot::MemBlock { state: st, req: rq }, p)
        },
        fsm_slot::Pause(_) => (s, port),
        fsm_slot::Hazard(_) => (fsm_slot::Hazard(RAW_resolution_FSM { state: RAW_resolution_FSM_state::Idle }), port),
    }
}

/// A controller after another signal won arbitration: a bubble is dropped, the others wait.
pub open spec fn slot_blocked(s: fsm_slot) -> fsm_slot {
    match s {
        fsm_slot::Hazard(_) => fsm_slot::Hazard(RAW_resolution_FSM { state: RAW_resolution_FSM_state::Idle }),
        _ => s,
    }
}

/// Moving a controller on keeps its kind, and an unfinished controller keeps its class.
pub proof fn lemma_slot_class(s: fsm_slot, sig: signal_reason, port: Option<portal_state>)
    ensures
        slot_reason(slot_advance(s, sig, port).0) == slot_reason(s),
        slot_reason(slot_blocked(s)) == slot_reason(s),
        busy_action(slot_advance(s, sig, port).0) == busy_action(s),
        busy_action(slot_blocked(s)) == busy_action(s),
        slot_action(s) == pipeline_action::Normal || slot_action(s) == busy_action(s),
        slot_action(slot_advance(s, sig, port).0) == pipeline_action::Normal
            || slot_action(slot_advance(s, sig, port).0) == busy_action(s),
        slot_action(slot_blocked(s)) == pipeline_action::Normal || slot_action(slot_blocked(s))
            == busy_action(s),
{
}

impl fsm_slot {
    /// The slot of a memory-stall controller; its DRAM port stays with the caller.
    pub fn from_mem_fsm(f: &MEM_stop_FSM) -> (r: Self)
        ensures
            r == (fsm_slot::MemBlock { state: f.state, req: f.req }),
    {
        fsm_slot::MemBlock { state: f.state, req: f.req }
    }

    pub fn reason(&self) -> (r: signal_reason)
        ensures
            r == slot_reason(*self),
    {
        match self {
            fsm_slot::Jump(f) => f.reason(),
            fsm_slot::ProgEnd(f) => f.reason(),
            fsm_slot::Exception(f) => f.reason(),
            fsm_slot::AddrException(f) => f.reason(),
            fsm_slot::MemBlock { .. } => signal_reason::mem_block_kind(),
            fsm_slot::Pause(f) => f.reason(),
            fsm_slot::Hazard(f) => f.reason(),
        }
    }

    pub fn action(&self) -> (r: pipeline_action)
        ensures
            r == slot_action(*self),
    {
        match self {
            fsm_slot::Jump(f) => f.action(),
            fsm_slot::ProgEnd(f) => f.action(),
            fsm_slot::Exception(f) => f.action(),
            fsm_slot::AddrException(f) => f.action(),
            fsm_slot::MemBlock { state, .. } => match state {
                MEM_stop_FSM_states::Idle => pipeline_action::Normal,
                _ => pipeline_action::Stall,
            },
            fsm_slot::Pause(f) => f.action(),
            fsm_slot::Hazard(f) => f.action(),
        }
    }

    pub fn get_ops(&self) -> (r: stage_ops)
        ensures
            r == slot_ops(*self),
    {
        match self {
            fsm_slot::Jump(f) => f.get_ops(),
            fsm_slot::ProgEnd(f) => f.get_ops(),
            fsm_slot::Exception(f) => f.get_ops(),
            fsm_slot::AddrException(f) => f.get_ops(),
            fsm_slot::MemBlock { state, req } => {
                let f = MEM_stop_FSM { state: *state, state_next: *state, req: *req, dram_port: None };
                f.get_ops()
            },
            fsm_slot::Pause(f) => f.get_ops(),
            fsm_slot::Hazard(f) => f.get_ops(),
        }
    }

    /// Moves the controller on after it won arbitration for `sig_reason`; the memory-stall
    /// controller uses `port`.
    pub fn advance_winner(&mut self, sig_reason: signal_reason, port: &mut Option<dram_portal>)
        ensures
            (*final(self), port_view(*final(port))) == slot_advance(*old(self), sig_reason, port_view(*old(port))),
    {
        match self {
            fsm_slot::Jump(f) => {
                f.advance_winner(sig_reason);
            },
            fsm_slot::ProgEnd(f) => {
                f.advance_winner(sig_reason);
            },
            fsm_slot::Exception(f) => {
                f.advance_winner(sig_reason);
            },
            fsm_slot::AddrException(f) => {
                f.advance_winner(sig_reason);
            },
            fsm_slot::MemBlock { state, req } => {
                let mut f = MEM_stop_FSM { state: *state, state_next: *state, req: *req, dram_port: None };
                f.advance_with_port(sig_reason, port);
                *state = f.state;
                *req = f.req;
            },
            fsm_slot::Pause(f) => {
                f.advance_winner(sig_reason);
            },
            fsm_slot::Hazard(f) => {
                f.advance_winner(sig_reason);
            },
        }
    }

    pub fn handle_blocked(&mut self)
        ensures
            *final(self) == slot_blocked(*old(self)),
    {
        match self {
            fsm_slot::Hazard(f) => {
                f.handle_blocked();
            },
            _ => {},
        }
    }
}

/// The arbitration key of an active signal: priority of the reason, issuing stage, action
/// class, then the reason itself; a greater key wins.
#[derive(Clone, Copy, Debug, PartialEq, Eq, Structural)]
pub struct sig_key {
    pub prio: u8,
    pub stage: u8,
    pub act: u8,
    pub kind: u8,
    pub addr: u64,
    pub rd: bool,
}

/// The key of a signal with reason `r` from stage `st` resolved with class `a`.
pub open spec fn mk_key(r: signal_reason, st: CPU_stages, a: pipeline_action) -> sig_key {
    sig_key {
        prio: priority_of(r),
        stage: stage_rank(st),
        act: action_rank(a),
        kind: reason_kind(r),
        addr: match r {
            signal_reason::MEM_block { addr, .. } => addr,
            _ => 0,
        },
        rd: match r {
            signal_reason::MEM_block { is_read, .. } => is_read,
            _ => false,
        },
    }
}

/// The lexicographic order of keys.
pub open spec fn key_lt(a: sig_key, b: sig_key) -> bool {
    if a.prio != b.prio {
        a.prio < b.prio
    } else if a.stage != b.stage {
        a.stage < b.stage
    } else if a.act != b.act {
        a.act < b.act
    } else if a.kind != b.kind {
        a.kind < b.kind
    } else if a.addr != b.addr {
        a.addr < b.addr
    } else {
        !a.rd && b.rd
    }
}

impl sig_key {
    pub fn of(r: signal_reason, st: CPU_stages, a: pipeline_action) -> (k: Self)
        ensures
            k == mk_key(r, st, a),
    {
        let (addr, rd) = match r {
            signal_reason::MEM_block { addr, is_read } => (addr, is_read),
            _ => (0u64, false),
        };
        sig_key { prio: signal_priority(r), stage: st.get_rank(), act: a.get_rank(), kind: r.kind(), addr, rd }
    }

    pub fn less(&self, other: &sig_key) -> (r: bool)
        ensures
            r == key_lt(*self, *other),
    {
        if self.prio != other.prio {
            self.prio < other.prio
        } else if self.stage != other.stage {
            self.stage < other.stage
        } else if self.act != other.act {
            self.act < other.act
        } else if self.kind != other.kind {
            self.kind < other.kind
        } else if self.addr != other.addr {
            self.addr < other.addr
        } else {
            !self.rd && other.rd
        }
    }
}

/// A signal under resolution: its key, the reason and stage that raised it, its controller
/// and the stages it may act on.
#[derive(Clone, Copy, Debug, PartialEq, Eq)]
pub struct active_signal {
    pub key: sig_key,
    pub reason: signal_reason,
    pub issuer_stage: CPU_stages,
    pub fsm: fsm_slot,
    pub target_stages: Option<stage_set>,
}

/// The pipeline controller: controller templates registered per kind of reason, the
/// signals under resolution, the reason that won the last arbitration, and the DRAM port
/// the memory-stall controllers use.
pub struct sig_resolver {
    pub fsm_menu: Vec<(u8, fsm_slot)>,
    pub active_sig: Vec<active_signal>,
    pub last_winner_reason: Option<signal_reason>,
    pub dram_port: Option<dram_portal>,
}

/// The abstract state of the pipeline controller.
pub struct resolver_state {
    pub menu: Seq<(u8, fsm_slot)>,
    pub active: Seq<active_signal>,
    pub last: Option<signal_reason>,
    pub port: Option<portal_state>,
}

impl View for sig_resolver {
    type V = resolver_state;

    open spec fn view(&self) -> resolver_state {
        resolver_state {
            menu: self.fsm_menu@,
            active: self.active_sig@,
            last: self.last_winner_reason,
            port: port_view(self.dram_port),
        }
    }
}

/// The template registered for reason kind `k`, if any.
pub open spec fn menu_find(menu: Seq<(u8, fsm_slot)>, k: u8) -> Option<fsm_slot> {
    if exists|i: int| 0 <= i < menu.len() && #[trigger] menu[i].0 == k {
        Some(menu[choose|i: int| 0 <= i < menu.len() && #[trigger] menu[i].0 == k].1)
    } else {
        None
    }
}

/// Some active signal has key `k`.
pub open spec fn key_active(active: Seq<active_signal>, k: sig_key) -> bool {
    exists|i: int| 0 <= i < active.len() && #[trigger] active[i].key == k
}

/// Well-formedness: at most one template per kind; active signals have distinct keys, are
/// unfinished, and are keyed by their reason, stage and class.
pub open spec fn resolver_wf(v: resolver_state) -> bool {
    &&& forall|i: int, j: int| 0 <= i < j < v.menu.len() ==> #[trigger] v.menu[i].0 != #[trigger] v.menu[j].0
    &&& forall|i: int, j: int| 0 <= i < j < v.active.len() ==> #[trigger] v.active[i].key != #[trigger] v.active[j].key
    &&& forall|i: int| 0 <= i < v.active.len() ==> {
        let a = #[trigger] v.active[i];
        &&& slot_action(a.fsm) != pipeline_action::Normal
        &&& a.key == mk_key(a.reason, a.issuer_stage, slot_action(a.fsm))
    }
}

/// The active signals after a stage submits `req`: a reason without a template, or with one
/// that is already finished, is ignored; a signal already under resolution is not restarted.
pub open spec fn submit_spec(v: resolver_state, req: Option<signal_req>) -> Seq<active_signal> {
    match req {
        None => v.active,
        Some(q) => if q.sig_reason == signal_reason::no_reason {
            v.active
        } else {
            match menu_find(v.menu, reason_kind(q.sig_reason)) {
                None => v.active,
                Some(t) => {
                    let act = slot_action(t);
                    let k = mk_key(q.sig_reason, q.issuer_stage, act);
                    if act == pipeline_action::Normal || key_active(v.active, k) {
                        v.active
                    } else {
                        v.active.push(active_signal {
                            key: k,
                            reason: q.sig_reason,
                            issuer_stage: q.issuer_stage,
                            fsm: t,
                            target_stages: q.target_stages,
                        })
                    }
                },
            }
        },
    }
}

/// Signal `i` has the greatest key.
pub open spec fn is_winner(active: Seq<active_signal>, i: int) -> bool {
    &&& 0 <= i < active.len()
    &&& forall|j: int| 0 <= j < active.len() && j != i ==> key_lt(#[trigger] active[j].key, active[i].key)
}

/// The winner of arbitration among `active`.
pub open spec fn winner(active: Seq<active_signal>) -> int {
    choose|i: int| is_winner(active, i)
}

/// The action a controller's bundle imposes on stage slot `k`, restricted to `target`.
pub open spec fn picked(o: stage_ops, target: Option<stage_set>, k: int) -> pipeline_action {
    match target {
        Some(t) if !t.members@[k] => pipeline_action::Normal,
        _ => match o.ops@[k] {
            Some(a) => a,
            None => pipeline_action::Normal,
        },
    }
}

/// Every stage runs normally except where the winner's bundle, restricted to its target
/// stages, says otherwise.
pub open spec fn decision_of(o: stage_ops, target: Option<stage_set>) -> pipeline_decision {
    pipeline_decision {
        acts: [
            picked(o, target, 0),
            picked(o, target, 1),
            picked(o, target, 2),
            picked(o, target, 3),
            picked(o, target, 4),
            picked(o, target, 5),
        ],
    }
}

/// Every stage runs normally.
pub open spec fn all_normal() -> pipeline_decision {
    let n = pipeline_action::Normal;
    pipeline_decision { acts: [n, n, n, n, n, n] }
}

/// One arbitration: the decision, the active signals after the winner advanced and the
/// others were blocked, the winner's reason, and the DRAM port afterwards.
pub open spec fn collect_spec(v: resolver_state) -> (pipeline_decision, Seq<active_signal>, Option<signal_reason>, Option<portal_state>) {
    if v.active.len() == 0 {
        (all_normal(), v.active, None, v.port)
    } else {
        let w = winner(v.active);
        let a = v.active[w];
        let (nf, np) = slot_advance(a.fsm, a.reason, v.port);
        (
            decision_of(slot_ops(a.fsm), a.target_stages),
            Seq::new(v.active.len(), |i: int| if i == w {
                active_signal { fsm: nf, ..a }
            } else {
                active_signal { fsm: slot_blocked(v.active[i].fsm), ..v.active[i] }
            }),
            Some(slot_reason(a.fsm)),
            np,
        )
    }
}

/// Finished controllers leave the active set.
pub open spec fn retire_spec(active: Seq<active_signal>) -> Seq<active_signal> {
    active.filter(|a: active_signal| slot_action(a.fsm) != pipeline_action::Normal)
}

/// The active signals without those whose controller resolves `r`.
pub open spec fn cleared_spec(active: Seq<active_signal>, r: signal_reason) -> Seq<active_signal> {
    active.filter(|a: active_signal| slot_reason(a.fsm) != r)
}

/// Keys are strictly and totally ordered.
pub proof fn lemma_key_order(a: sig_key, b: sig_key, c: sig_key)
    ensures
        !key_lt(a, a),
        key_lt(a, b) ==> !key_lt(b, a),
        a != b ==> key_lt(a, b) || key_lt(b, a),
        key_lt(a, b) && key_lt(b, c) ==> key_lt(a, c),
{
}

/// At most one signal has the greatest key.
pub proof fn lemma_winner_unique(active: Seq<active_signal>, i: int, j: int)
    requires
        is_winner(active, i),
        is_winner(active, j),
    ensures
        i == j,
{
    if i != j {
        lemma_key_order(active[i].key, active[j].key, active[i].key);
    }
}

fn pick(o: &stage_ops, target: Option<stage_set>, k: usize) -> (r: pipeline_action)
    requires
        k < 6,
    ensures
        r == picked(*o, target, k as int),
{
    match target {
        Some(t) if !t.members[k] => pipeline_action::Normal,
        _ => match o.ops[k] {
            Some(a) => a,
            None => pipeline_action::Normal,
        },
    }
}

fn decide(o: &stage_ops, target: Option<stage_set>) -> (r: pipeline_decision)
    ensures
        r == decision_of(*o, target),
{
    let acts = [
        pick(o, target, 0),
        pick(o, target, 1),
        pick(o, target, 2),
        pick(o, target, 3),
        pick(o, target, 4),
        pick(o, target, 5),
    ];
    let r = pipeline_decision { acts };
    assert(r.acts@ =~= decision_of(*o, target).acts@);
    r
}

/// The active signals have distinct keys, and each unfinished one is keyed by its reason,
/// stage and class.
pub open spec fn keyed(active: Seq<active_signal>) -> bool {
    &&& forall|i: int, j: int| 0 <= i < j < active.len() ==> #[trigger] active[i].key != #[trigger] active[j].key
    &&& forall|i: int| 0 <= i < active.len() && slot_action((#[trigger] active[i]).fsm) != pipeline_action::Normal
        ==> active[i].key == mk_key(active[i].reason, active[i].issuer_stage, slot_action(active[i].fsm))
}

/// Loop step shared by the retain loops: `a == v[i]` can join `out` without repeating a key.
proof fn lemma_retain_step(v: Seq<active_signal>, out: Seq<active_signal>, i: int)
    requires
        0 <= i < v.len(),
        keyed(v),
        keyed(out),
        forall|k: int| 0 <= k < out.len() ==> v.subrange(0, i).contains(#[trigger] out[k]),
        slot_action(v[i].fsm) != pipeline_action::Normal ==> v[i].key == mk_key(v[i].reason, v[i].issuer_stage, slot_action(v[i].fsm)),
    ensures
        keyed(out.push(v[i])),
        forall|k: int| 0 <= k < out.push(v[i]).len() ==> v.subrange(0, i + 1).contains(#[trigger] out.push(v[i])[k]),
        forall|k: int| 0 <= k < out.len() ==> v.subrange(0, i + 1).contains(#[trigger] out[k]),
{
    let o2 = out.push(v[i]);
    assert forall|k: int| 0 <= k < out.len() implies out[k].key != v[i].key by {
        let sub = v.subrange(0, i);
        let j = choose|j: int| 0 <= j < sub.len() && sub[j] == out[k];
        assert(v[j] == out[k]);
        assert(v[j].key != v[i].key);
    }
    assert forall|k: int| 0 <= k < out.len() implies v.subrange(0, i + 1).contains(#[trigger] out[k]) by {
        let sub = v.subrange(0, i);
        let j = choose|j: int| 0 <= j < sub.len() && sub[j] == out[k];
        assert(v.subrange(0, i + 1)[j] == out[k]);
    }
    assert forall|k: int| 0 <= k < o2.len() implies v.subrange(0, i + 1).contains(#[trigger] o2[k]) by {
        if k == out.len() {
            assert(v.subrange(0, i + 1)[i] == o2[k]);
        } else {
            assert(o2[k] == out[k]);
        }
    }
    assert forall|a: int, b: int| 0 <= a < b < o2.len() implies #[trigger] o2[a].key != #[trigger] o2[b].key by {
        if b == out.len() {
            assert(o2[a] == out[a]);
        } else {
            assert(out[a].key != out[b].key);
        }
    }
}

fn retain_unfinished(v: &Vec<active_signal>) -> (kept: Vec<active_signal>)
    requires
        keyed(v@),
    ensures
        kept@ == retire_spec(v@),
        keyed(kept@),
        forall|i: int| 0 <= i < kept@.len() ==> slot_action((#[trigger] kept@[i]).fsm) != pipeline_action::Normal,
{
    let ghost p = |a: active_signal| slot_action(a.fsm) != pipeline_action::Normal;
    let mut out: Vec<active_signal> = Vec::new();
    let mut i: usize = 0;
    while i < v.len()
        invariant
            i <= v@.len(),
            keyed(v@),
            p == (|a: active_signal| slot_action(a.fsm) != pipeline_action::Normal),
            out@ == v@.take(i as int).filter(p),
            keyed(out@),
            forall|k: int| 0 <= k < out@.len() ==> slot_action((#[trigger] out@[k]).fsm) != pipeline_action::Normal,
            forall|k: int| 0 <= k < out@.len() ==> v@.subrange(0, i as int).contains(#[trigger] out@[k]),
        decreases v@.len() - i,
    {
        let a = v[i];
        proof {
            assert(v@.take(i as int + 1) =~= v@.take(i as int).push(a));
            v@.take(i as int).lemma_filter_push(a, p);
            lemma_retain_step(v@, out@, i as int);
        }
        if a.fsm.action() != pipeline_action::Normal {
            out.push(a);
        }
        i = i + 1;
    }
    assert(v@.take(v@.len() as int) =~= v@);
    out
}

fn retain_other(v: &Vec<active_signal>, r: signal_reason) -> (kept: Vec<active_signal>)
    requires
        keyed(v@),
    ensures
        kept@ == cleared_spec(v@, r),
        keyed(kept@),
        forall|k: int| 0 <= k < kept@.len() ==> v@.contains(#[trigger] kept@[k]),
{
    let ghost p = |a: active_signal| slot_reason(a.fsm) != r;
    let mut out: Vec<active_signal> = Vec::new();
    let mut i: usize = 0;
    while i < v.len()
        invariant
            i <= v@.len(),
            keyed(v@),
            p == (|a: active_signal| slot_reason(a.fsm) != r),
            out@ == v@.take(i as int).filter(p),
            keyed(out@),
            forall|k: int| 0 <= k < out@.len() ==> v@.subrange(0, i as int).contains(#[trigger] out@[k]),
        decreases v@.len() - i,
    {
        let a = v[i];
        proof {
            assert(v@.take(i as int + 1) =~= v@.take(i as int).push(a));
            v@.take(i as int).lemma_filter_push(a, p);
            lemma_retain_step(v@, out@, i as int);
        }
        if a.fsm.reason() != r {
            out.push(a);
        }
        i = i + 1;
    }
    assert(v@.take(v@.len() as int) =~= v@);
    assert(v@.subrange(0, v@.len() as int) =~= v@);
    out
}

impl sig_resolver {
    pub fn new() -> (r: Self)
        ensures
            r@.menu == Seq::<(u8, fsm_slot)>::empty(),
            r@.active == Seq::<active_signal>::empty(),
            r@.last == None::<signal_reason>,
            r@.port == None::<portal_state>,
            resolver_wf(r@),
    {
        Self { fsm_menu: Vec::new(), active_sig: Vec::new(), last_winner_reason: None, dram_port: None }
    }

    fn find_template(&self, k: u8) -> (r: Option<fsm_slot>)
        requires
            resolver_wf(self@),
        ensures
            r == menu_find(self@.menu, k),
    {
        let mut i: usize = 0;
        while i < self.fsm_menu.len()
            invariant
                i <= self@.menu.len(),
                resolver_wf(self@),
                forall|j: int| 0 <= j < i ==> #[trigger] self@.menu[j].0 != k,
            decreases self@.menu.len() - i,
        {
            if self.fsm_menu[i].0 == k {
                let t = self.fsm_menu[i].1;
                proof {
                    assert(self@.menu[i as int].0 == k);
                    let c = choose|j: int| 0 <= j < self@.menu.len() && #[trigger] self@.menu[j].0 == k;
                    if c != i as int {
                        if c < i as int {
                            assert(self@.menu[c].0 != self@.menu[i as int].0);
                        } else {
                            assert(self@.menu[i as int].0 != self@.menu[c].0);
                        }
                    }
                }
                return Some(t);
            }
            i = i + 1;
        }
        None
    }

    /// Registers `new_fsm` as the template for reasons of the kind of `sig_reason`; a kind
    /// that already has a template keeps it.
    pub fn add_new_fsm(&mut self, sig_reason: signal_reason, new_fsm: fsm_slot) -> (r: bool)
        requires
            resolver_wf(old(self)@),
        ensures
            r == (menu_find(old(self)@.menu, reason_kind(sig_reason)) is None),
            final(self)@.menu == (if r {
                old(self)@.menu.push((reason_kind(sig_reason), new_fsm))
            } else {
                old(self)@.menu
            }),
            final(self)@.active == old(self)@.active,
            final(self)@.last == old(self)@.last,
            final(self)@.port == old(self)@.port,
            resolver_wf(final(self)@),
    {
        let k = sig_reason.kind();
        if self.find_template(k).is_some() {
            return false;
        }
        proof {
            assert forall|j: int| 0 <= j < self@.menu.len() implies #[trigger] self@.menu[j].0 != k by {
                if self@.menu[j].0 == k {
                    assert(exists|i: int| 0 <= i < self@.menu.len() && #[trigger] self@.menu[i].0 == k);
                }
            }
        }
        self.fsm_menu.push((k, new_fsm));
        true
    }

    /// Registers the memory-stall controller `fsm` for `MEM_block` signals; its DRAM port, if
    /// any, becomes the port the controllers use.
    pub fn add_mem_fsm(&mut self, fsm: MEM_stop_FSM) -> (r: bool)
        requires
            resolver_wf(old(self)@),
        ensures
            r == (menu_find(old(self)@.menu, 2) is None),
            final(self)@.menu == (if r {
                old(self)@.menu.push((2u8, fsm_slot::MemBlock { state: fsm.state, req: fsm.req }))
            } else {
                old(self)@.menu
            }),
            final(self)@.active == old(self)@.active,
            final(self)@.last == old(self)@.last,
            final(self)@.port == (if r && fsm.dram_port is Some { port_view(fsm.dram_port) } else { old(self)@.port }),
            resolver_wf(final(self)@),
    {
        let slot = fsm_slot::from_mem_fsm(&fsm);
        let ok = self.add_new_fsm(signal_reason::mem_block_kind(), slot);
        if ok {
            match fsm.dram_port {
                Some(p) => {
                    self.dram_port = Some(p);
                },
                None => {},
            }
        }
        ok
    }

    fn has_key(&self, k: &sig_key) -> (r: bool)
        ensures
            r == key_active(self@.active, *k),
    {
        let mut i: usize = 0;
        while i < self.active_sig.len()
            invariant
                i <= self@.active.len(),
                forall|j: int| 0 <= j < i ==> #[trigger] self@.active[j].key != *k,
            decreases self@.active.len() - i,
        {
            if self.active_sig[i].key == *k {
                return true;
            }
            i = i + 1;
        }
        false
    }

    /// Takes a stage's request: starts a controller for it unless its reason has none, the
    /// template is already finished, or the same signal is under resolution.
    pub fn submit_signal(&mut self, sig_req: Option<signal_req>)
        requires
            resolver_wf(old(self)@),
        ensures
            final(self)@.active == submit_spec(old(self)@, sig_req),
            final(self)@.menu == old(self)@.menu,
            final(self)@.last == old(self)@.last,
            final(self)@.port == old(self)@.port,
            resolver_wf(final(self)@),
    {
        let Some(req) = sig_req else {
            return;
        };
        if req.sig_reason == signal_reason::no_reason {
            return;
        }
        let Some(t) = self.find_template(req.sig_reason.kind()) else {
            return;
        };
        let act = t.action();
        if act == pipeline_action::Normal {
            return;
        }
        let key = sig_key::of(req.sig_reason, req.issuer_stage, act);
        if self.has_key(&key) {
            return;
        }
        self.active_sig.push(
            active_signal { key, reason: req.sig_reason, issuer_stage: req.issuer_stage, fsm: t, target_stages: req.target_stages },
        );
    }

    fn collect_result(&mut self) -> (r: pipeline_decision)
        requires
            resolver_wf(old(self)@),
        ensures
            (r, final(self)@.active, final(self)@.last, final(self)@.port) == collect_spec(old(self)@),
            final(self)@.menu == old(self)@.menu,
    {
        let ghost v0 = self@;
        self.last_winner_reason = None;
        let n = self.active_sig.len();
        if n == 0 {
            let normal = pipeline_action::Normal;
            let r = pipeline_decision { acts: [normal, normal, normal, normal, normal, normal] };
            assert(r.acts@ =~= all_normal().acts@);
            return r;
        }
        let mut w: usize = 0;
        let mut i: usize = 1;
        while i < n
            invariant
                n == self@.active.len(),
                self@.active == v0.active,
                self@.menu == v0.menu,
                self@.port == v0.port,
                resolver_wf(v0),
                w < i <= n,
                forall|j: int| 0 <= j < i && j != w ==> key_lt(#[trigger] v0.active[j].key, v0.active[w as int].key),
            decreases n - i,
        {
            if self.active_sig[w].key.less(&self.active_sig[i].key) {
                proof {
                    assert forall|j: int| 0 <= j < i + 1 && j != i implies key_lt(#[trigger] v0.active[j].key, v0.active[i as int].key) by {
                        lemma_key_order(v0.active[j].key, v0.active[w as int].key, v0.active[i as int].key);
                    }
                }
                w = i;
            } else {
                proof {
                    lemma_key_order(v0.active[i as int].key, v0.active[w as int].key, v0.active[i as int].key);
                    if w < i {
                        assert(v0.active[w as int].key != v0.active[i as int].key);
                    }
                }
            }
            i = i + 1;
        }
        proof {
            assert(is_winner(v0.active, w as int));
            lemma_winner_unique(v0.active, w as int, winner(v0.active));
        }
        let a = self.active_sig[w];
        self.last_winner_reason = Some(a.fsm.reason());
        let ops = a.fsm.get_ops();
        let dec = decide(&ops, a.target_stages);
        let mut nf = a.fsm;
        nf.advance_winner(a.reason, &mut self.dram_port);
        let ghost target = collect_spec(v0).1;
        let mut k: usize = 0;
        while k < n
            invariant
                n == v0.active.len(),
                self@.active.len() == n,
                w < n,
                a == v0.active[w as int],
                v0.active.len() > 0,
                winner(v0.active) == w,
                nf == slot_advance(a.fsm, a.reason, v0.port).0,
                port_view(self.dram_port) == slot_advance(a.fsm, a.reason, v0.port).1,
                self.last_winner_reason == Some(slot_reason(a.fsm)),
                dec == decision_of(slot_ops(a.fsm), a.target_stages),
                target == collect_spec(v0).1,
                k <= n,
                forall|j: int| 0 <= j < k ==> #[trigger] self@.active[j] == target[j],
                forall|j: int| k <= j < n ==> #[trigger] self@.active[j] == v0.active[j],
                self@.menu == v0.menu,
            decreases n - k,
        {
            if k == w {
                self.active_sig.set(k, active_signal { fsm: nf, ..a });
            } else {
                let mut e = self.active_sig[k];
                e.fsm.handle_blocked();
                self.active_sig.set(k, e);
            }
            k = k + 1;
        }
        assert(self@.active =~= target);
        dec
    }

    fn update_active(&mut self)
        requires
            keyed(old(self)@.active),
        ensures
            final(self)@.active == retire_spec(old(self)@.active),
            keyed(final(self)@.active),
            forall|i: int| 0 <= i < final(self)@.active.len() ==> slot_action((#[trigger] final(self)@.active[i]).fsm) != pipeline_action::Normal,
            final(self)@.menu == old(self)@.menu,
            final(self)@.last == old(self)@.last,
            final(self)@.port == old(self)@.port,
    {
        let kept = retain_unfinished(&self.active_sig);
        self.active_sig = kept;
    }

    /// One arbitration: the winner's stage actions (restricted to its target stages) over
    /// an all-normal default; the winner advances, the others are blocked, finished
    /// controllers retire.
    pub fn get_decision(&mut self) -> (r: pipeline_decision)
        requires
            resolver_wf(old(self)@),
        ensures
            r == collect_spec(old(self)@).0,
            final(self)@.active == retire_spec(collect_spec(old(self)@).1),
            final(self)@.last == collect_spec(old(self)@).2,
            final(self)@.port == collect_spec(old(self)@).3,
            final(self)@.menu == old(self)@.menu,
            resolver_wf(final(self)@),
    {
        let ghost v0 = self@;
        let r = self.collect_result();
        proof {
            let c = collect_spec(v0).1;
            if v0.active.len() > 0 {
                let w = winner(v0.active);
                let a = v0.active[w];
                assert forall|i: int| 0 <= i < c.len() && slot_action((#[trigger] c[i]).fsm) != pipeline_action::Normal
                    implies c[i].key == mk_key(c[i].reason, c[i].issuer_stage, slot_action(c[i].fsm)) by {
                    lemma_slot_class(v0.active[i].fsm, a.reason, v0.port);
                    lemma_slot_class(v0.active[i].fsm, v0.active[i].reason, v0.port);
                }
                assert forall|i: int, j: int| 0 <= i < j < c.len() implies #[trigger] c[i].key != #[trigger] c[j].key by {
                    assert(v0.active[i].key != v0.active[j].key);
                }
            }
            assert(keyed(c));
        }
        self.update_active();
        r
    }

    pub fn last_winner_reason(&self) -> (r: Option<signal_reason>)
        ensures
            r == self@.last,
    {
        self.last_winner_reason
    }

    /// Whether a controller for `sig_reason` is under resolution.
    pub fn has_active_signal(&self, sig_reason: signal_reason) -> (r: bool)
        ensures
            r == exists|i: int| 0 <= i < self@.active.len() && slot_reason(#[trigger] self@.active[i].fsm) == sig_reason,
    {
        let mut i: usize = 0;
        while i < self.active_sig.len()
            invariant
                i <= self@.active.len(),
                forall|j: int| 0 <= j < i ==> slot_reason(#[trigger] self@.active[j].fsm) != sig_reason,
            decreases self@.active.len() - i,
        {
            if self.active_sig[i].fsm.reason() == sig_reason {
                return true;
            }
            i = i + 1;
        }
        false
    }

    /// Drops every controller for `sig_reason` and forgets it as the last winner.
    pub fn clear_active_signal(&mut self, sig_reason: signal_reason)
        requires
            resolver_wf(old(self)@),
        ensures
            final(self)@.active == cleared_spec(old(self)@.active, sig_reason),
            final(self)@.last == (if old(self)@.last == Some(sig_reason) {
                None
            } else {
                old(self)@.last
            }),
            final(self)@.menu == old(self)@.menu,
            final(self)@.port == old(self)@.port,
            resolver_wf(final(self)@),
    {
        let ghost v0 = self@;
        let kept = retain_other(&self.active_sig, sig_reason);
        proof {
            assert forall|i: int| 0 <= i < kept@.len() implies slot_action((#[trigger] kept@[i]).fsm) != pipeline_action::Normal by {
                assert(v0.active.contains(kept@[i]));
                let j = choose|j: int| 0 <= j < v0.active.len() && v0.active[j] == kept@[i];
                assert(v0.active[j] == kept@[i]);
            }
        }
        self.active_sig = kept;
        proof {
            assert forall|i: int| 0 <= i < self@.active.len() implies {
                let a = #[trigger] self@.active[i];
                &&& slot_action(a.fsm) != pipeline_action::Normal
                &&& a.key == mk_key(a.reason, a.issuer_stage, slot_action(a.fsm))
            } by {
                assert(slot_action(kept@[i].fsm) != pipeline_action::Normal);
            }
        }
        if self.last_winner_reason == Some(sig_reason) {
            self.last_winner_reason = None;
        }
    }
}

/// A signal under resolution is not restarted: submitting the same request twice in a row
/// leaves the same active signals as submitting it once.
pub proof fn lemma_submit_idempotent(v: resolver_state, req: Option<signal_req>)
    ensures
        submit_spec(resolver_state { active: submit_spec(v, req), ..v }, req) == submit_spec(v, req),
{
    let a1 = submit_spec(v, req);
    match req {
        None => {},
        Some(q) => {
            if q.sig_reason != signal_reason::no_reason {
                match menu_find(v.menu, reason_kind(q.sig_reason)) {
                    None => {},
                    Some(t) => {
                        let act = slot_action(t);
                        let k = mk_key(q.sig_reason, q.issuer_stage, act);
                        if act != pipeline_action::Normal && !key_active(v.active, k) {
                            assert(a1[v.active.len() as int].key == k);
                            assert(key_active(a1, k));
                        }
                    },
                }
            }
        },
    }
}

/// Requests without a reason start nothing.
pub proof fn lemma_no_reason_is_ignored(v: resolver_state, st: CPU_stages, target: Option<stage_set>)
    ensures
        submit_spec(v, Some(sig(signal_reason::no_reason, st, target))) == v.active,
        submit_spec(v, None) == v.active,
{
}

/// Without active signals every stage runs normally and nothing wins.
pub proof fn lemma_quiet_controller(v: resolver_state)
    requires
        v.active.len() == 0,
    ensures
        collect_spec(v).0 == all_normal(),
        collect_spec(v).2 is None,
        collect_spec(v).3 == v.port,
{
}

} // verus!
