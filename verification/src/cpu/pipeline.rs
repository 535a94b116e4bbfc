use vstd::prelude::*;
use crate::cpu::RF::{arch_rf, cpu_rf_state};
use crate::cpu::imem::IMEM;
use crate::cpu::IF::{IF_ID_rf, cpu_if_spec};
use crate::cpu::ID::{ID_EX_rf, ID_jump_FSM, decode_spec, empty_id_ex, id_inst_ok, id_spec_ops, id_spec_sig};
use crate::cpu::EX::{EX_MEM_rf, EX_stop_FSM, ExceptionDrain_FSM, RAW_resolution_FSM, cpu_ex_ok, cpu_ex_spec};
use crate::cpu::MEM::{MEM_WB_RF, MEM_stop_FSM, cpu_mem_spec};
use crate::cpu::WB::cpu_wb_spec;
use crate::cpu::pimcpu_types::{CPU_stages, action_dest, arch_action, arch_dest, inst};
use crate::cpu::pipeline_util::{arch_update_spec, cpu_dests_distinct, cpu_regs_ok};
use crate::cpu::signal_scoreboard::{
    ExternalPause_FSM, collect_spec, decision_get, fsm_slot, latch_action, latch_action_spec,
    pipeline_action, pipeline_decision, resolver_state, resolver_wf, retire_spec, sig,
    sig_resolver, signal_reason, signal_req, set_IF, submit_spec,
};
use crate::memory::AGU_unit::{AGU_entry, AGU_unit};
use crate::memory::flat_memory::{cpu_flat_mem, mem_entry};
use crate::memory::mem_portal::dram_portal;

verus! {

/// The CGO processor: a five-stage pipeline (IF, ID, EX with address generation, MEM, WB)
/// over its own register files, AGU table and flat memory, arbitrated by a pipeline
/// controller, with a handshake for external pause and resume requests.
pub struct CPU {
    pub imem: IMEM,
    pub RF: arch_rf,
    pub if_id_rf: IF_ID_rf,
    pub id_ex_rf: ID_EX_rf,
    pub ex_mem_rf: EX_MEM_rf,
    pub mem_wb_rf: MEM_WB_RF,
    pub wb_forward_rf: MEM_WB_RF,
    pub pipeline_ctrl: sig_resolver,
    pub agu: AGU_unit,
    pub fmem: cpu_flat_mem,
    pub ext_pause_requested: bool,
    pub ready4ext_sig: bool,
    pub pause_ready_delay_cycles: u64,
    pub resume_ready_delay_cycles: u64,
    pub ext_signal_delay_remaining: u64,
    pub pause_ready_delay_started: bool,
}

/// The state of the external pause/resume handshake.
pub struct ext_sig_state {
    pub requested: bool,
    pub ready: bool,
    pub pause_cycles: u64,
    pub resume_cycles: u64,
    pub remaining: u64,
    pub started: bool,
}

/// The abstract state of the processor.
pub struct cpu_state {
    pub prog: Seq<inst>,
    pub rf: cpu_rf_state,
    pub if_id: IF_ID_rf,
    pub id_ex: ID_EX_rf,
    pub ex_mem: EX_MEM_rf,
    pub mem_wb: MEM_WB_RF,
    pub wb_fwd: MEM_WB_RF,
    pub ctrl: resolver_state,
    pub agu: Map<u8, AGU_entry>,
    pub mem: Map<u32, mem_entry>,
    pub ext: ext_sig_state,
}

impl View for CPU {
    type V = cpu_state;

    open spec fn view(&self) -> cpu_state {
        cpu_state {
            prog: self.imem.prog@,
            rf: self.RF@,
            if_id: self.if_id_rf,
            id_ex: self.id_ex_rf,
            ex_mem: self.ex_mem_rf,
            mem_wb: self.mem_wb_rf,
            wb_fwd: self.wb_forward_rf,
            ctrl: self.pipeline_ctrl@,
            agu: self.agu@,
            mem: self.fmem@,
            ext: ext_sig_state {
                requested: self.ext_pause_requested,
                ready: self.ready4ext_sig,
                pause_cycles: self.pause_ready_delay_cycles,
                resume_cycles: self.resume_ready_delay_cycles,
                remaining: self.ext_signal_delay_remaining,
                started: self.pause_ready_delay_started,
            },
        }
    }
}

/// The processor's registers exist and its controller is well formed.
pub open spec fn cpu_wf(s: cpu_state) -> bool {
    &&& s.rf.v.len() == 8
    &&& s.rf.f.len() == 8
    &&& resolver_wf(s.ctrl)
}

/// What ID produces for latch `l` with registers `rf`.
pub open spec fn cpu_id_spec(l: IF_ID_rf, rf: cpu_rf_state) -> (ID_EX_rf, signal_req, Seq<arch_action>) {
    (
        if l.valid { decode_spec(l.fetched_inst, rf) } else { empty_id_ex() },
        sig(id_spec_sig(l).0, CPU_stages::ID, if id_spec_sig(l).1 { Some(set_IF()) } else { None }),
        id_spec_ops(l),
    )
}

/// While an external pause is requested, a stage's ordinary signal becomes a pause signal
/// and its updates are dropped (IF holds the PC); exceptions and program end go through.
pub open spec fn pause_mask(req: signal_req, ops: Seq<arch_action>, issuer: CPU_stages, requested: bool) -> (signal_req, Seq<arch_action>) {
    if req.sig_reason == signal_reason::exception || req.sig_reason == signal_reason::prog_end || !requested {
        (req, ops)
    } else {
        (
            sig(signal_reason::external_pause, issuer, None),
            if issuer == CPU_stages::IF { seq![arch_action::HoldPC] } else { seq![arch_action::DoNothing] },
        )
    }
}

/// The handshake after a cycle whose arbitration was won by `winner`: a pending delay counts
/// down; a requested pause becomes ready once the pause signal has won and its delay passed.
pub open spec fn ext_update(e: ext_sig_state, winner: Option<signal_reason>) -> ext_sig_state {
    if e.remaining > 0 {
        ext_sig_state { remaining: (e.remaining - 1) as u64, ready: false, ..e }
    } else if e.requested {
        if !e.started && winner != Some(signal_reason::external_pause) {
            ext_sig_state { ready: false, ..e }
        } else {
            let e1 = if !e.started { ext_sig_state { started: true, remaining: e.pause_cycles, ..e } } else { e };
            if e1.remaining > 0 {
                ext_sig_state { remaining: (e1.remaining - 1) as u64, ready: false, ..e1 }
            } else {
                ext_sig_state { ready: true, ..e1 }
            }
        }
    } else {
        ext_sig_state { ready: true, ..e }
    }
}

/// The updates of a stage count only when the stage runs normally.
pub open spec fn kept_ops(d: pipeline_decision, st: CPU_stages, ops: Seq<arch_action>) -> Seq<arch_action> {
    if decision_get(d, st) == pipeline_action::Normal { ops } else { seq![] }
}

/// Some update writes the PC.
pub open spec fn writes_pc(ops: Seq<arch_action>) -> bool {
    exists|i: int| 0 <= i < ops.len() && action_dest(#[trigger] ops[i]) == Some(arch_dest::PC)
}

/// A latch after the cycle given the update rule `a`: advanced to `next`, held, or emptied.
pub open spec fn latched<T>(a: pipeline_action, cur: T, next: T, flushed: T) -> T {
    if a == pipeline_action::Normal {
        next
    } else if a == pipeline_action::Stall {
        cur
    } else {
        flushed
    }
}

/// What the stages produce in one cycle, evaluated from WB back to IF on the current
/// latches: each stage's next latch and updates, the memory after MEM's read, and the
/// controller after every stage submitted its signal (masked while a pause is requested).
pub struct stage_view {
    pub wb_ops: Seq<arch_action>,
    pub mem_next: MEM_WB_RF,
    pub mem_ops: Seq<arch_action>,
    pub mem: Map<u32, mem_entry>,
    pub ex_next: EX_MEM_rf,
    pub ex_ops: Seq<arch_action>,
    pub id_next: ID_EX_rf,
    pub id_ops: Seq<arch_action>,
    pub if_next: IF_ID_rf,
    pub if_ops: Seq<arch_action>,
    pub ctrl: resolver_state,
}

/// The stages' evaluation in one cycle.
pub open spec fn stage_eval(s: cpu_state) -> stage_view {
    let req = s.ext.requested;
    let (wb_sig, wb_ops) = cpu_wb_spec(s.mem_wb);
    let c1 = resolver_state { active: submit_spec(s.ctrl, Some(wb_sig)), ..s.ctrl };
    let (mem_next, mem_sig, mem_ops, m1) = cpu_mem_spec(s.ex_mem, s.mem);
    let c2 = resolver_state { active: submit_spec(c1, Some(mem_sig)), ..c1 };
    let ex = cpu_ex_spec(s.ex_mem, s.mem_wb, s.wb_fwd, s.agu, s.id_ex);
    let (ex_sig, ex_ops) = pause_mask(ex.1, ex.2, CPU_stages::EX, req);
    let c3 = resolver_state { active: submit_spec(c2, Some(ex_sig)), ..c2 };
    let id = cpu_id_spec(s.if_id, s.rf);
    let (id_sig, id_ops) = pause_mask(id.1, id.2, CPU_stages::ID, req);
    let c4 = resolver_state { active: submit_spec(c3, Some(id_sig)), ..c3 };
    let fe = cpu_if_spec(s.rf.pc, s.prog);
    let (if_sig, if_ops) = pause_mask(fe.1, fe.2, CPU_stages::IF, req);
    let c5 = resolver_state { active: submit_spec(c4, Some(if_sig)), ..c4 };
    stage_view {
        wb_ops,
        mem_next,
        mem_ops,
        mem: m1,
        ex_next: ex.0,
        ex_ops,
        id_next: id.0,
        id_ops,
        if_next: fe.0,
        if_ops,
        ctrl: c5,
    }
}

/// The updates applied in a cycle with decision `d`: those of the stages that run normally,
/// WB first; a fetch that does not run holds the PC unless another update writes it.
pub open spec fn gathered_ops(d: pipeline_decision, v: stage_view) -> Seq<arch_action> {
    let collected = kept_ops(d, CPU_stages::WB, v.wb_ops) + kept_ops(d, CPU_stages::MEM, v.mem_ops) + kept_ops(
        d,
        CPU_stages::EX,
        v.ex_ops,
    ) + kept_ops(d, CPU_stages::ID, v.id_ops) + kept_ops(d, CPU_stages::IF, v.if_ops);
    if decision_get(d, CPU_stages::IF) != pipeline_action::Normal && !writes_pc(collected) {
        collected.push(arch_action::HoldPC)
    } else {
        collected
    }
}

/// The latches after a cycle with decision `d`: each advances, holds or flushes by the rule
/// of its two stages; the forwarding copy of MEM/WB follows every valid result written back.
pub open spec fn latches_after(s: cpu_state, d: pipeline_decision, v: stage_view) -> cpu_state {
    let a_mw = latch_action_spec(decision_get(d, CPU_stages::MEM), decision_get(d, CPU_stages::WB));
    let a_em = latch_action_spec(decision_get(d, CPU_stages::EX), decision_get(d, CPU_stages::MEM));
    let a_ie = latch_action_spec(decision_get(d, CPU_stages::ID), decision_get(d, CPU_stages::EX));
    let a_fi = latch_action_spec(decision_get(d, CPU_stages::IF), decision_get(d, CPU_stages::ID));
    cpu_state {
        mem_wb: latched(a_mw, s.mem_wb, v.mem_next, MEM_WB_RF { valid: false, ..s.mem_wb }),
        wb_fwd: if a_mw == pipeline_action::Normal && v.mem_next.valid { v.mem_next } else { s.wb_fwd },
        ex_mem: latched(a_em, s.ex_mem, v.ex_next, EX_MEM_rf { valid: false, ..s.ex_mem }),
        id_ex: latched(a_ie, s.id_ex, v.id_next, ID_EX_rf { valid: false, ..s.id_ex }),
        if_id: latched(a_fi, s.if_id, v.if_next, IF_ID_rf { valid: false, ..s.if_id }),
        ..s
    }
}

/// One cycle of the processor: the stages evaluate, the controller decides every stage's
/// action, the updates of the stages that run normally are applied, the handshake moves on,
/// and the latches advance. Returns the next state and the applied updates.
pub open spec fn cpu_cycle(s: cpu_state) -> (cpu_state, Seq<arch_action>) {
    let v = stage_eval(s);
    let (d, active1, last1, port1) = collect_spec(v.ctrl);
    let ops = gathered_ops(d, v);
    let (rf1, m2) = arch_update_spec(s.rf, v.mem, ops);
    let s1 = cpu_state {
        rf: rf1,
        mem: m2,
        ctrl: resolver_state { active: retire_spec(active1), last: last1, port: port1, ..v.ctrl },
        ext: ext_update(s.ext, last1),
        ..s
    };
    (latches_after(s1, d, v), ops)
}

/// The next state of the processor.
pub open spec fn cpu_step(s: cpu_state) -> cpu_state {
    cpu_cycle(s).0
}

/// ID can read its operands and EX does not overflow: the stages of a cycle can run.
pub open spec fn stages_can_run(s: cpu_state) -> bool {
    &&& s.if_id.valid ==> id_inst_ok(s.if_id.fetched_inst, s.rf)
    &&& cpu_ex_ok(s.ex_mem, s.mem_wb, s.wb_fwd, s.agu, s.id_ex)
}

/// A cycle whose updates cannot be committed: the stages' memory reads and the controller's
/// arbitration stand, and registers, latches and the pause handshake stay as they were.
pub open spec fn refused_cycle(s: cpu_state) -> cpu_state {
    let v = stage_eval(s);
    let (d, active1, last1, port1) = collect_spec(v.ctrl);
    cpu_state { mem: v.mem, ctrl: resolver_state { active: retire_spec(active1), last: last1, port: port1, ..v.ctrl }, ..s }
}

/// The processor can run a cycle without a panic: ID can read its operands, EX does not
/// overflow, and the cycle's updates write distinct locations and existing registers.
pub open spec fn cpu_tick_ok(s: cpu_state) -> bool {
    &&& cpu_wf(s)
    &&& s.if_id.valid ==> id_inst_ok(s.if_id.fetched_inst, s.rf)
    &&& cpu_ex_ok(s.ex_mem, s.mem_wb, s.wb_fwd, s.agu, s.id_ex)
    &&& cpu_dests_distinct(cpu_cycle(s).1)
    &&& cpu_regs_ok(cpu_cycle(s).1)
}

/// The controller templates of the processor, in registration order.
pub open spec fn cpu_menu() -> Seq<(u8, fsm_slot)> {
    seq![
        (0u8, fsm_slot::Jump(ID_jump_FSM { state: crate::cpu::ID::ID_jump_FSG_states::FLUSH, state_next: crate::cpu::ID::ID_jump_FSG_states::IDLE })),
        (5u8, fsm_slot::ProgEnd(EX_stop_FSM { state: crate::cpu::EX::EX_stop_FSM_states::Drain_WB })),
        (4u8, fsm_slot::Exception(ExceptionDrain_FSM { state: crate::cpu::EX::ExceptionDrainState::Drain_WB })),
        (2u8, fsm_slot::MemBlock { state: crate::cpu::MEM::MEM_stop_FSM_states::Submit, req: None }),
        (3u8, fsm_slot::Pause(ExternalPause_FSM)),
        (1u8, fsm_slot::Hazard(RAW_resolution_FSM { state: crate::cpu::EX::RAW_resolution_FSM_state::InsertBubble })),
    ]
}

/// A processor just built: empty program and latches, zeroed registers, no AGU entries, empty
/// memory, the controller with its templates, and the handshake ready with no delays.
pub open spec fn cpu_built(s: cpu_state) -> bool {
    &&& s.prog == Seq::<inst>::empty()
    &&& s.rf.pc == 0
    &&& forall|i: int| 0 <= i < 8 ==> #[trigger] s.rf.v[i] == [0u32, 0, 0, 0]
    &&& forall|i: int| 0 <= i < 8 ==> #[trigger] s.rf.f[i] is None
    &&& !s.if_id.valid && !s.id_ex.valid && !s.ex_mem.valid && !s.mem_wb.valid && !s.wb_fwd.valid
    &&& s.ctrl.menu == cpu_menu()
    &&& s.ctrl.active == Seq::<crate::cpu::signal_scoreboard::active_signal>::empty()
    &&& s.ctrl.last == None::<signal_reason>
    &&& s.agu == Map::<u8, AGU_entry>::empty()
    &&& s.mem == Map::<u32, mem_entry>::empty()
    &&& s.ext == (ext_sig_state { requested: false, ready: true, pause_cycles: 0, resume_cycles: 0, remaining: 0, started: false })
    &&& cpu_wf(s)
}

fn append_kept(dst: &mut Vec<arch_action>, d: &pipeline_decision, st: CPU_stages, ops: &Vec<arch_action>)
    ensures
        final(dst)@ == old(dst)@ + kept_ops(*d, st, ops@),
{
    if d.get(st) == pipeline_action::Normal {
        let mut i: usize = 0;
        while i < ops.len()
            invariant
                i <= ops@.len(),
                dst@ == old(dst)@ + ops@.subrange(0, i as int),
            decreases ops@.len() - i,
        {
            dst.push(ops[i]);
            i = i + 1;
            assert(dst@ =~= old(dst)@ + ops@.subrange(0, i as int));
        }
        assert(ops@.subrange(0, ops@.len() as int) =~= ops@);
    } else {
        assert(old(dst)@ + kept_ops(*d, st, ops@) =~= old(dst)@);
    }
}

fn has_pc_write(ops: &Vec<arch_action>) -> (r: bool)
    ensures
        r == writes_pc(ops@),
{
    let mut i: usize = 0;
    while i < ops.len()
        invariant
            i <= ops@.len(),
            forall|j: int| 0 <= j < i ==> action_dest(#[trigger] ops@[j]) != Some(arch_dest::PC),
        decreases ops@.len() - i,
    {
        match ops[i].dest() {
            Some(arch_dest::PC) => {
                return true;
            },
            _ => {},
        }
        i = i + 1;
    }
    false
}

impl CPU {
    fn build(mem_stop_fsm: MEM_stop_FSM) -> (r: Self)
        requires
            mem_stop_fsm.state == crate::cpu::MEM::MEM_stop_FSM_states::Submit,
            mem_stop_fsm.req == None::<crate::memory::mem_portal::dram_req>,
        ensures
            cpu_built(r@),
            r@.ctrl.port == crate::cpu::MEM::port_view(mem_stop_fsm.dram_port),
    {
        let ghost full = cpu_menu();
        let mut pipeline_ctrl = sig_resolver::new();
        pipeline_ctrl.add_new_fsm(signal_reason::jump_resolution, fsm_slot::Jump(ID_jump_FSM::new()));
        assert(pipeline_ctrl@.menu =~= full.take(1));
        pipeline_ctrl.add_new_fsm(signal_reason::prog_end, fsm_slot::ProgEnd(EX_stop_FSM::new()));
        assert(pipeline_ctrl@.menu =~= full.take(2));
        pipeline_ctrl.add_new_fsm(signal_reason::exception, fsm_slot::Exception(ExceptionDrain_FSM::new()));
        assert(pipeline_ctrl@.menu =~= full.take(3));
        pipeline_ctrl.add_mem_fsm(mem_stop_fsm);
        assert(pipeline_ctrl@.menu =~= full.take(4));
        pipeline_ctrl.add_new_fsm(signal_reason::external_pause, fsm_slot::Pause(ExternalPause_FSM::new()));
        assert(pipeline_ctrl@.menu =~= full.take(5));
        pipeline_ctrl.add_new_fsm(signal_reason::RAW_resolution, fsm_slot::Hazard(RAW_resolution_FSM::new()));
        assert(pipeline_ctrl@.menu =~= full);
        Self {
            imem: IMEM::new(),
            RF: arch_rf::new(),
            if_id_rf: IF_ID_rf::new(),
            id_ex_rf: ID_EX_rf::new(),
            ex_mem_rf: EX_MEM_rf::new(),
            mem_wb_rf: MEM_WB_RF::new(),
            wb_forward_rf: MEM_WB_RF::new(),
            pipeline_ctrl,
            agu: AGU_unit::new(),
            fmem: cpu_flat_mem::new(),
            ext_pause_requested: false,
            ready4ext_sig: true,
            pause_ready_delay_cycles: 0,
            resume_ready_delay_cycles: 0,
            ext_signal_delay_remaining: 0,
            pause_ready_delay_started: false,
        }
    }

    /// A processor without a DRAM timing model: memory accesses complete at once.
    pub fn new() -> (r: Self)
        ensures
            cpu_built(r@),
            r@.ctrl.port == None::<crate::memory::mem_portal::portal_state>,
    {
        Self::build(MEM_stop_FSM::new())
    }

    /// A processor whose memory accesses are timed through `dram_port`.
    pub fn new_with_dram_port(dram_port: dram_portal) -> (r: Self)
        ensures
            cpu_built(r@),
            r@.ctrl.port == Some(dram_port@),
    {
        Self::build(MEM_stop_FSM::new_with_dram_port(dram_port))
    }

    pub fn get_RF(&mut self) -> (r: &mut arch_rf)
        ensures
            *r == old(self).RF,
            final(self)@ == (cpu_state { rf: final(r)@, ..old(self)@ }),
    {
        &mut self.RF
    }

    pub fn get_fmem(&mut self) -> (r: &mut cpu_flat_mem)
        ensures
            *r == old(self).fmem,
            final(self)@ == (cpu_state { mem: final(r)@, ..old(self)@ }),
    {
        &mut self.fmem
    }

    pub fn get_imem(&mut self) -> (r: &mut IMEM)
        ensures
            *r == old(self).imem,
            final(self)@ == (cpu_state { prog: final(r).prog@, ..old(self)@ }),
    {
        &mut self.imem
    }

    pub fn get_agu(&mut self) -> (r: &mut AGU_unit)
        ensures
            *r == old(self).agu,
            final(self)@ == (cpu_state { agu: final(r)@, ..old(self)@ }),
    {
        &mut self.agu
    }

    /// Requests an external pause: the handshake is no longer ready until the pause has
    /// taken hold.
    pub fn signal_pause(&mut self)
        ensures
            final(self)@ == (cpu_state {
                ext: ext_sig_state { requested: true, ready: false, started: false, remaining: 0, ..old(self)@.ext },
                ..old(self)@
            }),
    {
        self.ext_pause_requested = true;
        self.ready4ext_sig = false;
        self.pause_ready_delay_started = false;
        self.ext_signal_delay_remaining = 0;
    }

    /// Ends an external pause: the pause signal is dropped and the handshake is ready again
    /// after the resume delay.
    pub fn signal_resume(&mut self)
        requires
            resolver_wf(old(self)@.ctrl),
        ensures
            final(self)@ == (cpu_state {
                ext: ext_sig_state {
                    requested: false,
                    started: false,
                    remaining: old(self)@.ext.resume_cycles,
                    ready: old(self)@.ext.resume_cycles == 0,
                    ..old(self)@.ext
                },
                ctrl: final(self)@.ctrl,
                ..old(self)@
            }),
            final(self)@.ctrl.active == crate::cpu::signal_scoreboard::cleared_spec(old(self)@.ctrl.active, signal_reason::external_pause),
            final(self)@.ctrl.last == (if old(self)@.ctrl.last == Some(signal_reason::external_pause) {
                None
            } else {
                old(self)@.ctrl.last
            }),
            final(self)@.ctrl.menu == old(self)@.ctrl.menu,
            final(self)@.ctrl.port == old(self)@.ctrl.port,
            resolver_wf(final(self)@.ctrl),
    {
        self.ext_pause_requested = false;
        self.pause_ready_delay_started = false;
        self.ext_signal_delay_remaining = self.resume_ready_delay_cycles;
        self.ready4ext_sig = self.resume_ready_delay_cycles == 0;
        self.pipeline_ctrl.clear_active_signal(signal_reason::external_pause);
    }

    /// Sets how many cycles the handshake waits after a pause takes hold and after a resume.
    pub fn set_external_signal_delays(&mut self, pause_cycles: u64, resume_cycles: u64)
        ensures
            final(self)@ == (cpu_state {
                ext: ext_sig_state { pause_cycles, resume_cycles, ..old(self)@.ext },
                ..old(self)@
            }),
    {
        self.pause_ready_delay_cycles = pause_cycles;
        self.resume_ready_delay_cycles = resume_cycles;
    }

    /// Whether the processor is ready for the next external signal.
    pub fn ready4signal(&self) -> (r: bool)
        ensures
            r == self@.ext.ready,
    {
        self.ready4ext_sig
    }

    fn update_extsig_rdy(&mut self, winner_reason: Option<signal_reason>)
        ensures
            final(self)@ == (cpu_state { ext: ext_update(old(self)@.ext, winner_reason), ..old(self)@ }),
    {
        if self.ext_signal_delay_remaining > 0 {
            self.ext_signal_delay_remaining = self.ext_signal_delay_remaining - 1;
            self.ready4ext_sig = false;
            return;
        }
        if self.ext_pause_requested {
            if !self.pause_ready_delay_started {
                let pause_won = match winner_reason {
                    Some(signal_reason::external_pause) => true,
                    _ => false,
                };
                if pause_won {
                    self.pause_ready_delay_started = true;
                    self.ext_signal_delay_remaining = self.pause_ready_delay_cycles;
                } else {
                    self.ready4ext_sig = false;
                    return;
                }
            }
            if self.ext_signal_delay_remaining > 0 {
                self.ext_signal_delay_remaining = self.ext_signal_delay_remaining - 1;
                self.ready4ext_sig = false;
            } else {
                self.ready4ext_sig = true;
            }
        } else {
            self.ready4ext_sig = true;
        }
    }

    fn maybe_pause_stage_result(&self, sig_req: signal_req, arch_ops: Vec<arch_action>, issuer: CPU_stages) -> (r: (signal_req, Vec<arch_action>))
        ensures
            (r.0, r.1@) == pause_mask(sig_req, arch_ops@, issuer, self.ext_pause_requested),
    {
        match sig_req.get_reason() {
            signal_reason::exception | signal_reason::prog_end => (sig_req, arch_ops),
            _ => {
                if self.ext_pause_requested {
                    let mut masked: Vec<arch_action> = Vec::new();
                    match issuer {
                        CPU_stages::IF => masked.push(arch_action::HoldPC),
                        _ => masked.push(arch_action::DoNothing),
                    }
                    proof {
                        if issuer == CPU_stages::IF {
                            assert(masked@ =~= seq![arch_action::HoldPC]);
                        } else {
                            assert(masked@ =~= seq![arch_action::DoNothing]);
                        }
                    }
                    (signal_req::new(signal_reason::external_pause, issuer, None), masked)
                } else {
                    (sig_req, arch_ops)
                }
            },
        }
    }

    fn run_stages(&mut self) -> (r: stage_results)
        requires
            cpu_wf(old(self)@),
            old(self)@.if_id.valid ==> id_inst_ok(old(self)@.if_id.fetched_inst, old(self)@.rf),
            cpu_ex_ok(old(self)@.ex_mem, old(self)@.mem_wb, old(self)@.wb_fwd, old(self)@.agu, old(self)@.id_ex),
        ensures
            results_match(r, stage_eval(old(self)@)),
            final(self)@ == (cpu_state { mem: stage_eval(old(self)@).mem, ctrl: stage_eval(old(self)@).ctrl, ..old(self)@ }),
            resolver_wf(final(self)@.ctrl),
    {
        let (_, wb_sigreq, wb_ops) = CPU::eval_WB(&self.mem_wb_rf);
        self.pipeline_ctrl.submit_signal(Some(wb_sigreq));

        let ex_mem = self.ex_mem_rf;
        let (mem_next, mem_sigreq, mem_ops) = CPU::eval_MEM(&ex_mem, &mut self.fmem);
        self.pipeline_ctrl.submit_signal(Some(mem_sigreq));

        let id_ex = self.id_ex_rf;
        let (ex_next, ex_sigreq, ex_ops) = self.eval_EX(&id_ex);
        let (ex_sigreq, ex_ops) = self.maybe_pause_stage_result(ex_sigreq, ex_ops, CPU_stages::EX);
        self.pipeline_ctrl.submit_signal(Some(ex_sigreq));

        let if_id = self.if_id_rf;
        let (id_next, id_sigreq, id_ops) = self.eval_ID(&if_id, &self.RF);
        let (id_sigreq, id_ops) = self.maybe_pause_stage_result(id_sigreq, id_ops, CPU_stages::ID);
        self.pipeline_ctrl.submit_signal(Some(id_sigreq));

        let (if_next, if_sigreq, if_ops) = self.eval_IF(&self.RF, &self.imem);
        let (if_sigreq, if_ops) = self.maybe_pause_stage_result(if_sigreq, if_ops, CPU_stages::IF);
        self.pipeline_ctrl.submit_signal(Some(if_sigreq));

        stage_results { wb_ops, mem_next, mem_ops, ex_next, ex_ops, id_next, id_ops, if_next, if_ops }
    }

    fn advance_latches(&mut self, d: &pipeline_decision, r: &stage_results)
        ensures
            final(self)@ == latches_after(old(self)@, *d, results_view(*r, old(self)@.mem, old(self)@.ctrl)),
    {
        match latch_action(d.get(CPU_stages::MEM), d.get(CPU_stages::WB)) {
            pipeline_action::Normal => {
                self.mem_wb_rf = r.mem_next;
                if self.mem_wb_rf.is_valid() {
                    self.wb_forward_rf = self.mem_wb_rf;
                }
            },
            pipeline_action::Stall => {},
            pipeline_action::Flush | pipeline_action::END => self.mem_wb_rf.invalidate(),
        }
        match latch_action(d.get(CPU_stages::EX), d.get(CPU_stages::MEM)) {
            pipeline_action::Normal => self.ex_mem_rf = r.ex_next,
            pipeline_action::Stall => {},
            pipeline_action::Flush | pipeline_action::END => self.ex_mem_rf.invalidate(),
        }
        match latch_action(d.get(CPU_stages::ID), d.get(CPU_stages::EX)) {
            pipeline_action::Normal => self.id_ex_rf = r.id_next,
            pipeline_action::Stall => {},
            pipeline_action::Flush | pipeline_action::END => self.id_ex_rf.invalidate(),
        }
        match latch_action(d.get(CPU_stages::IF), d.get(CPU_stages::ID)) {
            pipeline_action::Normal => self.if_id_rf = r.if_next,
            pipeline_action::Stall => {},
            pipeline_action::Flush | pipeline_action::END => self.if_id_rf.invalidate(),
        }
    }

    /// Runs one clock cycle of the pipeline.
    pub fn tick(&mut self)
        requires
            cpu_tick_ok(old(self)@),
        ensures
            final(self)@ == cpu_step(old(self)@),
            cpu_wf(final(self)@),
    {
        let ghost s0 = self@;
        let r = self.run_stages();
        let ghost v = stage_eval(s0);
        let pipeline_op = self.pipeline_ctrl.get_decision();
        let winner_reason = self.pipeline_ctrl.last_winner_reason();
        self.update_extsig_rdy(winner_reason);

        let mut arch_ops: Vec<arch_action> = Vec::new();
        append_kept(&mut arch_ops, &pipeline_op, CPU_stages::WB, &r.wb_ops);
        append_kept(&mut arch_ops, &pipeline_op, CPU_stages::MEM, &r.mem_ops);
        append_kept(&mut arch_ops, &pipeline_op, CPU_stages::EX, &r.ex_ops);
        append_kept(&mut arch_ops, &pipeline_op, CPU_stages::ID, &r.id_ops);
        append_kept(&mut arch_ops, &pipeline_op, CPU_stages::IF, &r.if_ops);
        if pipeline_op.get(CPU_stages::IF) != pipeline_action::Normal && !has_pc_write(&arch_ops) {
            arch_ops.push(arch_action::HoldPC);
        }
        assert(arch_ops@ =~= gathered_ops(pipeline_op, v));
        self.arch_update(arch_ops);
        let ghost s1 = self@;
        self.advance_latches(&pipeline_op, &r);
        proof {
            assert(results_view(r, v.mem, v.ctrl) == v);
        }
    }

    /// Runs one clock cycle when it can run without a panic (see `cpu_tick_ok`) and says
    /// whether it did. When ID cannot read an operand or EX would overflow, nothing changes;
    /// when the cycle's updates would write one location twice or a register that does not
    /// exist, the stages' memory reads and the controller's arbitration stand (see
    /// `refused_cycle`) and nothing is committed.
    pub fn try_tick(&mut self) -> (r: bool)
        requires
            cpu_wf(old(self)@),
        ensures
            r == cpu_tick_ok(old(self)@),
            r ==> final(self)@ == cpu_step(old(self)@),
            !r && !stages_can_run(old(self)@) ==> final(self)@ == old(self)@,
            !r && stages_can_run(old(self)@) ==> final(self)@ == refused_cycle(old(self)@),
            cpu_wf(final(self)@),
    {
        if !self.id_can_decode() || !self.ex_can_execute() {
            return false;
        }
        let ghost s0 = self@;
        let r = self.run_stages();
        let ghost v = stage_eval(s0);
        let pipeline_op = self.pipeline_ctrl.get_decision();
        let mut arch_ops: Vec<arch_action> = Vec::new();
        append_kept(&mut arch_ops, &pipeline_op, CPU_stages::WB, &r.wb_ops);
        append_kept(&mut arch_ops, &pipeline_op, CPU_stages::MEM, &r.mem_ops);
        append_kept(&mut arch_ops, &pipeline_op, CPU_stages::EX, &r.ex_ops);
        append_kept(&mut arch_ops, &pipeline_op, CPU_stages::ID, &r.id_ops);
        append_kept(&mut arch_ops, &pipeline_op, CPU_stages::IF, &r.if_ops);
        if pipeline_op.get(CPU_stages::IF) != pipeline_action::Normal && !has_pc_write(&arch_ops) {
            arch_ops.push(arch_action::HoldPC);
        }
        assert(arch_ops@ =~= gathered_ops(pipeline_op, v));
        if !crate::cpu::tick_check::ops_ok(&arch_ops) {
            proof {
                assert(self@ =~= refused_cycle(s0));
            }
            return false;
        }
        let winner_reason = self.pipeline_ctrl.last_winner_reason();
        self.update_extsig_rdy(winner_reason);
        self.arch_update(arch_ops);
        self.advance_latches(&pipeline_op, &r);
        proof {
            assert(results_view(r, v.mem, v.ctrl) == v);
        }
        true
    }
}

/// The exec results of the stages in one cycle.
pub struct stage_results {
    pub wb_ops: Vec<arch_action>,
    pub mem_next: MEM_WB_RF,
    pub mem_ops: Vec<arch_action>,
    pub ex_next: EX_MEM_rf,
    pub ex_ops: Vec<arch_action>,
    pub id_next: ID_EX_rf,
    pub id_ops: Vec<arch_action>,
    pub if_next: IF_ID_rf,
    pub if_ops: Vec<arch_action>,
}

/// The stage results with the memory and controller they left.
pub open spec fn results_view(r: stage_results, m: Map<u32, mem_entry>, c: resolver_state) -> stage_view {
    stage_view {
        wb_ops: r.wb_ops@,
        mem_next: r.mem_next,
        mem_ops: r.mem_ops@,
        mem: m,
        ex_next: r.ex_next,
        ex_ops: r.ex_ops@,
        id_next: r.id_next,
        id_ops: r.id_ops@,
        if_next: r.if_next,
        if_ops: r.if_ops@,
        ctrl: c,
    }
}

/// The exec results agree with the stages' evaluation.
pub open spec fn results_match(r: stage_results, v: stage_view) -> bool {
    results_view(r, v.mem, v.ctrl) == v
}

/// A requested pause holds the pipeline but never hides an exception or the end of the
/// program: those signals and their updates pass unchanged; any other signal becomes a pause
/// signal of its stage, IF holding the PC and the other stages updating nothing.
pub proof fn lemma_pause_mask(req: signal_req, ops: Seq<arch_action>, issuer: CPU_stages)
    ensures
        (req.sig_reason == signal_reason::exception || req.sig_reason == signal_reason::prog_end)
            ==> pause_mask(req, ops, issuer, true) == (req, ops),
        pause_mask(req, ops, issuer, false) == (req, ops),
        !(req.sig_reason == signal_reason::exception || req.sig_reason == signal_reason::prog_end)
            ==> pause_mask(req, ops, issuer, true).0 == sig(signal_reason::external_pause, issuer, None),
        issuer == CPU_stages::IF && !(req.sig_reason == signal_reason::exception || req.sig_reason
            == signal_reason::prog_end) ==> pause_mask(req, ops, issuer, true).1 == seq![arch_action::HoldPC],
{
}

/// The pause handshake: a pending delay counts down with the handshake not ready; a requested
/// pause is not ready before the pause signal has won arbitration; without a request and
/// without a delay the handshake is ready.
pub proof fn lemma_pause_handshake(e: ext_sig_state, winner: Option<signal_reason>)
    ensures
        e.remaining > 0 ==> !ext_update(e, winner).ready && ext_update(e, winner).remaining == e.remaining - 1,
        e.remaining == 0 && e.requested && !e.started && winner != Some(signal_reason::external_pause)
            ==> !ext_update(e, winner).ready,
        e.remaining == 0 && !e.requested ==> ext_update(e, winner).ready,
        e.remaining == 0 && e.requested && !e.started && winner == Some(signal_reason::external_pause)
            ==> ext_update(e, winner).started && (ext_update(e, winner).ready <==> e.pause_cycles == 0),
{
}

} // verus!
