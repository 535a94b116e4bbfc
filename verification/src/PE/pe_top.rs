use vstd::prelude::*;
use crate::PE::ALU::mac_fits;
use crate::PE::EX::{
    EX_WB_RF, PE_MEM_stop_FSM, ex_ok, ex_spec, pe_fsm_decide, pe_fsm_state, bypass_aluop_spec,
};
use crate::PE::ISSUE::{ISSUE_EX_RF, empty_issue_ex, issue_spec, pe_inst_ok};
use crate::PE::RF::{arch_rf, pe_rf_state, with_sreg, with_vreg};
use crate::PE::types::{ALUop, WBop, arch_action, inst};
use crate::cpu::signal_scoreboard::{latch_action, latch_action_spec, pipeline_action};
use crate::memory::flat_memory::{
    mem_entry, mem_write, pe_flat_mem, pe_scalar_write, pe_vector_write, MemEntryData,
};
use crate::memory::mem_portal::{dram_portal, dram_req};
use std::collections::VecDeque;

verus! {

/// A two-stage (ISSUE, EX) processing element that executes instructions pushed by the host.
pub struct PE {
    pub imem: VecDeque<(inst, Option<dram_req>)>,
    pub completed_reqs: VecDeque<dram_req>,
    pub fetch_next_allowed: bool,
    pub finished: bool,
    pub issue_ex_rf: ISSUE_EX_RF,
    pub ex_wb_forward_rf: EX_WB_RF,
    pub Arf: arch_rf,
    pub fmem: pe_flat_mem,
    pub mem_stop_fsm: PE_MEM_stop_FSM,
}

/// The abstract state of a PE.
pub struct pe_state {
    pub imem: Seq<(inst, Option<dram_req>)>,
    pub completed: Seq<dram_req>,
    pub fetch_next_allowed: bool,
    pub finished: bool,
    pub issue: ISSUE_EX_RF,
    pub fwd: EX_WB_RF,
    pub rf: pe_rf_state,
    pub mem: Map<u32, mem_entry>,
    pub fsm: pe_fsm_state,
}

impl View for PE {
    type V = pe_state;

    open spec fn view(&self) -> pe_state {
        pe_state {
            imem: self.imem@,
            completed: self.completed_reqs@,
            fetch_next_allowed: self.fetch_next_allowed,
            finished: self.finished,
            issue: self.issue_ex_rf,
            fwd: self.ex_wb_forward_rf,
            rf: self.Arf@,
            mem: self.fmem@,
            fsm: self.mem_stop_fsm@,
        }
    }
}

/// The registers a latched writeback names exist.
pub open spec fn latch_ok(l: ISSUE_EX_RF) -> bool {
    match l.wbop {
        WBop::VWrite { vRD } => vRD < 16,
        WBop::SWrite { sRD } => sRD < 8,
        WBop::NOP => true,
    }
}

/// Every queued instruction names existing registers and so does the ISSUE/EX latch.
pub open spec fn pe_wf(s: pe_state) -> bool {
    &&& forall|i: int| 0 <= i < s.imem.len() ==> pe_inst_ok(#[trigger] s.imem[i].0)
    &&& latch_ok(s.issue)
    &&& s.rf.v.len() == 16
    &&& s.rf.s.len() == 8
}

/// One architectural update applied to registers and memory. Memory writes that meet an
/// entry of another type leave it unchanged.
pub open spec fn apply_pe_action(rf: pe_rf_state, m: Map<u32, mem_entry>, a: arch_action) -> (pe_rf_state, Map<u32, mem_entry>) {
    match a {
        arch_action::WriteVRF { vRD, content } => (with_vreg(rf, vRD, content), m),
        arch_action::WriteSRF { sRD, content } => (with_sreg(rf, sRD, content), m),
        arch_action::WriteMEM_V { addr, content } => (
            rf,
            mem_write(m, addr, MemEntryData::PE_Vector(content), |d: MemEntryData| pe_vector_write(d, content)).1,
        ),
        arch_action::WriteMEM_S { addr, content } => (
            rf,
            mem_write(m, addr, MemEntryData::PE_Scalar(content), |d: MemEntryData| pe_scalar_write(d, content)).1,
        ),
        arch_action::DoNothing => (rf, m),
    }
}

/// A sequence of architectural updates applied in order.
pub open spec fn apply_pe_actions(rf: pe_rf_state, m: Map<u32, mem_entry>, ops: Seq<arch_action>) -> (pe_rf_state, Map<u32, mem_entry>)
    decreases ops.len(),
{
    if ops.len() == 0 {
        (rf, m)
    } else {
        let (rf1, m1) = apply_pe_actions(rf, m, ops.drop_last());
        apply_pe_action(rf1, m1, ops.last())
    }
}

/// No two updates write the same architectural location.
pub open spec fn dests_distinct(ops: Seq<arch_action>) -> bool {
    forall|i: int, j: int|
        0 <= i < j < ops.len() && (#[trigger] crate::PE::types::action_dest(ops[i])) is Some
            ==> crate::PE::types::action_dest(ops[i]) != #[trigger] crate::PE::types::action_dest(ops[j])
}

/// Every register an update writes exists.
pub open spec fn action_regs_ok(ops: Seq<arch_action>) -> bool {
    forall|i: int| 0 <= i < ops.len() ==> match #[trigger] ops[i] {
        arch_action::WriteVRF { vRD, .. } => vRD < 16,
        arch_action::WriteSRF { sRD, .. } => sRD < 8,
        _ => true,
    }
}

/// Fetching from the host queue: one instruction when a fetch was granted, and the grant
/// is used up either way.
pub open spec fn pe_fetch(s: pe_state) -> (Option<(inst, Option<dram_req>)>, Seq<(inst, Option<dram_req>)>, bool) {
    if s.fetch_next_allowed && s.imem.len() > 0 {
        (Some(s.imem[0]), s.imem.drop_first(), false)
    } else {
        (None, s.imem, false)
    }
}

/// One clock cycle of the PE. EX executes the ISSUE/EX latch; the memory-stall controller
/// decides both stages' actions; when EX runs normally its updates commit (the latched
/// instruction finishes and its host request completes) and its result becomes the
/// forwarding latch; then the ISSUE/EX latch advances (fetching one granted instruction,
/// reading the registers just committed), holds, or is flushed.
pub open spec fn pe_step(s: pe_state) -> pe_state {
    let (exwb, sig, ops, m1) = ex_spec(s.fwd, s.issue, s.mem);
    let (acts, fsm1) = pe_fsm_decide(s.fsm, sig);
    let ex_normal = acts.ex == pipeline_action::Normal;
    let (rf1, m2) = if ex_normal { apply_pe_actions(s.rf, m1, ops) } else { (s.rf, m1) };
    let commits = ex_normal && s.issue.valid;
    let finished1 = if commits { true } else { s.finished };
    let completed1 = if commits && s.issue.sim_req is Some {
        s.completed.push(s.issue.sim_req->Some_0)
    } else {
        s.completed
    };
    let fwd1 = if ex_normal && exwb.valid { exwb } else { s.fwd };
    let base = pe_state {
        completed: completed1,
        finished: finished1,
        fwd: fwd1,
        rf: rf1,
        mem: m2,
        fsm: fsm1,
        ..s
    };
    match latch_action_spec(acts.issue, acts.ex) {
        pipeline_action::Normal => {
            let (inp, imem1, allowed1) = pe_fetch(s);
            pe_state { imem: imem1, fetch_next_allowed: allowed1, issue: issue_spec(inp, rf1), ..base }
        },
        pipeline_action::Stall => base,
        _ => pe_state { issue: empty_issue_ex(), ..base },
    }
}

impl PE {
    /// A PE whose memory accesses complete without DRAM timing.
    pub fn new() -> (r: Self)
        ensures
            r@.imem.len() == 0,
            r@.completed.len() == 0,
            !r@.fetch_next_allowed,
            !r@.finished,
            r@.issue == empty_issue_ex(),
            r@.fwd == crate::PE::EX::empty_ex_wb(),
            r@.mem == Map::<u32, mem_entry>::empty(),
            r@.fsm.port is None,
            r@.fsm.state == crate::PE::EX::PE_MEM_stop_FSM_states::Idle,
            forall|i: int| 0 <= i < 16 ==> #[trigger] r@.rf.v[i] == crate::memory::flat_memory::zero_vector(),
            forall|i: int| 0 <= i < 8 ==> #[trigger] r@.rf.s[i] == 0,
            pe_wf(r@),
    {
        Self {
            imem: VecDeque::new(),
            completed_reqs: VecDeque::new(),
            fetch_next_allowed: false,
            finished: false,
            issue_ex_rf: ISSUE_EX_RF::new(),
            ex_wb_forward_rf: EX_WB_RF::new(),
            Arf: arch_rf::new(),
            fmem: pe_flat_mem::new(),
            mem_stop_fsm: PE_MEM_stop_FSM::new(),
        }
    }

    /// A PE whose memory accesses are timed through `dram_port`.
    pub fn new_with_dram_port(dram_port: dram_portal) -> (r: Self)
        ensures
            r@.imem.len() == 0,
            r@.completed.len() == 0,
            !r@.fetch_next_allowed,
            !r@.finished,
            r@.issue == empty_issue_ex(),
            r@.fwd == crate::PE::EX::empty_ex_wb(),
            r@.mem == Map::<u32, mem_entry>::empty(),
            r@.fsm.port == Some(dram_port@),
            r@.fsm.state == crate::PE::EX::PE_MEM_stop_FSM_states::Idle,
            forall|i: int| 0 <= i < 16 ==> #[trigger] r@.rf.v[i] == crate::memory::flat_memory::zero_vector(),
            forall|i: int| 0 <= i < 8 ==> #[trigger] r@.rf.s[i] == 0,
            pe_wf(r@),
    {
        Self {
            imem: VecDeque::new(),
            completed_reqs: VecDeque::new(),
            fetch_next_allowed: false,
            finished: false,
            issue_ex_rf: ISSUE_EX_RF::new(),
            ex_wb_forward_rf: EX_WB_RF::new(),
            Arf: arch_rf::new(),
            fmem: pe_flat_mem::new(),
            mem_stop_fsm: PE_MEM_stop_FSM::new_with_dram_port(dram_port),
        }
    }

    /// Queues an instruction from the host.
    pub fn push_host_inst(&mut self, host_inst: inst)
        requires
            pe_inst_ok(host_inst),
            pe_wf(old(self)@),
        ensures
            final(self)@ == (pe_state { imem: old(self)@.imem.push((host_inst, None)), ..old(self)@ }),
            pe_wf(final(self)@),
    {
        self.imem.push_back((host_inst, None));
    }

    /// Queues an instruction from the host together with the host request that carried it;
    /// the request completes when the instruction does.
    pub fn push_host_req(&mut self, req: dram_req, host_inst: inst)
        requires
            pe_inst_ok(host_inst),
            pe_wf(old(self)@),
        ensures
            final(self)@ == (pe_state { imem: old(self)@.imem.push((host_inst, Some(req))), ..old(self)@ }),
            pe_wf(final(self)@),
    {
        self.imem.push_back((host_inst, Some(req)));
    }

    /// Takes the oldest completed host request.
    pub fn take_completed(&mut self) -> (r: Option<dram_req>)
        ensures
            if old(self)@.completed.len() == 0 {
                r is None && final(self)@ == old(self)@
            } else {
                r == Some(old(self)@.completed[0])
                    && final(self)@ == (pe_state { completed: old(self)@.completed.drop_first(), ..old(self)@ })
            },
    {
        self.completed_reqs.pop_front()
    }

    pub fn has_complete(&self) -> (r: bool)
        ensures
            r == (self@.completed.len() > 0),
    {
        self.completed_reqs.len() != 0
    }

    /// Grants one instruction fetch.
    pub fn allow_next(&mut self)
        ensures
            final(self)@ == (pe_state { fetch_next_allowed: true, ..old(self)@ }),
    {
        self.fetch_next_allowed = true;
    }

    pub fn has_buffered_inst(&self) -> (r: bool)
        ensures
            r == (self@.imem.len() > 0),
    {
        self.imem.len() != 0
    }

    /// Reports whether an instruction finished since the last call, and clears the report.
    pub fn has_finished(&mut self) -> (r: bool)
        ensures
            r == old(self)@.finished,
            final(self)@ == (pe_state { finished: false, ..old(self)@ }),
    {
        let finished = self.finished;
        self.finished = false;
        finished
    }

    fn fetch_inst(&mut self) -> (r: Option<(inst, Option<dram_req>)>)
        ensures
            (r, final(self)@.imem, final(self)@.fetch_next_allowed) == pe_fetch(old(self)@),
            final(self)@ == (pe_state {
                imem: final(self)@.imem,
                fetch_next_allowed: final(self)@.fetch_next_allowed,
                ..old(self)@
            }),
    {
        if self.fetch_next_allowed {
            self.fetch_next_allowed = false;
            self.imem.pop_front()
        } else {
            None
        }
    }

    pub fn get_Arf(&mut self) -> (r: &mut arch_rf)
        ensures
            *r == old(self).Arf,
            final(self)@ == (pe_state { rf: final(r)@, ..old(self)@ }),
    {
        &mut self.Arf
    }

    pub fn get_fmem(&mut self) -> (r: &mut pe_flat_mem)
        ensures
            *r == old(self).fmem,
            final(self)@ == (pe_state { mem: final(r)@, ..old(self)@ }),
    {
        &mut self.fmem
    }

    /// Applies the architectural updates of one cycle; the updates must write distinct
    /// locations and existing registers.
    pub fn arch_update(&mut self, op_vec: Vec<arch_action>)
        requires
            dests_distinct(op_vec@),
            action_regs_ok(op_vec@),
            old(self)@.rf.v.len() == 16,
            old(self)@.rf.s.len() == 8,
        ensures
            (final(self)@.rf, final(self)@.mem) == apply_pe_actions(old(self)@.rf, old(self)@.mem, op_vec@),
            final(self)@ == (pe_state { rf: final(self)@.rf, mem: final(self)@.mem, ..old(self)@ }),
    {
        let mut i: usize = 0;
        while i < op_vec.len()
            invariant
                i <= op_vec@.len(),
                action_regs_ok(op_vec@),
                (self@.rf, self@.mem) == apply_pe_actions(old(self)@.rf, old(self)@.mem, op_vec@.subrange(0, i as int)),
                self@ == (pe_state { rf: self@.rf, mem: self@.mem, ..old(self)@ }),
                self@.rf.v.len() == 16,
                self@.rf.s.len() == 8,
            decreases op_vec@.len() - i,
        {
            let op = op_vec[i];
            assert(op_vec@.subrange(0, i as int + 1).drop_last() =~= op_vec@.subrange(0, i as int));
            match op {
                arch_action::WriteVRF { vRD, content } => self.Arf.write_vRF(vRD, content),
                arch_action::WriteSRF { sRD, content } => self.Arf.write_sRF(sRD, content),
                arch_action::WriteMEM_V { addr, content } => {
                    self.fmem.mem_write_v(addr, &content);
                },
                arch_action::WriteMEM_S { addr, content } => {
                    self.fmem.mem_write_s(addr, content);
                },
                arch_action::DoNothing => {},
            }
            i = i + 1;
        }
        assert(op_vec@.subrange(0, op_vec@.len() as int) =~= op_vec@);
    }
}

/// The updates EX produces write distinct locations and existing registers.
proof fn lemma_ex_actions_ok(fwd: EX_WB_RF, l: ISSUE_EX_RF, m: Map<u32, mem_entry>)
    requires
        latch_ok(l),
    ensures
        dests_distinct(ex_spec(fwd, l, m).2),
        action_regs_ok(ex_spec(fwd, l, m).2),
{
    let ops = ex_spec(fwd, l, m).2;
    assert forall|i: int, j: int|
        0 <= i < j < ops.len() && (#[trigger] crate::PE::types::action_dest(ops[i])) is Some
            implies crate::PE::types::action_dest(ops[i]) != #[trigger] crate::PE::types::action_dest(ops[j]) by {
        assert(i == 0 && j == 1);
    }
}

impl PE {
    /// Whether the latched operation can execute without an arithmetic overflow (the
    /// condition `tick` needs).
    pub fn can_tick(&self) -> (r: bool)
        ensures
            r == ex_ok(self@.fwd, self@.issue),
    {
        if !self.issue_ex_rf.is_valid() {
            return true;
        }
        match self.ex_bypass_aluop(self.issue_ex_rf.get_aluop()) {
            ALUop::MAC { sRS0_lit, vRS0_lit, vRS1_lit, .. } => mac_fits(sRS0_lit, vRS0_lit, vRS1_lit),
            _ => true,
        }
    }

    /// Advances the PE by one clock cycle.
    pub fn tick(&mut self)
        requires
            pe_wf(old(self)@),
            ex_ok(old(self)@.fwd, old(self)@.issue),
        ensures
            final(self)@ == pe_step(old(self)@),
            pe_wf(final(self)@),
    {
        let issue_ex_snapshot = self.issue_ex_rf;
        let (ex_wb_next, ex_sigreq, ex_archop) = self.eval_EX(&issue_ex_snapshot);
        let pipeline_op = self.mem_stop_fsm.get_decision(ex_sigreq);

        if pipeline_op.ex == pipeline_action::Normal {
            proof {
                lemma_ex_actions_ok(old(self)@.fwd, issue_ex_snapshot, old(self)@.mem);
            }
            self.arch_update(ex_archop);
            if issue_ex_snapshot.is_valid() {
                self.finished = true;
                if let Some(req) = issue_ex_snapshot.get_sim_req() {
                    self.completed_reqs.push_back(req);
                }
            }
        }

        if pipeline_op.ex == pipeline_action::Normal && ex_wb_next.is_valid() {
            self.ex_wb_forward_rf = ex_wb_next;
        }

        match latch_action(pipeline_op.issue, pipeline_op.ex) {
            pipeline_action::Normal => {
                let issue_input = self.fetch_inst();
                self.issue_ex_rf = Self::eval_ISSUE(issue_input, &self.Arf);
            },
            pipeline_action::Stall => {},
            _ => self.issue_ex_rf = ISSUE_EX_RF::new(),
        }
    }
}

/// The host paces the PE: without a grant no instruction is taken from its queue, with one
/// at most one is taken (the oldest), and the queue is otherwise left in order; the
/// completed requests only grow, by at most one per cycle.
pub proof fn lemma_fetch_is_granted(s: pe_state)
    ensures
        !s.fetch_next_allowed ==> pe_step(s).imem == s.imem,
        pe_step(s).imem == s.imem || (s.fetch_next_allowed && s.imem.len() > 0 && pe_step(s).imem == s.imem.drop_first()),
        pe_step(s).completed == s.completed || pe_step(s).completed == s.completed.push(s.issue.sim_req->Some_0),
{
}

/// An empty ISSUE/EX latch commits nothing: no request completes and the finished flag
/// stays as it was.
pub proof fn lemma_idle_step(s: pe_state)
    requires
        !s.issue.valid,
    ensures
        pe_step(s).completed == s.completed,
        pe_step(s).finished == s.finished,
{
}

} // verus!
