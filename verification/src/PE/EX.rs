use vstd::prelude::*;
use crate::PE::ALU::{ALU_comp, ALU_out, alu_op_ok, alu_result};
use crate::PE::ISSUE::ISSUE_EX_RF;
use crate::PE::PE_utils::{bypass_s, bypass_v};
use crate::PE::pe_top::PE;
use crate::PE::types::{ALUop, MEMop, WBop, arch_action};
use crate::cpu::signal_scoreboard::{pipeline_action, signal_reason};
use crate::memory::flat_memory::{
    mem_entry, mem_read, pe_scalar_read, pe_vector_read, zero_vector, MemEntryData,
};
use crate::memory::mem_portal::{
    completed, dram_portal, dram_req, has_match, lemma_complete_then_take, portal_req, portal_state, submitted, taken,
};

verus! {

/// The EX/WB forwarding latch of the PE.
#[derive(Clone, Copy, Debug)]
pub struct EX_WB_RF {
    pub valid: bool,
    pub v_result: Option<[i16; 8]>,
    pub s_result: Option<i32>,
    pub wbop: WBop,
}

/// The empty (invalid) EX/WB latch.
pub open spec fn empty_ex_wb() -> EX_WB_RF {
    EX_WB_RF { valid: false, v_result: None, s_result: None, wbop: WBop::NOP }
}

impl EX_WB_RF {
    pub fn new() -> (r: Self)
        ensures
            r == empty_ex_wb(),
    {
        Self { valid: false, v_result: None, s_result: None, wbop: WBop::NOP }
    }

    pub fn is_valid(&self) -> (r: bool)
        ensures
            r == self.valid,
    {
        self.valid
    }

    pub fn invalidate(&mut self)
        ensures
            *final(self) == (EX_WB_RF { valid: false, ..*old(self) }),
    {
        self.valid = false;
    }

    pub fn get_v_result(&self) -> (r: Option<[i16; 8]>)
        ensures
            r == self.v_result,
    {
        self.v_result
    }

    pub fn get_s_result(&self) -> (r: Option<i32>)
        ensures
            r == self.s_result,
    {
        self.s_result
    }

    pub fn get_wbop(&self) -> (r: WBop)
        ensures
            r == self.wbop,
    {
        self.wbop
    }
}

/// The ALU operation with each source operand replaced by its forwarded value.
pub open spec fn bypass_aluop_spec(fwd: EX_WB_RF, op: ALUop) -> ALUop {
    match op {
        ALUop::ADD { vRS0, vRS1, vRS0_lit, vRS1_lit } => ALUop::ADD {
            vRS0,
            vRS1,
            vRS0_lit: bypass_v(fwd, vRS0, vRS0_lit),
            vRS1_lit: bypass_v(fwd, vRS1, vRS1_lit),
        },
        ALUop::SUB { vRS0, vRS1, vRS0_lit, vRS1_lit } => ALUop::SUB {
            vRS0,
            vRS1,
            vRS0_lit: bypass_v(fwd, vRS0, vRS0_lit),
            vRS1_lit: bypass_v(fwd, vRS1, vRS1_lit),
        },
        ALUop::MUL { vRS0, vRS1, vRS0_lit, vRS1_lit } => ALUop::MUL {
            vRS0,
            vRS1,
            vRS0_lit: bypass_v(fwd, vRS0, vRS0_lit),
            vRS1_lit: bypass_v(fwd, vRS1, vRS1_lit),
        },
        ALUop::MAC { sRS0, vRS0, vRS1, sRS0_lit, vRS0_lit, vRS1_lit } => ALUop::MAC {
            sRS0,
            vRS0,
            vRS1,
            sRS0_lit: bypass_s(fwd, sRS0, sRS0_lit),
            vRS0_lit: bypass_v(fwd, vRS0, vRS0_lit),
            vRS1_lit: bypass_v(fwd, vRS1, vRS1_lit),
        },
        ALUop::ReLU { vRS0, vRS0_lit } => ALUop::ReLU { vRS0, vRS0_lit: bypass_v(fwd, vRS0, vRS0_lit) },
        ALUop::NOP => ALUop::NOP,
    }
}

/// The vector and scalar results an ALU output provides.
pub open spec fn alu_results(o: ALU_out) -> (Option<[i16; 8]>, Option<i32>) {
    match o {
        ALU_out::vec_out { lit } => (Some(lit), None),
        ALU_out::scalar_out { lit } => (None, Some(lit)),
        ALU_out::NA => (None, None),
    }
}

/// The memory part of the PE's EX stage: the results after a load, the controller signal,
/// the memory updates of a store, and the memory after a load's read.
pub open spec fn ex_mem_step(
    fwd: EX_WB_RF,
    memop: MEMop,
    v0: Option<[i16; 8]>,
    s0: Option<i32>,
    m: Map<u32, mem_entry>,
) -> (Option<[i16; 8]>, Option<i32>, signal_reason, Seq<arch_action>, Map<u32, mem_entry>) {
    match memop {
        MEMop::NOP => (v0, s0, signal_reason::no_reason, Seq::<arch_action>::empty(), m),
        MEMop::ReadV { addr } => {
            let (v, m1) = mem_read(m, addr, Some(zero_vector()), |d: MemEntryData| pe_vector_read(d));
            (v, s0, signal_reason::MEM_block { addr: addr as u64, is_read: true }, Seq::<arch_action>::empty(), m1)
        },
        MEMop::WriteV { addr, vRS, data } => (
            v0,
            s0,
            signal_reason::MEM_block { addr: addr as u64, is_read: false },
            seq![arch_action::WriteMEM_V { addr, content: bypass_v(fwd, vRS, data) }],
            m,
        ),
        MEMop::ReadS { addr } => {
            let (sv, m1) = mem_read(m, addr, Some(0i32), |d: MemEntryData| pe_scalar_read(d));
            (v0, sv, signal_reason::MEM_block { addr: addr as u64, is_read: true }, Seq::<arch_action>::empty(), m1)
        },
        MEMop::WriteS { addr, sRS, data } => (
            v0,
            s0,
            signal_reason::MEM_block { addr: addr as u64, is_read: false },
            seq![arch_action::WriteMEM_S { addr, content: bypass_s(fwd, sRS, data) }],
            m,
        ),
    }
}

/// The register updates of the writeback operation, given the stage's results.
pub open spec fn wb_actions(wbop: WBop, v: Option<[i16; 8]>, s: Option<i32>) -> Seq<arch_action> {
    match wbop {
        WBop::NOP => Seq::<arch_action>::empty(),
        WBop::VWrite { vRD } => if v is Some {
            seq![arch_action::WriteVRF { vRD, content: v->Some_0 }]
        } else {
            Seq::<arch_action>::empty()
        },
        WBop::SWrite { sRD } => if s is Some {
            seq![arch_action::WriteSRF { sRD, content: s->Some_0 }]
        } else {
            Seq::<arch_action>::empty()
        },
    }
}

/// What the PE's EX stage computes for latch `l` with forwarding latch `fwd` and memory `m`:
/// the next EX/WB latch, the signal for the pipeline controller, the architectural updates
/// (`DoNothing` when there are none) and the memory after the stage's reads (a read claims
/// an untyped entry for its type).
pub open spec fn ex_spec(fwd: EX_WB_RF, l: ISSUE_EX_RF, m: Map<u32, mem_entry>) -> (
    EX_WB_RF,
    signal_reason,
    Seq<arch_action>,
    Map<u32, mem_entry>,
) {
    if !l.valid {
        (empty_ex_wb(), signal_reason::no_reason, seq![arch_action::DoNothing], m)
    } else {
        let (v0, s0) = alu_results(alu_result(bypass_aluop_spec(fwd, l.aluop)));
        let (v1, s1, sig, mem_ops, m1) = ex_mem_step(fwd, l.memop, v0, s0, m);
        let ops = mem_ops + wb_actions(l.wbop, v1, s1);
        (
            EX_WB_RF { valid: true, v_result: v1, s_result: s1, wbop: l.wbop },
            sig,
            if ops.len() == 0 { seq![arch_action::DoNothing] } else { ops },
            m1,
        )
    }
}

/// The latched operation can be executed without an arithmetic overflow.
pub open spec fn ex_ok(fwd: EX_WB_RF, l: ISSUE_EX_RF) -> bool {
    l.valid ==> alu_op_ok(bypass_aluop_spec(fwd, l.aluop))
}

impl PE {
    /// The ALU operation with forwarded source operands.
    pub fn ex_bypass_aluop(&self, aluop: ALUop) -> (r: ALUop)
        ensures
            r == bypass_aluop_spec(self.ex_wb_forward_rf, aluop),
    {
        match aluop {
            ALUop::ADD { vRS0, vRS1, vRS0_lit, vRS1_lit } => ALUop::ADD {
                vRS0,
                vRS1,
                vRS0_lit: self.ex_bypass_get_vreg(vRS0, vRS0_lit),
                vRS1_lit: self.ex_bypass_get_vreg(vRS1, vRS1_lit),
            },
            ALUop::SUB { vRS0, vRS1, vRS0_lit, vRS1_lit } => ALUop::SUB {
                vRS0,
                vRS1,
                vRS0_lit: self.ex_bypass_get_vreg(vRS0, vRS0_lit),
                vRS1_lit: self.ex_bypass_get_vreg(vRS1, vRS1_lit),
            },
            ALUop::MUL { vRS0, vRS1, vRS0_lit, vRS1_lit } => ALUop::MUL {
                vRS0,
                vRS1,
                vRS0_lit: self.ex_bypass_get_vreg(vRS0, vRS0_lit),
                vRS1_lit: self.ex_bypass_get_vreg(vRS1, vRS1_lit),
            },
            ALUop::MAC { sRS0, vRS0, vRS1, sRS0_lit, vRS0_lit, vRS1_lit } => ALUop::MAC {
                sRS0,
                vRS0,
                vRS1,
                sRS0_lit: self.ex_bypass_get_sreg(sRS0, sRS0_lit),
                vRS0_lit: self.ex_bypass_get_vreg(vRS0, vRS0_lit),
                vRS1_lit: self.ex_bypass_get_vreg(vRS1, vRS1_lit),
            },
            ALUop::ReLU { vRS0, vRS0_lit } => ALUop::ReLU {
                vRS0,
                vRS0_lit: self.ex_bypass_get_vreg(vRS0, vRS0_lit),
            },
            ALUop::NOP => ALUop::NOP,
        }
    }

    /// EX stage of the PE: ALU work, memory read or store request, and writeback request.
    /// Reads of the PE's flat memory may claim an untyped entry for the type read.
    pub fn eval_EX(&mut self, issue_ex_rf: &ISSUE_EX_RF) -> (r: (EX_WB_RF, signal_reason, Vec<arch_action>))
        requires
            ex_ok(old(self).ex_wb_forward_rf, *issue_ex_rf),
        ensures
            (r.0, r.1, r.2@, final(self).fmem@) == ex_spec(old(self).ex_wb_forward_rf, *issue_ex_rf, old(self).fmem@),
            final(self).fmem.kind == old(self).fmem.kind,
            final(self).ex_wb_forward_rf == old(self).ex_wb_forward_rf,
            final(self).issue_ex_rf == old(self).issue_ex_rf,
            final(self).Arf == old(self).Arf,
            final(self).imem == old(self).imem,
            final(self).completed_reqs == old(self).completed_reqs,
            final(self).fetch_next_allowed == old(self).fetch_next_allowed,
            final(self).finished == old(self).finished,
            final(self).mem_stop_fsm == old(self).mem_stop_fsm,
    {
        if !issue_ex_rf.is_valid() {
            let mut ops: Vec<arch_action> = Vec::new();
            ops.push(arch_action::DoNothing);
            assert(ops@ =~= seq![arch_action::DoNothing]);
            return (EX_WB_RF::new(), signal_reason::no_reason, ops);
        }

        let bypassed_aluop = self.ex_bypass_aluop(issue_ex_rf.get_aluop());
        let mut ex_wb_next = EX_WB_RF {
            valid: true,
            v_result: None,
            s_result: None,
            wbop: issue_ex_rf.get_wbop(),
        };

        match ALU_comp(bypassed_aluop) {
            ALU_out::vec_out { lit } => ex_wb_next.v_result = Some(lit),
            ALU_out::scalar_out { lit } => ex_wb_next.s_result = Some(lit),
            ALU_out::NA => {},
        }

        let mut arch_ops: Vec<arch_action> = Vec::new();
        let mut sig_reason = signal_reason::no_reason;

        match issue_ex_rf.get_memop() {
            MEMop::NOP => {},
            MEMop::ReadV { addr } => {
                ex_wb_next.v_result = self.fmem.mem_read_v(addr);
                sig_reason = signal_reason::MEM_block { addr: addr as u64, is_read: true };
            },
            MEMop::WriteV { addr, vRS, data } => {
                let data = self.ex_bypass_get_vreg(vRS, data);
                arch_ops.push(arch_action::WriteMEM_V { addr, content: data });
                sig_reason = signal_reason::MEM_block { addr: addr as u64, is_read: false };
            },
            MEMop::ReadS { addr } => {
                ex_wb_next.s_result = self.fmem.mem_read_s(addr);
                sig_reason = signal_reason::MEM_block { addr: addr as u64, is_read: true };
            },
            MEMop::WriteS { addr, sRS, data } => {
                let data = self.ex_bypass_get_sreg(sRS, data);
                arch_ops.push(arch_action::WriteMEM_S { addr, content: data });
                sig_reason = signal_reason::MEM_block { addr: addr as u64, is_read: false };
            },
        }
        let ghost mem_ops = arch_ops@;

        match ex_wb_next.get_wbop() {
            WBop::NOP => {},
            WBop::VWrite { vRD } => {
                if let Some(content) = ex_wb_next.get_v_result() {
                    arch_ops.push(arch_action::WriteVRF { vRD, content });
                }
            },
            WBop::SWrite { sRD } => {
                if let Some(content) = ex_wb_next.get_s_result() {
                    arch_ops.push(arch_action::WriteSRF { sRD, content });
                }
            },
        }
        assert(arch_ops@ =~= mem_ops + wb_actions(ex_wb_next.wbop, ex_wb_next.v_result, ex_wb_next.s_result));

        if arch_ops.len() == 0 {
            arch_ops.push(arch_action::DoNothing);
            assert(arch_ops@ =~= seq![arch_action::DoNothing]);
        }

        (ex_wb_next, sig_reason, arch_ops)
    }
}

/// States of the PE's memory-stall controller.
#[derive(Clone, Copy, Debug, PartialEq, Eq, Structural)]
pub enum PE_MEM_stop_FSM_states {
    Submit,
    Stall,
    WriteBack,
    Release,
    Idle,
}

/// What the PE's two stages do this cycle.
#[derive(Clone, Copy, Debug, PartialEq, Eq, Structural)]
pub struct PE_stage_actions {
    pub issue: pipeline_action,
    pub ex: pipeline_action,
}

/// Both stages run normally.
pub open spec fn pe_all_normal() -> PE_stage_actions {
    PE_stage_actions { issue: pipeline_action::Normal, ex: pipeline_action::Normal }
}

/// The PE's memory-stall controller: on a memory access it stalls the pipeline until the
/// DRAM timing model (when one is attached) has completed the access, then lets EX write
/// back while ISSUE waits one more cycle.
pub struct PE_MEM_stop_FSM {
    pub state: PE_MEM_stop_FSM_states,
    pub state_next: PE_MEM_stop_FSM_states,
    pub req: Option<dram_req>,
    pub dram_port: Option<dram_portal>,
}

/// The abstract state of the memory-stall controller.
pub struct pe_fsm_state {
    pub state: PE_MEM_stop_FSM_states,
    pub req: Option<dram_req>,
    pub port: Option<portal_state>,
}

impl View for PE_MEM_stop_FSM {
    type V = pe_fsm_state;

    open spec fn view(&self) -> pe_fsm_state {
        pe_fsm_state {
            state: self.state,
            req: self.req,
            port: match self.dram_port {
                Some(p) => Some(p@),
                None => None,
            },
        }
    }
}

/// Stage actions the controller imposes in each state.
pub open spec fn pe_fsm_ops(st: PE_MEM_stop_FSM_states) -> PE_stage_actions {
    match st {
        PE_MEM_stop_FSM_states::Submit | PE_MEM_stop_FSM_states::Stall => PE_stage_actions {
            issue: pipeline_action::Stall,
            ex: pipeline_action::Stall,
        },
        PE_MEM_stop_FSM_states::WriteBack | PE_MEM_stop_FSM_states::Release => PE_stage_actions {
            issue: pipeline_action::Stall,
            ex: pipeline_action::Normal,
        },
        PE_MEM_stop_FSM_states::Idle => pe_all_normal(),
    }
}

/// One transition of the controller from state `st` under the EX signal `sig`: a memory
/// access is submitted as a PIM request when a DRAM port is attached, and the controller
/// waits for its completion before writing back.
pub open spec fn pe_fsm_advance(st: PE_MEM_stop_FSM_states, f: pe_fsm_state, sig: signal_reason) -> pe_fsm_state {
    match st {
        PE_MEM_stop_FSM_states::Submit => match sig {
            signal_reason::MEM_block { addr, is_read } => {
                let rq = dram_req { addr, id: None, is_read, is_pim: true };
                match f.port {
                    Some(p) => pe_fsm_state {
                        state: PE_MEM_stop_FSM_states::Stall,
                        req: Some(rq),
                        port: Some(submitted(p, rq, true)),
                    },
                    None => pe_fsm_state { state: PE_MEM_stop_FSM_states::WriteBack, req: Some(rq), port: None },
                }
            },
            _ => pe_fsm_state { state: PE_MEM_stop_FSM_states::WriteBack, ..f },
        },
        PE_MEM_stop_FSM_states::Stall => match (f.req, f.port) {
            (Some(rq), Some(p)) => {
                let (t, p1) = taken(p, rq);
                pe_fsm_state {
                    state: if t is Some {
                        PE_MEM_stop_FSM_states::WriteBack
                    } else {
                        PE_MEM_stop_FSM_states::Stall
                    },
                    req: f.req,
                    port: Some(p1),
                }
            },
            _ => pe_fsm_state { state: PE_MEM_stop_FSM_states::WriteBack, ..f },
        },
        PE_MEM_stop_FSM_states::WriteBack => pe_fsm_state { state: PE_MEM_stop_FSM_states::Release, ..f },
        PE_MEM_stop_FSM_states::Release => pe_fsm_state { state: PE_MEM_stop_FSM_states::Idle, ..f },
        PE_MEM_stop_FSM_states::Idle => f,
    }
}

/// One decision of the controller: the stage actions for this cycle and its next state.
/// An idle controller without a memory signal imposes nothing; a memory signal wakes it.
pub open spec fn pe_fsm_decide(f: pe_fsm_state, sig: signal_reason) -> (PE_stage_actions, pe_fsm_state) {
    if f.state == PE_MEM_stop_FSM_states::Idle && !(sig is MEM_block) {
        (pe_all_normal(), f)
    } else {
        let st = if f.state == PE_MEM_stop_FSM_states::Idle {
            PE_MEM_stop_FSM_states::Submit
        } else {
            f.state
        };
        (pe_fsm_ops(st), pe_fsm_advance(st, f, sig))
    }
}

/// ISSUE and EX both held.
pub open spec fn pe_stall_both() -> PE_stage_actions {
    PE_stage_actions { issue: pipeline_action::Stall, ex: pipeline_action::Stall }
}

/// ISSUE held while EX runs.
pub open spec fn pe_stall_issue() -> PE_stage_actions {
    PE_stage_actions { issue: pipeline_action::Stall, ex: pipeline_action::Normal }
}

/// The decisions of the controller from `f` over the signals `sigs`, one per cycle, and the
/// state it ends in.
pub open spec fn pe_decide_all(f: pe_fsm_state, sigs: Seq<signal_reason>) -> (Seq<PE_stage_actions>, pe_fsm_state)
    decreases sigs.len(),
{
    if sigs.len() == 0 {
        (Seq::empty(), f)
    } else {
        let (acts, g) = pe_decide_all(f, sigs.drop_last());
        let (a, h) = pe_fsm_decide(g, sigs.last());
        (acts.push(a), h)
    }
}

/// The PIM read or write that the controller submits for a memory signal on `addr`.
pub open spec fn pe_pim_req(addr: u64, is_read: bool) -> dram_req {
    dram_req { addr, id: None, is_read, is_pim: true }
}

/// A memory access timed through a DRAM port: from an idle controller whose port holds no
/// completion of the access yet, the memory signal submits exactly one PIM request for the
/// access and holds ISSUE and EX; the controller keeps holding both, and changes nothing,
/// for as many cycles as the completion does not arrive. Once the port has recorded the
/// completion, the next decision still holds both and takes the completion (leaving the
/// port as it was after the submission), the two after it hold ISSUE only, and then the
/// controller is idle again and lets both stages run.
pub proof fn lemma_pe_timed_access(
    p0: portal_state,
    addr: u64,
    is_read: bool,
    waits: Seq<signal_reason>,
    after: Seq<signal_reason>,
)
    requires
        !has_match(p0.simcpu_resp, pe_pim_req(addr, is_read)),
        after.len() == 4,
        !(after[3] is MEM_block),
    ensures
        ({
            let rq = pe_pim_req(addr, is_read);
            let f0 = pe_fsm_state { state: PE_MEM_stop_FSM_states::Idle, req: None, port: Some(p0) };
            pe_decide_all(f0, seq![signal_reason::MEM_block { addr, is_read }] + waits)
                == (Seq::new(waits.len() + 1, |i: int| pe_stall_both()),
                    pe_fsm_state { state: PE_MEM_stop_FSM_states::Stall, req: Some(rq), port: Some(submitted(p0, rq, true)) })
        }),
        ({
            let rq = pe_pim_req(addr, is_read);
            let p1 = submitted(p0, rq, true);
            pe_decide_all(
                pe_fsm_state { state: PE_MEM_stop_FSM_states::Stall, req: Some(rq), port: Some(completed(p1, rq)) },
                after,
            ) == (seq![pe_stall_both(), pe_stall_issue(), pe_stall_issue(), pe_all_normal()],
                pe_fsm_state { state: PE_MEM_stop_FSM_states::Idle, req: Some(rq), port: Some(p1) })
        }),
{
    let rq = pe_pim_req(addr, is_read);
    let p1 = submitted(p0, rq, true);
    let f0 = pe_fsm_state { state: PE_MEM_stop_FSM_states::Idle, req: None, port: Some(p0) };
    let f1 = pe_fsm_state { state: PE_MEM_stop_FSM_states::Stall, req: Some(rq), port: Some(p1) };
    let m = signal_reason::MEM_block { addr, is_read };
    assert(p1.simcpu_resp == p0.simcpu_resp);
    lemma_pe_after_first(f0, f1, m, waits, rq, p1);
    lemma_complete_then_take(p1, rq);
    assert(taken(completed(p1, rq), rq) == (Some(rq), p1));
    let g0 = pe_fsm_state { state: PE_MEM_stop_FSM_states::Stall, req: Some(rq), port: Some(completed(p1, rq)) };
    assert(after.take(1).drop_last() =~= after.take(0));
    assert(after.take(2).drop_last() =~= after.take(1));
    assert(after.take(3).drop_last() =~= after.take(2));
    assert(after.take(4).drop_last() =~= after.take(3));
    assert(after.take(4) =~= after);
    assert(pe_decide_all(g0, after.take(0)) == (Seq::<PE_stage_actions>::empty(), g0));
    let r1 = pe_decide_all(g0, after.take(1));
    assert(r1.1 == (pe_fsm_state { state: PE_MEM_stop_FSM_states::WriteBack, req: Some(rq), port: Some(p1) }));
    let r2 = pe_decide_all(g0, after.take(2));
    assert(r2.1 == (pe_fsm_state { state: PE_MEM_stop_FSM_states::Release, req: Some(rq), port: Some(p1) }));
    let r3 = pe_decide_all(g0, after.take(3));
    assert(r3.1 == (pe_fsm_state { state: PE_MEM_stop_FSM_states::Idle, req: Some(rq), port: Some(p1) }));
    let r4 = pe_decide_all(g0, after.take(4));
    assert(r4.0 =~= seq![pe_stall_both(), pe_stall_issue(), pe_stall_issue(), pe_all_normal()]);
}

proof fn lemma_pe_after_first(
    f0: pe_fsm_state,
    f1: pe_fsm_state,
    m: signal_reason,
    waits: Seq<signal_reason>,
    rq: dram_req,
    p1: portal_state,
)
    requires
        m is MEM_block,
        f0.state == PE_MEM_stop_FSM_states::Idle,
        pe_fsm_decide(f0, m) == (pe_stall_both(), f1),
        f1 == (pe_fsm_state { state: PE_MEM_stop_FSM_states::Stall, req: Some(rq), port: Some(p1) }),
        rq.is_pim,
        !has_match(p1.simcpu_resp, rq),
    ensures
        pe_decide_all(f0, seq![m] + waits) == (Seq::new(waits.len() + 1, |i: int| pe_stall_both()), f1),
    decreases waits.len(),
{
    if waits.len() == 0 {
        let s = seq![m] + waits;
        assert(s.drop_last() =~= Seq::<signal_reason>::empty());
        assert(s.last() == m);
        assert(pe_decide_all(f0, s.drop_last()) == (Seq::<PE_stage_actions>::empty(), f0));
        assert(Seq::<PE_stage_actions>::empty().push(pe_stall_both()) =~= Seq::new(1, |i: int| pe_stall_both()));
    } else {
        let w = waits.drop_last();
        assert((seq![m] + waits).drop_last() =~= seq![m] + w);
        assert((seq![m] + waits).last() == waits.last());
        lemma_pe_after_first(f0, f1, m, w, rq, p1);
        assert(taken(p1, rq) == (None::<dram_req>, p1));
        assert(pe_fsm_decide(f1, waits.last()) == (pe_stall_both(), f1));
        assert(Seq::new(w.len() + 1, |i: int| pe_stall_both()).push(pe_stall_both())
            =~= Seq::new(waits.len() + 1, |i: int| pe_stall_both()));
    }
}

impl PE_MEM_stop_FSM {
    /// A controller without a DRAM timing model: accesses complete immediately.
    pub fn new() -> (r: Self)
        ensures
            r@ == (pe_fsm_state { state: PE_MEM_stop_FSM_states::Idle, req: None, port: None }),
    {
        Self {
            state: PE_MEM_stop_FSM_states::Idle,
            state_next: PE_MEM_stop_FSM_states::Idle,
            req: None,
            dram_port: None,
        }
    }

    /// A controller that times accesses through `dram_port`.
    pub fn new_with_dram_port(dram_port: dram_portal) -> (r: Self)
        ensures
            r@ == (pe_fsm_state {
                state: PE_MEM_stop_FSM_states::Idle,
                req: None,
                port: Some(dram_port@),
            }),
    {
        Self {
            state: PE_MEM_stop_FSM_states::Idle,
            state_next: PE_MEM_stop_FSM_states::Idle,
            req: None,
            dram_port: Some(dram_port),
        }
    }

    pub fn get_decision(&mut self, sig_reason: signal_reason) -> (r: PE_stage_actions)
        ensures
            (r, final(self)@) == pe_fsm_decide(old(self)@, sig_reason),
    {
        if self.is_idle() {
            if matches!(sig_reason, signal_reason::MEM_block { .. }) {
                self.state = PE_MEM_stop_FSM_states::Submit;
            } else {
                return PE_stage_actions { issue: pipeline_action::Normal, ex: pipeline_action::Normal };
            }
        }
        let ops = self.get_ops();
        self.advance(sig_reason);
        ops
    }

    pub fn is_idle(&self) -> (r: bool)
        ensures
            r == (self.state == PE_MEM_stop_FSM_states::Idle),
    {
        matches!(self.state, PE_MEM_stop_FSM_states::Idle)
    }

    pub fn get_ops(&self) -> (r: PE_stage_actions)
        ensures
            r == pe_fsm_ops(self.state),
    {
        match self.state {
            PE_MEM_stop_FSM_states::Submit | PE_MEM_stop_FSM_states::Stall => PE_stage_actions {
                issue: pipeline_action::Stall,
                ex: pipeline_action::Stall,
            },
            PE_MEM_stop_FSM_states::WriteBack | PE_MEM_stop_FSM_states::Release => PE_stage_actions {
                issue: pipeline_action::Stall,
                ex: pipeline_action::Normal,
            },
            PE_MEM_stop_FSM_states::Idle => PE_stage_actions {
                issue: pipeline_action::Normal,
                ex: pipeline_action::Normal,
            },
        }
    }

    pub fn advance(&mut self, sig_reason: signal_reason)
        ensures
            final(self)@ == pe_fsm_advance(old(self).state, old(self)@, sig_reason),
    {
        let next = match self.state {
            PE_MEM_stop_FSM_states::Submit => {
                if let signal_reason::MEM_block { addr, is_read } = sig_reason {
                    let req = dram_req::new(addr, is_read, true);
                    self.req = Some(req);
                    match &mut self.dram_port {
                        Some(dram_port) => {
                            dram_port.submit(portal_req::PIM_REQ { req });
                            PE_MEM_stop_FSM_states::Stall
                        },
                        None => PE_MEM_stop_FSM_states::WriteBack,
                    }
                } else {
                    PE_MEM_stop_FSM_states::WriteBack
                }
            },
            PE_MEM_stop_FSM_states::Stall => {
                match (&self.req, &mut self.dram_port) {
                    (Some(req), Some(dram_port)) => {
                        if dram_port.take_completed(req).is_some() {
                            PE_MEM_stop_FSM_states::WriteBack
                        } else {
                            PE_MEM_stop_FSM_states::Stall
                        }
                    },
                    _ => PE_MEM_stop_FSM_states::WriteBack,
                }
            },
            PE_MEM_stop_FSM_states::WriteBack => PE_MEM_stop_FSM_states::Release,
            PE_MEM_stop_FSM_states::Release => PE_MEM_stop_FSM_states::Idle,
            PE_MEM_stop_FSM_states::Idle => PE_MEM_stop_FSM_states::Idle,
        };
        self.state_next = next;
        self.state = self.state_next;
    }
}

} // verus!
