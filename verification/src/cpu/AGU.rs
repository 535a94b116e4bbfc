use vstd::prelude::*;
use crate::cpu::EX::{drain_ops, ptr_arith};
use crate::cpu::pimcpu_types::{AGUop, CPU_stages, DMAop, WBop, arch_action, fatptr_rf};
use crate::cpu::pipeline::CPU;
use crate::cpu::signal_scoreboard::{
    SigFSM, pipeline_action, signal_reason, signal_req, sig, stage_ops, stage_set, set_IF_ID_EX,
};
use crate::memory::AGU_unit::{AGU_entry, AGU_unit, accepts, add_fits, entry_base, translate_fits};

verus! {

/// The latch in front of a separate address-generation stage: the ALU result and the
/// address operation with its operands already resolved.
#[derive(Clone, Copy, Debug)]
pub struct EX_AGU_rf {
    pub valid: bool,
    pub arith_result: Option<[u32; 4]>,
    pub agu_op: AGUop,
    pub dma_op: DMAop,
    pub wb_op: WBop,
}

/// The AGU/MEM latch.
#[derive(Clone, Copy, Debug)]
pub struct AGU_MEM_rf {
    pub valid: bool,
    pub phys_addr: Option<u32>,
    pub arith_in: Option<[u32; 4]>,
    pub ptr_result: Option<fatptr_rf>,
    pub dma_op: DMAop,
    pub wb_op: WBop,
}

/// The empty (invalid) AGU/MEM latch.
pub open spec fn empty_agu_mem() -> AGU_MEM_rf {
    AGU_MEM_rf { valid: false, phys_addr: None, arith_in: None, ptr_result: None, dma_op: DMAop::NOP, wb_op: WBop::NOP }
}

impl AGU_MEM_rf {
    pub fn new() -> (r: Self)
        ensures
            r == empty_agu_mem(),
    {
        Self { valid: false, phys_addr: None, arith_in: None, ptr_result: None, dma_op: DMAop::NOP, wb_op: WBop::NOP }
    }

    pub fn is_valid(&self) -> (r: bool)
        ensures
            r == self.valid,
    {
        self.valid
    }

    pub fn invalidate(&mut self)
        ensures
            *final(self) == (AGU_MEM_rf { valid: false, ..*old(self) }),
    {
        self.valid = false;
    }

    pub fn get_phys_addr(&self) -> (r: Option<u32>)
        ensures
            r == self.phys_addr,
    {
        self.phys_addr
    }

    pub fn get_arith_in(&self) -> (r: Option<[u32; 4]>)
        ensures
            r == self.arith_in,
    {
        self.arith_in
    }

    pub fn get_ptr_result(&self) -> (r: Option<fatptr_rf>)
        ensures
            r == self.ptr_result,
    {
        self.ptr_result
    }

    pub fn get_dma_op(&self) -> (r: DMAop)
        ensures
            r == self.dma_op,
    {
        self.dma_op
    }

    pub fn get_wb_op(&self) -> (r: WBop)
        ensures
            r == self.wb_op,
    {
        self.wb_op
    }
}

/// The address operation of latch `l` only meets well-formed pointers and results that fit.
pub open spec fn cpu_agu_ok(table: Map<u8, AGU_entry>, l: EX_AGU_rf) -> bool {
    l.valid ==> match l.agu_op {
        AGUop::NOP => true,
        AGUop::CHK { fptr_lit, .. } => fptr_lit.wf() && translate_fits(table, fptr_lit),
        AGUop::ADD { fptr_lit, rs1_lit, idx_imm, .. } => fptr_lit.wf() && add_fits(fptr_lit, rs1_lit, idx_imm),
        AGUop::SUB { fptr_lit, .. } => fptr_lit.wf(),
    }
}

/// What the address-generation stage produces for latch `l`: a rejected pointer empties the
/// latch, holds the PC and raises an exception that flushes IF, ID and EX.
pub open spec fn cpu_agu_spec(table: Map<u8, AGU_entry>, l: EX_AGU_rf) -> (AGU_MEM_rf, signal_req, Seq<arch_action>) {
    let quiet = sig(signal_reason::no_reason, CPU_stages::AGU, None);
    let fault = (empty_agu_mem(), sig(signal_reason::exception, CPU_stages::AGU, Some(set_IF_ID_EX())), seq![arch_action::HoldPC]);
    let moved = |phys: Option<u32>, ptr: Option<fatptr_rf>| (
        AGU_MEM_rf { valid: true, phys_addr: phys, arith_in: l.arith_result, ptr_result: ptr, dma_op: l.dma_op, wb_op: l.wb_op },
        quiet,
        seq![arch_action::DoNothing],
    );
    if !l.valid {
        (empty_agu_mem(), quiet, seq![arch_action::DoNothing])
    } else {
        match l.agu_op {
            AGUop::NOP => (AGU_MEM_rf { valid: true, ..empty_agu_mem() }, quiet, seq![arch_action::DoNothing]),
            AGUop::CHK { fptr_lit, .. } => if accepts(table, fptr_lit) {
                moved(Some((entry_base(table, fptr_lit.tag) + fptr_lit.offset) as u32), None)
            } else {
                fault
            },
            AGUop::ADD { fptr_lit, rs1_lit, idx_imm, .. } => match ptr_arith(table, fptr_lit, rs1_lit, idx_imm, true) {
                Some(p) => moved(None, Some(p)),
                None => fault,
            },
            AGUop::SUB { fptr_lit, rs1_lit, idx_imm, .. } => match ptr_arith(table, fptr_lit, rs1_lit, idx_imm, false) {
                Some(p) => moved(None, Some(p)),
                None => fault,
            },
        }
    }
}

fn agu_result(l: AGU_MEM_rf, s: signal_req, a: arch_action) -> (r: (AGU_MEM_rf, signal_req, Vec<arch_action>))
    ensures
        r.0 == l,
        r.1 == s,
        r.2@ == seq![a],
{
    let mut v: Vec<arch_action> = Vec::new();
    v.push(a);
    assert(v@ =~= seq![a]);
    (l, s, v)
}

impl CPU {
    /// Address-generation stage: checks, translates or moves the fat pointer of the latch
    /// against the AGU table.
    pub fn eval_AGU(&self, ex_agu_rf: &EX_AGU_rf, agu: &AGU_unit) -> (r: (AGU_MEM_rf, signal_req, Vec<arch_action>))
        requires
            cpu_agu_ok(agu@, *ex_agu_rf),
        ensures
            (r.0, r.1, r.2@) == cpu_agu_spec(agu@, *ex_agu_rf),
    {
        let quiet = signal_req::new(signal_reason::no_reason, CPU_stages::AGU, None);
        let fault = signal_req::new(signal_reason::exception, CPU_stages::AGU, Some(stage_set::IF_ID_EX()));
        if !ex_agu_rf.valid {
            return agu_result(AGU_MEM_rf::new(), quiet, arch_action::DoNothing);
        }
        let l = *ex_agu_rf;
        match l.agu_op {
            AGUop::NOP => agu_result(AGU_MEM_rf { valid: true, ..AGU_MEM_rf::new() }, quiet, arch_action::DoNothing),
            AGUop::CHK { fptr_lit, .. } => {
                if agu.accept(fptr_lit) {
                    let out = AGU_MEM_rf {
                        valid: true,
                        phys_addr: agu.translate(fptr_lit),
                        arith_in: l.arith_result,
                        ptr_result: None,
                        dma_op: l.dma_op,
                        wb_op: l.wb_op,
                    };
                    agu_result(out, quiet, arch_action::DoNothing)
                } else {
                    agu_result(AGU_MEM_rf::new(), fault, arch_action::HoldPC)
                }
            },
            AGUop::ADD { fptr_lit, rs1_lit, idx_imm, .. } => match agu.addition(fptr_lit, rs1_lit, idx_imm) {
                Some(new_fptr) => {
                    let out = AGU_MEM_rf {
                        valid: true,
                        phys_addr: None,
                        arith_in: l.arith_result,
                        ptr_result: Some(new_fptr),
                        dma_op: l.dma_op,
                        wb_op: l.wb_op,
                    };
                    agu_result(out, quiet, arch_action::DoNothing)
                },
                None => agu_result(AGU_MEM_rf::new(), fault, arch_action::HoldPC),
            },
            AGUop::SUB { fptr_lit, rs1_lit, idx_imm, .. } => match agu.subtraction(fptr_lit, rs1_lit, idx_imm) {
                Some(new_fptr) => {
                    let out = AGU_MEM_rf {
                        valid: true,
                        phys_addr: None,
                        arith_in: l.arith_result,
                        ptr_result: Some(new_fptr),
                        dma_op: l.dma_op,
                        wb_op: l.wb_op,
                    };
                    agu_result(out, quiet, arch_action::DoNothing)
                },
                None => agu_result(AGU_MEM_rf::new(), fault, arch_action::HoldPC),
            },
        }
    }
}


/// States of the exception controller of the address-generation stage.
#[derive(Clone, Copy, Debug, PartialEq, Eq, Structural)]
pub enum AGU_stop_FSM_states {
    Drain_WB,
    Drain_MEM,
    Idle,
}

/// Resolves an address exception: flushes IF, ID and EX for two cycles.
#[derive(Clone, Copy, Debug, PartialEq, Eq, Structural)]
pub struct AGU_stop_FSM {
    pub state: AGU_stop_FSM_states,
    pub state_next: AGU_stop_FSM_states,
}

/// The next state of the address exception controller.
pub open spec fn agu_stop_next(st: AGU_stop_FSM_states) -> AGU_stop_FSM_states {
    match st {
        AGU_stop_FSM_states::Drain_WB => AGU_stop_FSM_states::Drain_MEM,
        _ => AGU_stop_FSM_states::Idle,
    }
}

/// The arbitration class of the address exception controller.
pub open spec fn agu_stop_action(st: AGU_stop_FSM_states) -> pipeline_action {
    if st == AGU_stop_FSM_states::Idle { pipeline_action::Normal } else { pipeline_action::Flush }
}

impl AGU_stop_FSM {
    pub fn new() -> (r: Self)
        ensures
            r == (AGU_stop_FSM { state: AGU_stop_FSM_states::Drain_WB, state_next: AGU_stop_FSM_states::Drain_MEM }),
    {
        Self { state: AGU_stop_FSM_states::Drain_WB, state_next: AGU_stop_FSM_states::Drain_MEM }
    }
}

impl SigFSM for AGU_stop_FSM {
    fn reason(&self) -> (r: signal_reason)
        ensures
            r == signal_reason::exception,
    {
        signal_reason::exception
    }

    fn action(&self) -> (r: pipeline_action)
        ensures
            r == agu_stop_action(self.state),
    {
        match self.state {
            AGU_stop_FSM_states::Drain_WB | AGU_stop_FSM_states::Drain_MEM => pipeline_action::Flush,
            AGU_stop_FSM_states::Idle => pipeline_action::Normal,
        }
    }

    fn get_ops(&self) -> (r: stage_ops)
        ensures
            r == drain_ops(),
    {
        let f = Some(pipeline_action::Flush);
        stage_ops::of(f, f, f, None, None, None)
    }

    fn advance_winner(&mut self, sig_reason: signal_reason) -> (r: bool)
        ensures
            r,
            final(self).state == agu_stop_next(old(self).state),
            final(self).state_next == agu_stop_next(old(self).state),
    {
        self.state_next = match self.state {
            AGU_stop_FSM_states::Drain_WB => AGU_stop_FSM_states::Drain_MEM,
            AGU_stop_FSM_states::Drain_MEM => AGU_stop_FSM_states::Idle,
            AGU_stop_FSM_states::Idle => AGU_stop_FSM_states::Idle,
        };
        self.state = self.state_next;
        true
    }

    fn handle_blocked(&mut self)
        ensures
            *final(self) == *old(self),
    {
    }
}

} // verus!
