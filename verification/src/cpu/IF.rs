use vstd::prelude::*;
use crate::cpu::RF::arch_rf;
use crate::cpu::imem::IMEM;
use crate::cpu::pimcpu_types::{CPU_stages, arch_action, inst};
use crate::cpu::pipeline::CPU;
use crate::cpu::signal_scoreboard::{signal_reason, signal_req, sig};

verus! {

/// The IF/ID latch.
#[derive(Clone, Copy, Debug)]
pub struct IF_ID_rf {
    pub valid: bool,
    pub pc: u16,
    pub fetched_inst: inst,
}

/// The empty (invalid) IF/ID latch.
pub open spec fn empty_if_id() -> IF_ID_rf {
    IF_ID_rf { valid: false, pc: 0, fetched_inst: inst::NOP }
}

impl IF_ID_rf {
    pub fn new() -> (r: Self)
        ensures
            r == empty_if_id(),
    {
        Self { valid: false, pc: 0, fetched_inst: inst::NOP }
    }

    pub fn is_valid(&self) -> (r: bool)
        ensures
            r == self.valid,
    {
        self.valid
    }

    pub fn invalidate(&mut self)
        ensures
            *final(self) == (IF_ID_rf { valid: false, ..*old(self) }),
    {
        self.valid = false;
    }

    pub fn get_fetched_inst(&self) -> (r: inst)
        ensures
            r == self.fetched_inst,
    {
        self.fetched_inst
    }
}

/// What IF produces: the instruction at the PC, or, past the end of the program, an empty
/// latch that holds the PC.
pub open spec fn cpu_if_spec(pc: u16, prog: Seq<inst>) -> (IF_ID_rf, signal_req, Seq<arch_action>) {
    if (pc as int) < prog.len() {
        (
            IF_ID_rf { valid: true, pc, fetched_inst: prog[pc as int] },
            sig(signal_reason::no_reason, CPU_stages::IF, None),
            seq![arch_action::DoNothing],
        )
    } else {
        (empty_if_id(), sig(signal_reason::no_reason, CPU_stages::IF, None), seq![arch_action::HoldPC])
    }
}

impl CPU {
    /// IF stage: fetches the instruction at the program counter.
    pub fn eval_IF(&self, rf: &arch_rf, imem: &IMEM) -> (r: (IF_ID_rf, signal_req, Vec<arch_action>))
        ensures
            (r.0, r.1, r.2@) == cpu_if_spec(rf@.pc, imem.prog@),
    {
        let pc_ = rf.read_pc();
        let mut ops: Vec<arch_action> = Vec::new();
        match imem.read_inst(pc_) {
            Some(fetched) => {
                ops.push(arch_action::DoNothing);
                assert(ops@ =~= seq![arch_action::DoNothing]);
                (
                    IF_ID_rf { valid: true, fetched_inst: fetched, pc: pc_ },
                    signal_req::new(signal_reason::no_reason, CPU_stages::IF, None),
                    ops,
                )
            },
            None => {
                ops.push(arch_action::HoldPC);
                assert(ops@ =~= seq![arch_action::HoldPC]);
                (IF_ID_rf::new(), signal_req::new(signal_reason::no_reason, CPU_stages::IF, None), ops)
            },
        }
    }
}

} // verus!
