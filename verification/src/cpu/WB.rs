use vstd::prelude::*;
use crate::cpu::MEM::MEM_WB_RF;
use crate::cpu::pimcpu_types::{CPU_stages, WBop, arch_action};
use crate::cpu::pipeline::CPU;
use crate::cpu::signal_scoreboard::{signal_reason, signal_req, sig};

verus! {

/// What WB produces for latch `l`: the controller signal and the register write. A write
/// back whose value is missing raises an exception and writes nothing.
pub open spec fn cpu_wb_spec(l: MEM_WB_RF) -> (signal_req, Seq<arch_action>) {
    let quiet = sig(signal_reason::no_reason, CPU_stages::WB, None);
    let missing = (sig(signal_reason::exception, CPU_stages::WB, None), seq![arch_action::DoNothing]);
    if !l.valid {
        (quiet, seq![arch_action::DoNothing])
    } else {
        match l.wb_op {
            WBop::NOP => (quiet, seq![arch_action::DoNothing]),
            WBop::WB_VEC { rd } => match l.arith_result {
                Some(content) => (quiet, seq![arch_action::WriteVRF { rd, content }]),
                None => missing,
            },
            WBop::WB_FPTR { frd } => match l.ptr_result {
                Some(content) => (quiet, seq![arch_action::WriteFPTR { frd, content }]),
                None => missing,
            },
        }
    }
}

fn wb_result(sig_req: signal_req, a: arch_action) -> (r: (Option<()>, signal_req, Vec<arch_action>))
    ensures
        r.0 == None::<()>,
        r.1 == sig_req,
        r.2@ == seq![a],
{
    let mut v: Vec<arch_action> = Vec::new();
    v.push(a);
    assert(v@ =~= seq![a]);
    (None, sig_req, v)
}

impl CPU {
    /// WB stage: turns the MEM/WB latch into a register write.
    pub fn eval_WB(mem_wb_rf: &MEM_WB_RF) -> (r: (Option<()>, signal_req, Vec<arch_action>))
        ensures
            r.0 == None::<()>,
            (r.1, r.2@) == cpu_wb_spec(*mem_wb_rf),
    {
        let quiet = signal_req::new(signal_reason::no_reason, CPU_stages::WB, None);
        if !mem_wb_rf.is_valid() {
            return wb_result(quiet, arch_action::DoNothing);
        }
        match mem_wb_rf.get_wb_op() {
            WBop::NOP => wb_result(quiet, arch_action::DoNothing),
            WBop::WB_VEC { rd } => match mem_wb_rf.get_arith_result() {
                Some(content) => wb_result(quiet, arch_action::WriteVRF { rd, content }),
                None => wb_result(
                    signal_req::new(signal_reason::exception, CPU_stages::WB, None),
                    arch_action::DoNothing,
                ),
            },
            WBop::WB_FPTR { frd } => match mem_wb_rf.get_ptr_result() {
                Some(content) => wb_result(quiet, arch_action::WriteFPTR { frd, content }),
                None => wb_result(
                    signal_req::new(signal_reason::exception, CPU_stages::WB, None),
                    arch_action::DoNothing,
                ),
            },
        }
    }
}

} // verus!
