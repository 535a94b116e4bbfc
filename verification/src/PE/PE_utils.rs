use vstd::prelude::*;
use crate::PE::EX::{EX_WB_RF, empty_ex_wb, ex_spec, wb_actions};
use crate::PE::ALU::dot_prefix;
use crate::PE::ISSUE::{issue_spec, pe_inst_reads_ok};
use crate::PE::types::inst;
use crate::memory::mem_portal::dram_req;
use crate::PE::RF::{pe_rf_state, sreg, vreg};
use crate::PE::pe_top::{apply_pe_action, apply_pe_actions};
use crate::PE::types::arch_action;
use crate::memory::flat_memory::mem_entry;
use crate::PE::pe_top::PE;
use crate::PE::types::WBop;

verus! {

/// The vector operand EX uses for source `rs`: the result in the EX/WB forwarding latch
/// when that latch writes `rs`, otherwise the value read at issue. Register 0 is never
/// forwarded.
pub open spec fn bypass_v(fwd: EX_WB_RF, rs: u8, lit: [i16; 8]) -> [i16; 8] {
    if rs != 0 && fwd.valid && fwd.wbop == (WBop::VWrite { vRD: rs }) && fwd.v_result is Some {
        fwd.v_result->Some_0
    } else {
        lit
    }
}

/// The scalar operand EX uses for source `rs`, forwarded like `bypass_v`.
pub open spec fn bypass_s(fwd: EX_WB_RF, rs: u8, lit: i32) -> i32 {
    if rs != 0 && fwd.valid && fwd.wbop == (WBop::SWrite { sRD: rs }) && fwd.s_result is Some {
        fwd.s_result->Some_0
    } else {
        lit
    }
}

/// The registers after the forwarding latch `fwd` has written back.
pub open spec fn rf_after_forward(rf: pe_rf_state, m: Map<u32, mem_entry>, fwd: EX_WB_RF) -> pe_rf_state {
    if fwd.valid {
        apply_pe_actions(rf, m, wb_actions(fwd.wbop, fwd.v_result, fwd.s_result)).0
    } else {
        rf
    }
}

/// The register a valid forwarding latch writes exists.
pub open spec fn fwd_dest_ok(fwd: EX_WB_RF) -> bool {
    fwd.valid ==> match fwd.wbop {
        WBop::VWrite { vRD } => vRD < 16,
        WBop::SWrite { sRD } => sRD < 8,
        WBop::NOP => true,
    }
}

proof fn lemma_forward_effect(rf: pe_rf_state, m: Map<u32, mem_entry>, fwd: EX_WB_RF)
    requires
        rf.v.len() == 16,
        rf.s.len() == 8,
        fwd_dest_ok(fwd),
    ensures
        forall|r: u8| r < 8 ==> #[trigger] sreg(rf_after_forward(rf, m, fwd), r)
            == (if r != 0 && fwd.valid && fwd.wbop == (WBop::SWrite { sRD: r }) && fwd.s_result is Some {
                fwd.s_result->Some_0
            } else {
                sreg(rf, r)
            }),
        forall|r: u8| r < 16 ==> #[trigger] vreg(rf_after_forward(rf, m, fwd), r)
            == (if r != 0 && fwd.valid && fwd.wbop == (WBop::VWrite { vRD: r }) && fwd.v_result is Some {
                fwd.v_result->Some_0
            } else {
                vreg(rf, r)
            }),
{
    if fwd.valid {
        let ops = wb_actions(fwd.wbop, fwd.v_result, fwd.s_result);
        if ops.len() == 1 {
            assert(ops.drop_last() =~= Seq::<arch_action>::empty());
            assert(apply_pe_actions(rf, m, ops.drop_last()) == (rf, m));
            assert(rf_after_forward(rf, m, fwd) == apply_pe_action(rf, m, ops[0]).0);
        } else {
            assert(ops.len() == 0);
            assert(rf_after_forward(rf, m, fwd) == rf);
        }
    }
}

/// A vector source reads what the register holds once the instruction in the EX/WB
/// forwarding latch has written back: that instruction's result when it writes the
/// register, the value read at issue otherwise (register 0 always reads as zero).
pub proof fn lemma_vector_source_sees_last_result(rf: pe_rf_state, m: Map<u32, mem_entry>, fwd: EX_WB_RF, rs: u8)
    requires
        rf.v.len() == 16,
        rf.s.len() == 8,
        fwd_dest_ok(fwd),
        rs < 16,
    ensures
        bypass_v(fwd, rs, vreg(rf, rs)) == vreg(rf_after_forward(rf, m, fwd), rs),
{
    lemma_forward_effect(rf, m, fwd);
    assert(vreg(rf_after_forward(rf, m, fwd), rs) == vreg(rf_after_forward(rf, m, fwd), rs));
}

/// A scalar source (a MAC accumulator) reads what the register holds once the instruction
/// in the EX/WB forwarding latch has written back: that instruction's result when it writes
/// the register, the value read at issue otherwise (register 0 always reads as zero).
pub proof fn lemma_scalar_source_sees_last_result(rf: pe_rf_state, m: Map<u32, mem_entry>, fwd: EX_WB_RF, rs: u8)
    requires
        rf.v.len() == 16,
        rf.s.len() == 8,
        fwd_dest_ok(fwd),
        rs < 8,
    ensures
        bypass_s(fwd, rs, sreg(rf, rs)) == sreg(rf_after_forward(rf, m, fwd), rs),
{
    lemma_forward_effect(rf, m, fwd);
    assert(sreg(rf_after_forward(rf, m, fwd), rs) == sreg(rf_after_forward(rf, m, fwd), rs));
}

/// Back-to-back instructions behave as if run one after another: executing an instruction
/// issued while the previous one's result is still in the EX/WB forwarding latch gives the
/// same latch, signal, updates and memory as issuing it from the registers that result
/// leaves behind, with nothing left to forward.
pub proof fn lemma_back_to_back_is_sequential(
    rf: pe_rf_state,
    m: Map<u32, mem_entry>,
    fwd: EX_WB_RF,
    i: inst,
    q: Option<dram_req>,
)
    requires
        rf.v.len() == 16,
        rf.s.len() == 8,
        fwd_dest_ok(fwd),
        pe_inst_reads_ok(i),
    ensures
        ex_spec(fwd, issue_spec(Some((i, q)), rf), m)
            == ex_spec(empty_ex_wb(), issue_spec(Some((i, q)), rf_after_forward(rf, m, fwd)), m),
{
    lemma_forward_effect(rf, m, fwd);
}

/// A multiply-accumulate issued right behind the instruction in the forwarding latch adds
/// the dot product of its two vector sources to its scalar source, each taken as the
/// register stands after that instruction has written back, and writes the sum to `sRD`.
pub proof fn lemma_mac_uses_latest_accumulator(
    rf: pe_rf_state,
    m: Map<u32, mem_entry>,
    fwd: EX_WB_RF,
    sRD: u8,
    sRS0: u8,
    vRS0: u8,
    vRS1: u8,
    q: Option<dram_req>,
)
    requires
        rf.v.len() == 16,
        rf.s.len() == 8,
        fwd_dest_ok(fwd),
        sRS0 < 8,
        vRS0 < 16,
        vRS1 < 16,
    ensures
        ({
            let p = rf_after_forward(rf, m, fwd);
            let l = ex_spec(fwd, issue_spec(Some((inst::MAC128 { sRD, sRS0, vRS0, vRS1 }, q)), rf), m).0;
            &&& l.wbop == (WBop::SWrite { sRD })
            &&& l.s_result == Some((sreg(p, sRS0) + dot_prefix(vreg(p, vRS0)@, vreg(p, vRS1)@, 8)) as i32)
        }),
{
    lemma_forward_effect(rf, m, fwd);
}

/// A vector instruction issued right behind the instruction in the forwarding latch
/// computes, lane by lane, on its sources as they stand after that instruction has written
/// back: `ADD128`, `SUB128` and `MUL128` give the wrapping sum, difference and product of
/// `vRS0` and `vRS1` (in that order), `ReLU` clamps the negative lanes of `vRS0` to zero,
/// and the result is written to `vRD`.
pub proof fn lemma_vector_ops_use_latest_sources(
    rf: pe_rf_state,
    m: Map<u32, mem_entry>,
    fwd: EX_WB_RF,
    i: inst,
    q: Option<dram_req>,
)
    requires
        rf.v.len() == 16,
        rf.s.len() == 8,
        fwd_dest_ok(fwd),
        pe_inst_reads_ok(i),
    ensures
        ({
            let p = rf_after_forward(rf, m, fwd);
            let l = ex_spec(fwd, issue_spec(Some((i, q)), rf), m).0;
            match i {
                inst::ADD128 { vRD, vRS0, vRS1 } => {
                    &&& l.wbop == (WBop::VWrite { vRD })
                    &&& l.v_result matches Some(r)
                    &&& forall|k: int| 0 <= k < 8 ==> #[trigger] r@[k]
                        == vstd::wrapping::i16_specs::wrapping_add(vreg(p, vRS0)@[k], vreg(p, vRS1)@[k])
                },
                inst::SUB128 { vRD, vRS0, vRS1 } => {
                    &&& l.wbop == (WBop::VWrite { vRD })
                    &&& l.v_result matches Some(r)
                    &&& forall|k: int| 0 <= k < 8 ==> #[trigger] r@[k]
                        == vstd::wrapping::i16_specs::wrapping_sub(vreg(p, vRS0)@[k], vreg(p, vRS1)@[k])
                },
                inst::MUL128 { vRD, vRS0, vRS1 } => {
                    &&& l.wbop == (WBop::VWrite { vRD })
                    &&& l.v_result matches Some(r)
                    &&& forall|k: int| 0 <= k < 8 ==> #[trigger] r@[k]
                        == vstd::wrapping::i16_specs::wrapping_mul(vreg(p, vRS0)@[k], vreg(p, vRS1)@[k])
                },
                inst::ReLU { vRD, vRS0 } => {
                    &&& l.wbop == (WBop::VWrite { vRD })
                    &&& l.v_result matches Some(r)
                    &&& forall|k: int| 0 <= k < 8 ==> #[trigger] r@[k]
                        == (if vreg(p, vRS0)@[k] < 0 { 0i16 } else { vreg(p, vRS0)@[k] })
                },
                _ => true,
            }
        }),
{
    lemma_forward_effect(rf, m, fwd);
}

impl PE {
    pub fn ex_bypass_get_vreg(&self, rs: u8, rs_lit: [i16; 8]) -> (r: [i16; 8])
        ensures
            r == bypass_v(self.ex_wb_forward_rf, rs, rs_lit),
    {
        if rs == 0 {
            return rs_lit;
        }
        if self.ex_wb_forward_rf.is_valid() {
            if let WBop::VWrite { vRD } = self.ex_wb_forward_rf.get_wbop() {
                if vRD == rs {
                    if let Some(content) = self.ex_wb_forward_rf.get_v_result() {
                        return content;
                    }
                }
            }
        }
        rs_lit
    }

    pub fn ex_bypass_get_sreg(&self, rs: u8, rs_lit: i32) -> (r: i32)
        ensures
            r == bypass_s(self.ex_wb_forward_rf, rs, rs_lit),
    {
        if rs == 0 {
            return rs_lit;
        }
        if self.ex_wb_forward_rf.is_valid() {
            if let WBop::SWrite { sRD } = self.ex_wb_forward_rf.get_wbop() {
                if sRD == rs {
                    if let Some(content) = self.ex_wb_forward_rf.get_s_result() {
                        return content;
                    }
                }
            }
        }
        rs_lit
    }
}

} // verus!
