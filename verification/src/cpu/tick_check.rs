use vstd::prelude::*;
use crate::cpu::EX::{cpu_ex_ok, lane_u32_ok, lanes_u32_ok, u32_op};
use crate::cpu::ID::id_inst_ok;
use crate::cpu::pimcpu_types::{AGUop, ALUop, arch_action, fatptr_rf, inst, OFFSET_LIMIT, TAG_LIMIT};
use crate::cpu::pipeline::CPU;
use crate::cpu::pipeline_util::{cpu_dests_distinct, cpu_regs_ok};

verus! {

/// Whether one lane of `k` stays within `u32`; see `lane_u32_ok`.
fn lane_ok(k: u32_op, a: u32, b: u32) -> (r: bool)
    ensures
        r == lane_u32_ok(k, a, b),
{
    match k {
        u32_op::Add => a <= u32::MAX - b,
        u32_op::Sub => a >= b,
        u32_op::And => true,
        u32_op::Mul => {
            if b == 0 {
                true
            } else {
                let q = u32::MAX / b;
                assert(a * b <= u32::MAX <==> a <= q) by (nonlinear_arith)
                    requires
                        b > 0,
                        q == u32::MAX / b,
                ;
                a <= q
            }
        },
    }
}

/// Whether no lane of `k` leaves `u32`; see `lanes_u32_ok`.
fn lanes_ok(k: u32_op, l: [u32; 4], r: [u32; 4]) -> (ok: bool)
    ensures
        ok == lanes_u32_ok(k, l, r),
{
    lane_ok(k, l[0], r[0]) && lane_ok(k, l[1], r[1]) && lane_ok(k, l[2], r[2]) && lane_ok(k, l[3], r[3])
}

/// Whether a fat pointer is well formed: its tag and offset are in range.
fn ptr_wf(f: fatptr_rf) -> (r: bool)
    ensures
        r == f.wf(),
{
    (f.tag as u32) < TAG_LIMIT && f.offset < OFFSET_LIMIT
}

/// Whether the cycle's updates write distinct locations and only existing registers.
pub fn ops_ok(ops: &Vec<arch_action>) -> (r: bool)
    ensures
        r == (cpu_dests_distinct(ops@) && cpu_regs_ok(ops@)),
{
    let mut i: usize = 0;
    while i < ops.len()
        invariant
            i <= ops@.len(),
            forall|a: int| 0 <= a < i ==> match #[trigger] ops@[a] {
                arch_action::WriteVRF { rd, .. } => rd < 8,
                arch_action::WriteFPTR { frd, .. } => frd < 8,
                _ => true,
            },
            forall|a: int, b: int|
                0 <= a < b < ops@.len() && a < i && (#[trigger] crate::cpu::pimcpu_types::action_dest(ops@[a])) is Some
                    ==> crate::cpu::pimcpu_types::action_dest(ops@[a]) != #[trigger] crate::cpu::pimcpu_types::action_dest(ops@[b]),
        decreases ops@.len() - i,
    {
        match ops[i] {
            arch_action::WriteVRF { rd, .. } => {
                if rd >= 8 {
                    return false;
                }
            },
            arch_action::WriteFPTR { frd, .. } => {
                if frd >= 8 {
                    return false;
                }
            },
            _ => {},
        }
        let d = ops[i].dest();
        if d.is_some() {
            let mut j: usize = i + 1;
            while j < ops.len()
                invariant
                    i < j <= ops@.len(),
                    d == crate::cpu::pimcpu_types::action_dest(ops@[i as int]),
                    d is Some,
                    forall|b: int| i < b < j ==> d != #[trigger] crate::cpu::pimcpu_types::action_dest(ops@[b]),
                decreases ops@.len() - j,
            {
                if ops[j].dest() == d {
                    assert(!cpu_dests_distinct(ops@)) by {
                        assert(crate::cpu::pimcpu_types::action_dest(ops@[i as int]) == crate::cpu::pimcpu_types::action_dest(
                            ops@[j as int],
                        ));
                    }
                    return false;
                }
                j = j + 1;
            }
        }
        i = i + 1;
    }
    true
}

impl CPU {
    /// Whether ID can decode the instruction in the IF/ID latch; see `id_inst_ok`.
    pub fn id_can_decode(&self) -> (r: bool)
        requires
            self.RF@.f.len() == 8,
        ensures
            r == (self.if_id_rf.valid ==> id_inst_ok(self.if_id_rf.fetched_inst, self.RF@)),
    {
        if !self.if_id_rf.valid {
            return true;
        }
        let rf = &self.RF;
        match self.if_id_rf.fetched_inst {
            inst::NOP | inst::JUMP { .. } => true,
            inst::ADD128 { rs1, rs2, .. } | inst::SUB128 { rs1, rs2, .. } | inst::MUL128 { rs1, rs2, .. } | inst::AND128 {
                rs1,
                rs2,
                ..
            } => rs1 < 8 && rs2 < 8,
            inst::LD128 { frs, .. } => frs < 8 && rf.read_fregs(frs).is_some(),
            inst::ST128 { rs, frd } => rs < 8 && frd < 8 && rf.read_fregs(frd).is_some(),
            inst::FatPtrLD { frs, .. } => frs < 8 && rf.read_fregs(frs).is_some(),
            inst::FatPtrST { frd, frs } => frd < 8 && rf.read_fregs(frd).is_some() && frs < 8 && rf.read_fregs(
                frs,
            ).is_some(),
            inst::FatPtrADD { frs, rs1, .. } | inst::FatPtrSUB { frs, rs1, .. } => frs < 8 && rf.read_fregs(frs).is_some()
                && rs1 < 8,
            inst::EqualExit { rd, rs1 } => rd < 8 && rs1 < 8,
        }
    }

    /// Whether EX can execute the ID/EX latch without an overflow or a malformed pointer; see
    /// `cpu_ex_ok`.
    pub fn ex_can_execute(&self) -> (r: bool)
        ensures
            r == cpu_ex_ok(self.ex_mem_rf, self.mem_wb_rf, self.wb_forward_rf, self.agu@, self.id_ex_rf),
    {
        let l = self.id_ex_rf;
        if !l.valid {
            return true;
        }
        let (alu_ok, value) = match l.alu_op {
            ALUop::NOP => (true, true),
            ALUop::TEST { .. } => (true, false),
            ALUop::ADD { rs1, rs2, rs1_lit, rs2_lit } => self.arith_ok(u32_op::Add, rs1, rs2, rs1_lit, rs2_lit),
            ALUop::SUB { rs1, rs2, rs1_lit, rs2_lit } => self.arith_ok(u32_op::Sub, rs1, rs2, rs1_lit, rs2_lit),
            ALUop::AND { rs1, rs2, rs1_lit, rs2_lit } => self.arith_ok(u32_op::And, rs1, rs2, rs1_lit, rs2_lit),
            ALUop::MUL { rs1, rs2, rs1_lit, rs2_lit } => self.arith_ok(u32_op::Mul, rs1, rs2, rs1_lit, rs2_lit),
        };
        if !alu_ok {
            return false;
        }
        if !value {
            return true;
        }
        match l.agu_op {
            AGUop::NOP => true,
            AGUop::CHK { frs, fptr_lit } => match (self.agu_bypass_get_frs(frs, fptr_lit), self.agu_bypass_dma_op(l.dma_op)) {
                (Some(f), Some(_)) => {
                    if !ptr_wf(f) {
                        false
                    } else if !self.agu.accept(f) {
                        true
                    } else {
                        match self.agu.get_entry(f.tag) {
                            Some((base, _)) => base <= u32::MAX - f.offset,
                            None => true,
                        }
                    }
                },
                _ => true,
            },
            AGUop::ADD { frs, rs1, fptr_lit, rs1_lit, idx_imm } => match (
                self.agu_bypass_get_frs(frs, fptr_lit),
                self.agu_bypass_get_rs1(rs1, rs1_lit),
                self.agu_bypass_dma_op(l.dma_op),
            ) {
                (Some(f), Some(v), Some(_)) => ptr_wf(f) && (idx_imm >= 4 || v[idx_imm as usize] < OFFSET_LIMIT - f.offset),
                _ => true,
            },
            AGUop::SUB { frs, rs1, fptr_lit, rs1_lit, .. } => match (
                self.agu_bypass_get_frs(frs, fptr_lit),
                self.agu_bypass_get_rs1(rs1, rs1_lit),
                self.agu_bypass_dma_op(l.dma_op),
            ) {
                (Some(f), Some(_), Some(_)) => ptr_wf(f),
                _ => true,
            },
        }
    }

    /// For an arithmetic operation: whether it stays within `u32` (first) and whether it
    /// yields a value, both operands being available (second).
    fn arith_ok(&self, k: u32_op, rs1: u8, rs2: u8, l1: [u32; 4], l2: [u32; 4]) -> (r: (bool, bool))
        ensures
            r.0 == match (
                crate::cpu::pipeline_util::fwd_vreg(self.ex_mem_rf, self.mem_wb_rf, self.wb_forward_rf, rs1, l1),
                crate::cpu::pipeline_util::fwd_vreg(self.ex_mem_rf, self.mem_wb_rf, self.wb_forward_rf, rs2, l2),
            ) {
                (Some(x), Some(y)) => lanes_u32_ok(k, x, y),
                _ => true,
            },
            r.1 == (crate::cpu::pipeline_util::fwd_vreg(self.ex_mem_rf, self.mem_wb_rf, self.wb_forward_rf, rs1, l1) is Some
                && crate::cpu::pipeline_util::fwd_vreg(self.ex_mem_rf, self.mem_wb_rf, self.wb_forward_rf, rs2, l2) is Some),
    {
        match (self.ex_bypass_get_rs1(rs1, l1), self.ex_bypass_get_rs2(rs2, l2)) {
            (Some(x), Some(y)) => (lanes_ok(k, x, y), true),
            _ => (true, false),
        }
    }
}

} // verus!
