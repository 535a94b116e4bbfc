use vstd::prelude::*;
use crate::cpu::IF::IF_ID_rf;
use crate::cpu::RF::{arch_rf, cpu_rf_state};
use crate::cpu::pimcpu_types::{ALUop, AGUop, DMAop, WBop, CPU_stages, arch_action, fatptr_rf, inst};
use crate::cpu::pipeline::CPU;
use crate::cpu::signal_scoreboard::{
    SigFSM, ops6, pipeline_action, signal_reason, signal_req, stage_ops, stage_set, set_IF,
};

verus! {

/// The ID/EX latch.
#[derive(Clone, Copy, Debug)]
pub struct ID_EX_rf {
    pub valid: bool,
    pub alu_op: ALUop,
    pub agu_op: AGUop,
    pub dma_op: DMAop,
    pub wb_op: WBop,
}

/// The empty (invalid) ID/EX latch.
pub open spec fn empty_id_ex() -> ID_EX_rf {
    ID_EX_rf { valid: false, alu_op: ALUop::NOP, agu_op: AGUop::NOP, dma_op: DMAop::NOP, wb_op: WBop::NOP }
}

impl ID_EX_rf {
    pub fn new() -> (r: Self)
        ensures
            r == empty_id_ex(),
    {
        Self { valid: false, alu_op: ALUop::NOP, agu_op: AGUop::NOP, dma_op: DMAop::NOP, wb_op: WBop::NOP }
    }

    pub fn is_valid(&self) -> (r: bool)
        ensures
            r == self.valid,
    {
        self.valid
    }

    pub fn invalidate(&mut self)
        ensures
            *final(self) == (ID_EX_rf { valid: false, ..*old(self) }),
    {
        self.valid = false;
    }

    pub fn get_alu_op(&self) -> (r: ALUop)
        ensures
            r == self.alu_op,
    {
        self.alu_op
    }

    pub fn get_agu_op(&self) -> (r: AGUop)
        ensures
            r == self.agu_op,
    {
        self.agu_op
    }

    pub fn get_dma_op(&self) -> (r: DMAop)
        ensures
            r == self.dma_op,
    {
        self.dma_op
    }

    pub fn get_wb_op(&self) -> (r: WBop)
        ensures
            r == self.wb_op,
    {
        self.wb_op
    }
}

/// Fat-pointer register `i` exists and holds a pointer.
pub open spec fn freg_set(rf: cpu_rf_state, i: u8) -> bool {
    i < 8 && rf.f[i as int] is Some
}

/// The value of fat-pointer register `i` (meaningful when it is set).
pub open spec fn freg(rf: cpu_rf_state, i: u8) -> fatptr_rf {
    rf.f[i as int]->Some_0
}

/// ID can decode `i`: every vector register it reads exists and every fat-pointer register
/// it reads holds a pointer.
pub open spec fn id_inst_ok(i: inst, rf: cpu_rf_state) -> bool {
    match i {
        inst::NOP | inst::JUMP { .. } => true,
        inst::ADD128 { rs1, rs2, .. } | inst::SUB128 { rs1, rs2, .. } | inst::MUL128 { rs1, rs2, .. }
        | inst::AND128 { rs1, rs2, .. } => rs1 < 8 && rs2 < 8,
        inst::LD128 { frs, .. } => freg_set(rf, frs),
        inst::ST128 { rs, frd } => rs < 8 && freg_set(rf, frd),
        inst::FatPtrLD { frs, .. } => freg_set(rf, frs),
        inst::FatPtrST { frd, frs } => freg_set(rf, frd) && freg_set(rf, frs),
        inst::FatPtrADD { frs, rs1, .. } | inst::FatPtrSUB { frs, rs1, .. } => freg_set(rf, frs) && rs1 < 8,
        inst::EqualExit { rd, rs1 } => rd < 8 && rs1 < 8,
    }
}

/// A latch holding the given operations.
pub open spec fn id_ex(alu_op: ALUop, agu_op: AGUop, dma_op: DMAop, wb_op: WBop) -> ID_EX_rf {
    ID_EX_rf { valid: true, alu_op, agu_op, dma_op, wb_op }
}

/// The ID/EX latch ID produces for instruction `i`, reading registers from `rf`.
pub open spec fn decode_spec(i: inst, rf: cpu_rf_state) -> ID_EX_rf {
    match i {
        inst::NOP => id_ex(ALUop::NOP, AGUop::NOP, DMAop::NOP, WBop::NOP),
        inst::ADD128 { rd, rs1, rs2 } => id_ex(
            ALUop::ADD { rs1, rs2, rs1_lit: rf.v[rs1 as int], rs2_lit: rf.v[rs2 as int] },
            AGUop::NOP,
            DMAop::NOP,
            WBop::WB_VEC { rd },
        ),
        inst::SUB128 { rd, rs1, rs2 } => id_ex(
            ALUop::SUB { rs1, rs2, rs1_lit: rf.v[rs1 as int], rs2_lit: rf.v[rs2 as int] },
            AGUop::NOP,
            DMAop::NOP,
            WBop::WB_VEC { rd },
        ),
        inst::MUL128 { rd, rs1, rs2 } => id_ex(
            ALUop::MUL { rs1, rs2, rs1_lit: rf.v[rs1 as int], rs2_lit: rf.v[rs2 as int] },
            AGUop::NOP,
            DMAop::NOP,
            WBop::WB_VEC { rd },
        ),
        inst::AND128 { rd, rs1, rs2 } => id_ex(
            ALUop::AND { rs1, rs2, rs1_lit: rf.v[rs1 as int], rs2_lit: rf.v[rs2 as int] },
            AGUop::NOP,
            DMAop::NOP,
            WBop::WB_VEC { rd },
        ),
        inst::LD128 { rd, frs } => id_ex(
            ALUop::NOP,
            AGUop::CHK { frs, fptr_lit: freg(rf, frs) },
            DMAop::READ_VEC { rd },
            WBop::WB_VEC { rd },
        ),
        inst::ST128 { rs, frd } => id_ex(
            ALUop::NOP,
            AGUop::CHK { frs: frd, fptr_lit: freg(rf, frd) },
            DMAop::WRITE_VEC { rs, data_lit: rf.v[rs as int] },
            WBop::NOP,
        ),
        inst::FatPtrLD { frd, frs } => id_ex(
            ALUop::NOP,
            AGUop::CHK { frs, fptr_lit: freg(rf, frs) },
            DMAop::READ_FPTR { frd },
            WBop::WB_FPTR { frd },
        ),
        inst::FatPtrST { frd, frs } => id_ex(
            ALUop::NOP,
            AGUop::CHK { frs: frd, fptr_lit: freg(rf, frd) },
            DMAop::WRITE_FPTR { frs, fptr_data_lit: freg(rf, frs) },
            WBop::NOP,
        ),
        inst::FatPtrADD { frd, frs, rs1, imm_idx } => id_ex(
            ALUop::NOP,
            AGUop::ADD { frs, rs1, fptr_lit: freg(rf, frs), rs1_lit: rf.v[rs1 as int], idx_imm: imm_idx },
            DMAop::NOP,
            WBop::WB_FPTR { frd },
        ),
        inst::FatPtrSUB { frd, frs, rs1, imm_idx } => id_ex(
            ALUop::NOP,
            AGUop::SUB { frs, rs1, fptr_lit: freg(rf, frs), rs1_lit: rf.v[rs1 as int], idx_imm: imm_idx },
            DMAop::NOP,
            WBop::WB_FPTR { frd },
        ),
        inst::JUMP { .. } => empty_id_ex(),
        inst::EqualExit { rd, rs1 } => id_ex(
            ALUop::TEST { rs1, rs2: rd, rs1_lit: rf.v[rs1 as int], rs2_lit: rf.v[rd as int] },
            AGUop::NOP,
            DMAop::NOP,
            WBop::NOP,
        ),
    }
}

/// What ID produces for the IF/ID latch `l`: the ID/EX latch, the controller signal (a jump
/// flushes IF) and the architectural updates (a jump writes the PC).
pub open spec fn id_spec_sig(l: IF_ID_rf) -> (signal_reason, bool) {
    if l.valid && l.fetched_inst is JUMP {
        (signal_reason::jump_resolution, true)
    } else {
        (signal_reason::no_reason, false)
    }
}

/// The architectural updates ID requests for latch `l`.
pub open spec fn id_spec_ops(l: IF_ID_rf) -> Seq<arch_action> {
    if l.valid && l.fetched_inst is JUMP {
        seq![arch_action::WritePC { new_pc: l.fetched_inst->inst_imm }]
    } else {
        seq![arch_action::DoNothing]
    }
}

impl CPU {
    /// ID stage: decodes the fetched instruction and reads its source registers.
    pub fn eval_ID(&self, ifid_rf: &IF_ID_rf, arf: &arch_rf) -> (r: (ID_EX_rf, signal_req, Vec<arch_action>))
        requires
            ifid_rf.valid ==> id_inst_ok(ifid_rf.fetched_inst, arf@),
            arf@.v.len() == 8,
            arf@.f.len() == 8,
        ensures
            r.0 == (if ifid_rf.valid { decode_spec(ifid_rf.fetched_inst, arf@) } else { empty_id_ex() }),
            r.1.sig_reason == id_spec_sig(*ifid_rf).0,
            r.1.issuer_stage == CPU_stages::ID,
            r.1.target_stages == (if id_spec_sig(*ifid_rf).1 { Some(set_IF()) } else { None }),
            r.2@ == id_spec_ops(*ifid_rf),
    {
        let mut ops: Vec<arch_action> = Vec::new();
        if !ifid_rf.is_valid() {
            ops.push(arch_action::DoNothing);
            assert(ops@ =~= seq![arch_action::DoNothing]);
            return (ID_EX_rf::new(), signal_req::new(signal_reason::no_reason, CPU_stages::ID, None), ops);
        }
        let none_sig = signal_req::new(signal_reason::no_reason, CPU_stages::ID, None);
        let latch = match ifid_rf.get_fetched_inst() {
            inst::NOP => ID_EX_rf {
                valid: true,
                alu_op: ALUop::NOP,
                agu_op: AGUop::NOP,
                dma_op: DMAop::NOP,
                wb_op: WBop::NOP,
            },
            inst::ADD128 { rd, rs1, rs2 } => ID_EX_rf {
                valid: true,
                alu_op: ALUop::ADD { rs1, rs2, rs1_lit: arf.read_vregs(rs1), rs2_lit: arf.read_vregs(rs2) },
                agu_op: AGUop::NOP,
                dma_op: DMAop::NOP,
                wb_op: WBop::WB_VEC { rd },
            },
            inst::SUB128 { rd, rs1, rs2 } => ID_EX_rf {
                valid: true,
                alu_op: ALUop::SUB { rs1, rs2, rs1_lit: arf.read_vregs(rs1), rs2_lit: arf.read_vregs(rs2) },
                agu_op: AGUop::NOP,
                dma_op: DMAop::NOP,
                wb_op: WBop::WB_VEC { rd },
            },
            inst::MUL128 { rd, rs1, rs2 } => ID_EX_rf {
                valid: true,
                alu_op: ALUop::MUL { rs1, rs2, rs1_lit: arf.read_vregs(rs1), rs2_lit: arf.read_vregs(rs2) },
                agu_op: AGUop::NOP,
                dma_op: DMAop::NOP,
                wb_op: WBop::WB_VEC { rd },
            },
            inst::AND128 { rd, rs1, rs2 } => ID_EX_rf {
                valid: true,
                alu_op: ALUop::AND { rs1, rs2, rs1_lit: arf.read_vregs(rs1), rs2_lit: arf.read_vregs(rs2) },
                agu_op: AGUop::NOP,
                dma_op: DMAop::NOP,
                wb_op: WBop::WB_VEC { rd: rd },
            },
            inst::LD128 { rd, frs } => ID_EX_rf {
                valid: true,
                alu_op: ALUop::NOP,
                agu_op: AGUop::CHK { frs, fptr_lit: read_set_freg(arf, frs) },
                dma_op: DMAop::READ_VEC { rd },
                wb_op: WBop::WB_VEC { rd: rd },
            },
            inst::ST128 { rs, frd } => ID_EX_rf {
                valid: true,
                alu_op: ALUop::NOP,
                agu_op: AGUop::CHK { frs: frd, fptr_lit: read_set_freg(arf, frd) },
                dma_op: DMAop::WRITE_VEC { rs, data_lit: arf.read_vregs(rs) },
                wb_op: WBop::NOP,
            },
            inst::FatPtrLD { frd, frs } => ID_EX_rf {
                valid: true,
                alu_op: ALUop::NOP,
                agu_op: AGUop::CHK { frs, fptr_lit: read_set_freg(arf, frs) },
                dma_op: DMAop::READ_FPTR { frd },
                wb_op: WBop::WB_FPTR { frd: frd },
            },
            inst::FatPtrST { frd, frs } => ID_EX_rf {
                valid: true,
                alu_op: ALUop::NOP,
                agu_op: AGUop::CHK { frs: frd, fptr_lit: read_set_freg(arf, frd) },
                dma_op: DMAop::WRITE_FPTR { frs, fptr_data_lit: read_set_freg(arf, frs) },
                wb_op: WBop::NOP,
            },
            inst::FatPtrADD { frd, frs, rs1, imm_idx } => ID_EX_rf {
                valid: true,
                alu_op: ALUop::NOP,
                agu_op: AGUop::ADD {
                    frs,
                    rs1,
                    fptr_lit: read_set_freg(arf, frs),
                    rs1_lit: arf.read_vregs(rs1),
                    idx_imm: imm_idx,
                },
                dma_op: DMAop::NOP,
                wb_op: WBop::WB_FPTR { frd },
            },
            inst::FatPtrSUB { frd, frs, rs1, imm_idx } => ID_EX_rf {
                valid: true,
                alu_op: ALUop::NOP,
                agu_op: AGUop::SUB {
                    frs,
                    rs1,
                    fptr_lit: read_set_freg(arf, frs),
                    rs1_lit: arf.read_vregs(rs1),
                    idx_imm: imm_idx,
                },
                dma_op: DMAop::NOP,
                wb_op: WBop::WB_FPTR { frd },
            },
            inst::JUMP { inst_imm } => {
                let target = stage_set::only_IF();
                ops.push(arch_action::WritePC { new_pc: inst_imm });
                assert(ops@ =~= id_spec_ops(*ifid_rf));
                return (
                    ID_EX_rf::new(),
                    signal_req::new(signal_reason::jump_resolution, CPU_stages::ID, Some(target)),
                    ops,
                );
            },
            inst::EqualExit { rd, rs1 } => ID_EX_rf {
                valid: true,
                alu_op: ALUop::TEST { rs1, rs2: rd, rs1_lit: arf.read_vregs(rs1), rs2_lit: arf.read_vregs(rd) },
                agu_op: AGUop::NOP,
                dma_op: DMAop::NOP,
                wb_op: WBop::NOP,
            },
        };
        ops.push(arch_action::DoNothing);
        assert(ops@ =~= seq![arch_action::DoNothing]);
        (latch, none_sig, ops)
    }
}

/// Reads a fat-pointer register that holds a pointer.
fn read_set_freg(arf: &arch_rf, idx: u8) -> (r: fatptr_rf)
    requires
        freg_set(arf@, idx),
    ensures
        r == freg(arf@, idx),
{
    match arf.read_fregs(idx) {
        Some(f) => f,
        None => fatptr_rf::new(0, 0),
    }
}


/// States of the jump controller.
#[derive(Clone, Copy, Debug, PartialEq, Eq, Structural)]
pub enum ID_jump_FSG_states {
    FLUSH,
    IDLE,
}

/// Resolves a jump taken in ID: flushes IF once.
#[derive(Clone, Copy, Debug, PartialEq, Eq, Structural)]
pub struct ID_jump_FSM {
    pub state: ID_jump_FSG_states,
    pub state_next: ID_jump_FSG_states,
}

/// The arbitration class of the jump controller.
pub open spec fn jump_action(st: ID_jump_FSG_states) -> pipeline_action {
    if st == ID_jump_FSG_states::FLUSH { pipeline_action::Flush } else { pipeline_action::Normal }
}

/// A jump flushes IF.
pub open spec fn jump_ops() -> stage_ops {
    ops6(Some(pipeline_action::Flush), None, None, None, None, None)
}

impl ID_jump_FSM {
    pub fn new() -> (r: Self)
        ensures
            r == (ID_jump_FSM { state: ID_jump_FSG_states::FLUSH, state_next: ID_jump_FSG_states::IDLE }),
    {
        Self { state: ID_jump_FSG_states::FLUSH, state_next: ID_jump_FSG_states::IDLE }
    }
}

impl SigFSM for ID_jump_FSM {
    fn reason(&self) -> (r: signal_reason)
        ensures
            r == signal_reason::jump_resolution,
    {
        signal_reason::jump_resolution
    }

    fn action(&self) -> (r: pipeline_action)
        ensures
            r == jump_action(self.state),
    {
        match self.state {
            ID_jump_FSG_states::FLUSH => pipeline_action::Flush,
            ID_jump_FSG_states::IDLE => pipeline_action::Normal,
        }
    }

    fn get_ops(&self) -> (r: stage_ops)
        ensures
            r == jump_ops(),
    {
        stage_ops::of(Some(pipeline_action::Flush), None, None, None, None, None)
    }

    fn advance_winner(&mut self, sig_reason: signal_reason) -> (r: bool)
        ensures
            r,
            *final(self) == (ID_jump_FSM { state: ID_jump_FSG_states::IDLE, state_next: ID_jump_FSG_states::IDLE }),
    {
        self.state_next = ID_jump_FSG_states::IDLE;
        self.state = self.state_next;
        true
    }

    fn handle_blocked(&mut self)
        ensures
            *final(self) == *old(self),
    {
    }
}

} // verus!
