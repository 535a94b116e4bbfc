use vstd::prelude::*;
use crate::cpu::ID::ID_EX_rf;
use crate::cpu::MEM::MEM_WB_RF;
use crate::cpu::pimcpu_types::{AGUop, ALUop, CPU_stages, DMAop, WBop, arch_action, fatptr_rf};
use crate::cpu::pipeline::CPU;
use crate::cpu::pipeline_util::{fwd_dma, fwd_freg, fwd_vreg};
use crate::cpu::signal_scoreboard::{
    SigFSM, ops6, pipeline_action, signal_reason, signal_req, sig, stage_ops, stage_set, set_IF_ID,
    set_IF_ID_EX,
};
use crate::memory::AGU_unit::{accepts, add_fits, entry_base, translate_fits};

verus! {

/// The EX/MEM latch.
#[derive(Clone, Copy, Debug)]
pub struct EX_MEM_rf {
    pub valid: bool,
    pub phys_addr: Option<u32>,
    pub arith_result: Option<[u32; 4]>,
    pub ptr_result: Option<fatptr_rf>,
    pub dma_op: DMAop,
    pub wb_op: WBop,
}

/// The empty (invalid) EX/MEM latch.
pub open spec fn empty_ex_mem() -> EX_MEM_rf {
    EX_MEM_rf { valid: false, phys_addr: None, arith_result: None, ptr_result: None, dma_op: DMAop::NOP, wb_op: WBop::NOP }
}

impl EX_MEM_rf {
    pub fn new() -> (r: Self)
        ensures
            r == empty_ex_mem(),
    {
        Self { valid: false, phys_addr: None, arith_result: None, ptr_result: None, dma_op: DMAop::NOP, wb_op: WBop::NOP }
    }

    pub fn is_valid(&self) -> (r: bool)
        ensures
            r == self.valid,
    {
        self.valid
    }

    pub fn invalidate(&mut self)
        ensures
            *final(self) == (EX_MEM_rf { valid: false, ..*old(self) }),
    {
        self.valid = false;
    }

    pub fn get_phys_addr(&self) -> (r: Option<u32>)
        ensures
            r == self.phys_addr,
    {
        self.phys_addr
    }

    pub fn get_arith_result(&self) -> (r: Option<[u32; 4]>)
        ensures
            r == self.arith_result,
    {
        self.arith_result
    }

    pub fn get_ptr_result(&self) -> (r: Option<fatptr_rf>)
        ensures
            r == self.ptr_result,
    {
        self.ptr_result
    }

    pub fn get_dma_op(&self) -> (r: DMAop)
        ensures
            r == self.dma_op,
    {
        self.dma_op
    }

    pub fn get_wb_op(&self) -> (r: WBop)
        ensures
            r == self.wb_op,
    {
        self.wb_op
    }
}

/// Lane-wise operations of the CGO ALU.
#[derive(Clone, Copy, Debug, PartialEq, Eq, Structural)]
pub enum u32_op {
    Add,
    Sub,
    And,
    Mul,
}

/// One lane of a CGO ALU operation.
pub open spec fn lane_u32(k: u32_op, a: u32, b: u32) -> u32 {
    match k {
        u32_op::Add => (a + b) as u32,
        u32_op::Sub => (a - b) as u32,
        u32_op::And => a & b,
        u32_op::Mul => (a * b) as u32,
    }
}

/// The lane does not overflow (or underflow) `u32`.
pub open spec fn lane_u32_ok(k: u32_op, a: u32, b: u32) -> bool {
    match k {
        u32_op::Add => a + b <= u32::MAX,
        u32_op::Sub => a >= b,
        u32_op::And => true,
        u32_op::Mul => a * b <= u32::MAX,
    }
}

/// The operation applied lane by lane.
pub open spec fn lanes_u32(k: u32_op, l: [u32; 4], r: [u32; 4]) -> [u32; 4] {
    [lane_u32(k, l@[0], r@[0]), lane_u32(k, l@[1], r@[1]), lane_u32(k, l@[2], r@[2]), lane_u32(k, l@[3], r@[3])]
}

/// No lane overflows.
pub open spec fn lanes_u32_ok(k: u32_op, l: [u32; 4], r: [u32; 4]) -> bool {
    lane_u32_ok(k, l@[0], r@[0]) && lane_u32_ok(k, l@[1], r@[1]) && lane_u32_ok(k, l@[2], r@[2])
        && lane_u32_ok(k, l@[3], r@[3])
}

/// What EX's ALU part yields.
pub enum ex_alu_outcome {
    /// An operand is not available yet.
    Stall,
    /// An EqualExit compared its operands.
    Exit { equal: bool },
    /// The arithmetic result, if the operation has one.
    Value(Option<[u32; 4]>),
}

/// The lane-wise kind and operands of an arithmetic ALU operation.
pub open spec fn arith_parts(op: ALUop) -> Option<(u32_op, u8, u8, [u32; 4], [u32; 4])> {
    match op {
        ALUop::ADD { rs1, rs2, rs1_lit, rs2_lit } => Some((u32_op::Add, rs1, rs2, rs1_lit, rs2_lit)),
        ALUop::SUB { rs1, rs2, rs1_lit, rs2_lit } => Some((u32_op::Sub, rs1, rs2, rs1_lit, rs2_lit)),
        ALUop::AND { rs1, rs2, rs1_lit, rs2_lit } => Some((u32_op::And, rs1, rs2, rs1_lit, rs2_lit)),
        ALUop::MUL { rs1, rs2, rs1_lit, rs2_lit } => Some((u32_op::Mul, rs1, rs2, rs1_lit, rs2_lit)),
        _ => None,
    }
}

/// EX's ALU part with forwarding from the latches `a`, `b`, `c`.
pub open spec fn ex_alu(a: EX_MEM_rf, b: MEM_WB_RF, c: MEM_WB_RF, op: ALUop) -> ex_alu_outcome {
    match op {
        ALUop::NOP => ex_alu_outcome::Value(None),
        ALUop::TEST { rs1, rs2, rs1_lit, rs2_lit } => match (fwd_vreg(a, b, c, rs1, rs1_lit), fwd_vreg(a, b, c, rs2, rs2_lit)) {
            (Some(x), Some(y)) => ex_alu_outcome::Exit { equal: x == y },
            _ => ex_alu_outcome::Stall,
        },
        _ => {
            let (k, rs1, rs2, l1, l2) = arith_parts(op)->Some_0;
            match (fwd_vreg(a, b, c, rs1, l1), fwd_vreg(a, b, c, rs2, l2)) {
                (Some(x), Some(y)) => ex_alu_outcome::Value(Some(lanes_u32(k, x, y))),
                _ => ex_alu_outcome::Stall,
            }
        },
    }
}

/// EX's ALU part does not overflow.
pub open spec fn ex_alu_ok(a: EX_MEM_rf, b: MEM_WB_RF, c: MEM_WB_RF, op: ALUop) -> bool {
    match arith_parts(op) {
        Some((k, rs1, rs2, l1, l2)) => match (fwd_vreg(a, b, c, rs1, l1), fwd_vreg(a, b, c, rs2, l2)) {
            (Some(x), Some(y)) => lanes_u32_ok(k, x, y),
            _ => true,
        },
        None => true,
    }
}

/// What EX's address-generation part yields.
pub enum ex_agu_outcome {
    /// An operand is not available yet.
    Stall,
    /// The AGU rejected the pointer.
    Fault,
    /// The physical address, the pointer result and the forwarded memory operation.
    Done { phys: Option<u32>, ptr: Option<fatptr_rf>, dma: DMAop },
}

/// The pointer a fat-pointer addition or subtraction yields, if the AGU accepts it.
pub open spec fn ptr_arith(table: Map<u8, crate::memory::AGU_unit::AGU_entry>, f: fatptr_rf, v: [u32; 4], idx: u8, add: bool) -> Option<fatptr_rf> {
    if idx >= 4 || (!add && f.offset <= v@[idx as int]) {
        None
    } else {
        let n = fatptr_rf {
            tag: f.tag,
            offset: if add { (f.offset + v@[idx as int]) as u32 } else { (f.offset - v@[idx as int]) as u32 },
        };
        if accepts(table, n) { Some(n) } else { None }
    }
}

/// EX's address-generation part with forwarding from the latches `a`, `b`, `c`.
pub open spec fn ex_agu(
    a: EX_MEM_rf,
    b: MEM_WB_RF,
    c: MEM_WB_RF,
    table: Map<u8, crate::memory::AGU_unit::AGU_entry>,
    op: AGUop,
    dma: DMAop,
) -> ex_agu_outcome {
    match op {
        AGUop::NOP => match fwd_dma(a, b, c, dma) {
            Some(d) => ex_agu_outcome::Done { phys: None, ptr: None, dma: d },
            None => ex_agu_outcome::Stall,
        },
        AGUop::CHK { frs, fptr_lit } => match (fwd_freg(a, b, c, frs, fptr_lit), fwd_dma(a, b, c, dma)) {
            (Some(f), Some(d)) => if accepts(table, f) {
                ex_agu_outcome::Done { phys: Some((entry_base(table, f.tag) + f.offset) as u32), ptr: None, dma: d }
            } else {
                ex_agu_outcome::Fault
            },
            _ => ex_agu_outcome::Stall,
        },
        AGUop::ADD { frs, rs1, fptr_lit, rs1_lit, idx_imm } => match (
            fwd_freg(a, b, c, frs, fptr_lit),
            fwd_vreg(a, b, c, rs1, rs1_lit),
            fwd_dma(a, b, c, dma),
        ) {
            (Some(f), Some(v), Some(d)) => match ptr_arith(table, f, v, idx_imm, true) {
                Some(p) => ex_agu_outcome::Done { phys: None, ptr: Some(p), dma: d },
                None => ex_agu_outcome::Fault,
            },
            _ => ex_agu_outcome::Stall,
        },
        AGUop::SUB { frs, rs1, fptr_lit, rs1_lit, idx_imm } => match (
            fwd_freg(a, b, c, frs, fptr_lit),
            fwd_vreg(a, b, c, rs1, rs1_lit),
            fwd_dma(a, b, c, dma),
        ) {
            (Some(f), Some(v), Some(d)) => match ptr_arith(table, f, v, idx_imm, false) {
                Some(p) => ex_agu_outcome::Done { phys: None, ptr: Some(p), dma: d },
                None => ex_agu_outcome::Fault,
            },
            _ => ex_agu_outcome::Stall,
        },
    }
}

/// EX's address-generation part only meets well-formed pointers and addresses that fit.
pub open spec fn ex_agu_ok(
    a: EX_MEM_rf,
    b: MEM_WB_RF,
    c: MEM_WB_RF,
    table: Map<u8, crate::memory::AGU_unit::AGU_entry>,
    op: AGUop,
    dma: DMAop,
) -> bool {
    match op {
        AGUop::NOP => true,
        AGUop::CHK { frs, fptr_lit } => match (fwd_freg(a, b, c, frs, fptr_lit), fwd_dma(a, b, c, dma)) {
            (Some(f), Some(_)) => f.wf() && translate_fits(table, f),
            _ => true,
        },
        AGUop::ADD { frs, rs1, fptr_lit, rs1_lit, idx_imm } => match (
            fwd_freg(a, b, c, frs, fptr_lit),
            fwd_vreg(a, b, c, rs1, rs1_lit),
            fwd_dma(a, b, c, dma),
        ) {
            (Some(f), Some(v), Some(_)) => f.wf() && add_fits(f, v, idx_imm),
            _ => true,
        },
        AGUop::SUB { frs, rs1, fptr_lit, rs1_lit, .. } => match (
            fwd_freg(a, b, c, frs, fptr_lit),
            fwd_vreg(a, b, c, rs1, rs1_lit),
            fwd_dma(a, b, c, dma),
        ) {
            (Some(f), Some(_), Some(_)) => f.wf(),
            _ => true,
        },
    }
}

/// EX can execute latch `l` without an arithmetic overflow or a malformed pointer.
pub open spec fn cpu_ex_ok(a: EX_MEM_rf, b: MEM_WB_RF, c: MEM_WB_RF, table: Map<u8, crate::memory::AGU_unit::AGU_entry>, l: ID_EX_rf) -> bool {
    l.valid ==> {
        &&& ex_alu_ok(a, b, c, l.alu_op)
        &&& (ex_alu(a, b, c, l.alu_op) is Value ==> ex_agu_ok(a, b, c, table, l.agu_op, l.dma_op))
    }
}

/// What EX produces for latch `l`: the EX/MEM latch, the controller signal and the
/// architectural updates. A missing operand asks for a stall of IF, ID and EX; a rejected
/// pointer raises an exception that holds the PC; EqualExit ends the program when its
/// operands are equal and otherwise holds the PC.
pub open spec fn cpu_ex_spec(
    a: EX_MEM_rf,
    b: MEM_WB_RF,
    c: MEM_WB_RF,
    table: Map<u8, crate::memory::AGU_unit::AGU_entry>,
    l: ID_EX_rf,
) -> (EX_MEM_rf, signal_req, Seq<arch_action>) {
    let raw = (
        empty_ex_mem(),
        sig(signal_reason::RAW_resolution, CPU_stages::EX, Some(set_IF_ID_EX())),
        seq![arch_action::DoNothing],
    );
    let fault = (
        empty_ex_mem(),
        sig(signal_reason::exception, CPU_stages::EX, Some(set_IF_ID_EX())),
        seq![arch_action::HoldPC],
    );
    if !l.valid {
        (empty_ex_mem(), sig(signal_reason::no_reason, CPU_stages::EX, None), seq![arch_action::DoNothing])
    } else {
        match ex_alu(a, b, c, l.alu_op) {
            ex_alu_outcome::Stall => raw,
            ex_alu_outcome::Exit { equal } => (
                EX_MEM_rf { valid: true, ..empty_ex_mem() },
                sig(
                    if equal { signal_reason::prog_end } else { signal_reason::no_reason },
                    CPU_stages::EX,
                    Some(set_IF_ID()),
                ),
                if equal { seq![arch_action::DoNothing] } else { seq![arch_action::HoldPC] },
            ),
            ex_alu_outcome::Value(arith) => match ex_agu(a, b, c, table, l.agu_op, l.dma_op) {
                ex_agu_outcome::Stall => raw,
                ex_agu_outcome::Fault => fault,
                ex_agu_outcome::Done { phys, ptr, dma } => (
                    EX_MEM_rf { valid: true, phys_addr: phys, arith_result: arith, ptr_result: ptr, dma_op: dma, wb_op: l.wb_op },
                    sig(signal_reason::no_reason, CPU_stages::EX, None),
                    seq![arch_action::DoNothing],
                ),
            },
        }
    }
}

/// Applies a lane-wise operation; no lane may overflow.
pub fn lanes(k: u32_op, l: [u32; 4], r: [u32; 4]) -> (out: [u32; 4])
    requires
        lanes_u32_ok(k, l, r),
    ensures
        out == lanes_u32(k, l, r),
{
    let out = match k {
        u32_op::Add => [l[0] + r[0], l[1] + r[1], l[2] + r[2], l[3] + r[3]],
        u32_op::Sub => [l[0] - r[0], l[1] - r[1], l[2] - r[2], l[3] - r[3]],
        u32_op::And => [l[0] & r[0], l[1] & r[1], l[2] & r[2], l[3] & r[3]],
        u32_op::Mul => [l[0] * r[0], l[1] * r[1], l[2] * r[2], l[3] * r[3]],
    };
    assert(out@ =~= lanes_u32(k, l, r)@);
    out
}

fn raw_stall_from_ex() -> (r: (EX_MEM_rf, signal_req, Vec<arch_action>))
    ensures
        r.0 == empty_ex_mem(),
        r.1 == sig(signal_reason::RAW_resolution, CPU_stages::EX, Some(set_IF_ID_EX())),
        r.2@ == seq![arch_action::DoNothing],
{
    let mut ops: Vec<arch_action> = Vec::new();
    ops.push(arch_action::DoNothing);
    assert(ops@ =~= seq![arch_action::DoNothing]);
    (EX_MEM_rf::new(), signal_req::new(signal_reason::RAW_resolution, CPU_stages::EX, Some(stage_set::IF_ID_EX())), ops)
}

fn exception_from_ex() -> (r: (EX_MEM_rf, signal_req, Vec<arch_action>))
    ensures
        r.0 == empty_ex_mem(),
        r.1 == sig(signal_reason::exception, CPU_stages::EX, Some(set_IF_ID_EX())),
        r.2@ == seq![arch_action::HoldPC],
{
    let mut ops: Vec<arch_action> = Vec::new();
    ops.push(arch_action::HoldPC);
    assert(ops@ =~= seq![arch_action::HoldPC]);
    (EX_MEM_rf::new(), signal_req::new(signal_reason::exception, CPU_stages::EX, Some(stage_set::IF_ID_EX())), ops)
}

fn single(a: arch_action) -> (r: Vec<arch_action>)
    ensures
        r@ == seq![a],
{
    let mut ops: Vec<arch_action> = Vec::new();
    ops.push(a);
    assert(ops@ =~= seq![a]);
    ops
}

impl CPU {
    /// EX stage: ALU work and address generation (AGU check, fat-pointer arithmetic and
    /// translation) with operand forwarding.
    pub fn eval_EX(&self, idex_rf: &ID_EX_rf) -> (r: (EX_MEM_rf, signal_req, Vec<arch_action>))
        requires
            cpu_ex_ok(self.ex_mem_rf, self.mem_wb_rf, self.wb_forward_rf, self.agu@, *idex_rf),
        ensures
            (r.0, r.1, r.2@) == cpu_ex_spec(self.ex_mem_rf, self.mem_wb_rf, self.wb_forward_rf, self.agu@, *idex_rf),
    {
        if !idex_rf.is_valid() {
            return (
                EX_MEM_rf::new(),
                signal_req::new(signal_reason::no_reason, CPU_stages::EX, None),
                single(arch_action::DoNothing),
            );
        }

        let arith_result = match idex_rf.get_alu_op() {
            ALUop::NOP => None,
            ALUop::ADD { rs1, rs2, rs1_lit, rs2_lit } => {
                let Some(x) = self.ex_bypass_get_rs1(rs1, rs1_lit) else {
                    return raw_stall_from_ex();
                };
                let Some(y) = self.ex_bypass_get_rs2(rs2, rs2_lit) else {
                    return raw_stall_from_ex();
                };
                Some(lanes(u32_op::Add, x, y))
            },
            ALUop::SUB { rs1, rs2, rs1_lit, rs2_lit } => {
                let Some(x) = self.ex_bypass_get_rs1(rs1, rs1_lit) else {
                    return raw_stall_from_ex();
                };
                let Some(y) = self.ex_bypass_get_rs2(rs2, rs2_lit) else {
                    return raw_stall_from_ex();
                };
                Some(lanes(u32_op::Sub, x, y))
            },
            ALUop::AND { rs1, rs2, rs1_lit, rs2_lit } => {
                let Some(x) = self.ex_bypass_get_rs1(rs1, rs1_lit) else {
                    return raw_stall_from_ex();
                };
                let Some(y) = self.ex_bypass_get_rs2(rs2, rs2_lit) else {
                    return raw_stall_from_ex();
                };
                Some(lanes(u32_op::And, x, y))
            },
            ALUop::MUL { rs1, rs2, rs1_lit, rs2_lit } => {
                let Some(x) = self.ex_bypass_get_rs1(rs1, rs1_lit) else {
                    return raw_stall_from_ex();
                };
                let Some(y) = self.ex_bypass_get_rs2(rs2, rs2_lit) else {
                    return raw_stall_from_ex();
                };
                Some(lanes(u32_op::Mul, x, y))
            },
            ALUop::TEST { rs1, rs2, rs1_lit, rs2_lit } => {
                let Some(x) = self.ex_bypass_get_rs1(rs1, rs1_lit) else {
                    return raw_stall_from_ex();
                };
                let Some(y) = self.ex_bypass_get_rs2(rs2, rs2_lit) else {
                    return raw_stall_from_ex();
                };
                let equal = x[0] == y[0] && x[1] == y[1] && x[2] == y[2] && x[3] == y[3];
                proof {
                    if equal {
                        assert(x =~= y);
                    } else {
                        assert(x != y);
                    }
                }
                return if equal {
                    (
                        EX_MEM_rf { valid: true, ..EX_MEM_rf::new() },
                        signal_req::new(signal_reason::prog_end, CPU_stages::EX, Some(stage_set::IF_ID())),
                        single(arch_action::DoNothing),
                    )
                } else {
                    (
                        EX_MEM_rf { valid: true, ..EX_MEM_rf::new() },
                        signal_req::new(signal_reason::no_reason, CPU_stages::EX, Some(stage_set::IF_ID())),
                        single(arch_action::HoldPC),
                    )
                };
            },
        };

        let dma_op = idex_rf.get_dma_op();
        let wb_op = idex_rf.get_wb_op();
        let (phys_addr, ptr_result, dma_op) = match idex_rf.get_agu_op() {
            AGUop::NOP => {
                let Some(dma_op) = self.agu_bypass_dma_op(dma_op) else {
                    return raw_stall_from_ex();
                };
                (None, None, dma_op)
            },
            AGUop::CHK { frs, fptr_lit } => {
                let Some(fptr_lit) = self.agu_bypass_get_frs(frs, fptr_lit) else {
                    return raw_stall_from_ex();
                };
                let Some(dma_op) = self.agu_bypass_dma_op(dma_op) else {
                    return raw_stall_from_ex();
                };
                if !self.agu.accept(fptr_lit) {
                    return exception_from_ex();
                }
                (self.agu.translate(fptr_lit), None, dma_op)
            },
            AGUop::ADD { frs, rs1, fptr_lit, rs1_lit, idx_imm } => {
                let Some(fptr_lit) = self.agu_bypass_get_frs(frs, fptr_lit) else {
                    return raw_stall_from_ex();
                };
                let Some(rs1_lit) = self.agu_bypass_get_rs1(rs1, rs1_lit) else {
                    return raw_stall_from_ex();
                };
                let Some(dma_op) = self.agu_bypass_dma_op(dma_op) else {
                    return raw_stall_from_ex();
                };
                let Some(ptr_result) = self.agu.addition(fptr_lit, rs1_lit, idx_imm) else {
                    return exception_from_ex();
                };
                (None, Some(ptr_result), dma_op)
            },
            AGUop::SUB { frs, rs1, fptr_lit, rs1_lit, idx_imm } => {
                let Some(fptr_lit) = self.agu_bypass_get_frs(frs, fptr_lit) else {
                    return raw_stall_from_ex();
                };
                let Some(rs1_lit) = self.agu_bypass_get_rs1(rs1, rs1_lit) else {
                    return raw_stall_from_ex();
                };
                let Some(dma_op) = self.agu_bypass_dma_op(dma_op) else {
                    return raw_stall_from_ex();
                };
                let Some(ptr_result) = self.agu.subtraction(fptr_lit, rs1_lit, idx_imm) else {
                    return exception_from_ex();
                };
                (None, Some(ptr_result), dma_op)
            },
        };

        (
            EX_MEM_rf { valid: true, phys_addr, arith_result, ptr_result, dma_op, wb_op },
            signal_req::new(signal_reason::no_reason, CPU_stages::EX, None),
            single(arch_action::DoNothing),
        )
    }
}

/// States of the end-of-program controller: two cycles of draining, then idle.
#[derive(Clone, Copy, Debug, PartialEq, Eq, Structural)]
pub enum EX_stop_FSM_states {
    Drain_WB,
    Drain_MEM,
    IDLE,
}

/// Ends the program: flushes IF and ID while the older instructions drain.
#[derive(Clone, Copy, Debug, PartialEq, Eq, Structural)]
pub struct EX_stop_FSM {
    pub state: EX_stop_FSM_states,
}

/// The next state of the end-of-program controller.
pub open spec fn ex_stop_next(st: EX_stop_FSM_states) -> EX_stop_FSM_states {
    match st {
        EX_stop_FSM_states::Drain_WB => EX_stop_FSM_states::Drain_MEM,
        _ => EX_stop_FSM_states::IDLE,
    }
}

/// The arbitration class of the end-of-program controller.
pub open spec fn ex_stop_action(st: EX_stop_FSM_states) -> pipeline_action {
    if st == EX_stop_FSM_states::IDLE { pipeline_action::Normal } else { pipeline_action::Flush }
}

/// The end-of-program controller flushes IF and ID.
pub open spec fn ex_stop_ops() -> stage_ops {
    let f = Some(pipeline_action::Flush);
    ops6(f, f, None, None, None, None)
}

impl EX_stop_FSM {
    pub fn new() -> (r: Self)
        ensures
            r.state == EX_stop_FSM_states::Drain_WB,
    {
        Self { state: EX_stop_FSM_states::Drain_WB }
    }
}

impl SigFSM for EX_stop_FSM {
    fn reason(&self) -> (r: signal_reason)
        ensures
            r == signal_reason::prog_end,
    {
        signal_reason::prog_end
    }

    fn action(&self) -> (r: pipeline_action)
        ensures
            r == ex_stop_action(self.state),
    {
        match self.state {
            EX_stop_FSM_states::Drain_WB | EX_stop_FSM_states::Drain_MEM => pipeline_action::Flush,
            EX_stop_FSM_states::IDLE => pipeline_action::Normal,
        }
    }

    fn get_ops(&self) -> (r: stage_ops)
        ensures
            r == ex_stop_ops(),
    {
        let f = Some(pipeline_action::Flush);
        stage_ops::of(f, f, None, None, None, None)
    }

    fn advance_winner(&mut self, sig_reason: signal_reason) -> (r: bool)
        ensures
            r,
            final(self).state == ex_stop_next(old(self).state),
    {
        self.state = match self.state {
            EX_stop_FSM_states::Drain_WB => EX_stop_FSM_states::Drain_MEM,
            EX_stop_FSM_states::Drain_MEM => EX_stop_FSM_states::IDLE,
            EX_stop_FSM_states::IDLE => EX_stop_FSM_states::IDLE,
        };
        true
    }

    fn handle_blocked(&mut self)
        ensures
            *final(self) == *old(self),
    {
    }
}

/// States of the exception controller: two cycles of draining, then idle.
#[derive(Clone, Copy, Debug, PartialEq, Eq, Structural)]
pub enum ExceptionDrainState {
    Drain_WB,
    Drain_MEM,
    Idle,
}

/// Resolves an exception: flushes IF, ID and EX while the older instructions drain.
#[derive(Clone, Copy, Debug, PartialEq, Eq, Structural)]
pub struct ExceptionDrain_FSM {
    pub state: ExceptionDrainState,
}

/// The next state of the exception controller.
pub open spec fn drain_next(st: ExceptionDrainState) -> ExceptionDrainState {
    match st {
        ExceptionDrainState::Drain_WB => ExceptionDrainState::Drain_MEM,
        _ => ExceptionDrainState::Idle,
    }
}

/// The arbitration class of the exception controller.
pub open spec fn drain_action(st: ExceptionDrainState) -> pipeline_action {
    if st == ExceptionDrainState::Idle { pipeline_action::Normal } else { pipeline_action::Flush }
}

/// An exception flushes IF, ID and EX.
pub open spec fn drain_ops() -> stage_ops {
    let f = Some(pipeline_action::Flush);
    ops6(f, f, f, None, None, None)
}

impl ExceptionDrain_FSM {
    pub fn new() -> (r: Self)
        ensures
            r.state == ExceptionDrainState::Drain_WB,
    {
        Self { state: ExceptionDrainState::Drain_WB }
    }
}

impl SigFSM for ExceptionDrain_FSM {
    fn reason(&self) -> (r: signal_reason)
        ensures
            r == signal_reason::exception,
    {
        signal_reason::exception
    }

    fn action(&self) -> (r: pipeline_action)
        ensures
            r == drain_action(self.state),
    {
        match self.state {
            ExceptionDrainState::Drain_WB | ExceptionDrainState::Drain_MEM => pipeline_action::Flush,
            ExceptionDrainState::Idle => pipeline_action::Normal,
        }
    }

    fn get_ops(&self) -> (r: stage_ops)
        ensures
            r == drain_ops(),
    {
        let f = Some(pipeline_action::Flush);
        stage_ops::of(f, f, f, None, None, None)
    }

    fn advance_winner(&mut self, sig_reason: signal_reason) -> (r: bool)
        ensures
            r,
            final(self).state == drain_next(old(self).state),
    {
        self.state = match self.state {
            ExceptionDrainState::Drain_WB => ExceptionDrainState::Drain_MEM,
            ExceptionDrainState::Drain_MEM => ExceptionDrainState::Idle,
            ExceptionDrainState::Idle => ExceptionDrainState::Idle,
        };
        true
    }

    fn handle_blocked(&mut self)
        ensures
            *final(self) == *old(self),
    {
    }
}

/// States of the read-after-write controller.
#[derive(Clone, Copy, Debug, PartialEq, Eq, Structural)]
pub enum RAW_resolution_FSM_state {
    InsertBubble,
    Idle,
}

/// Resolves a read-after-write hazard with a one-cycle bubble: holds IF, ID, EX and WB once.
#[derive(Clone, Copy, Debug, PartialEq, Eq, Structural)]
pub struct RAW_resolution_FSM {
    pub state: RAW_resolution_FSM_state,
}

/// The arbitration class of the read-after-write controller.
pub open spec fn raw_action(st: RAW_resolution_FSM_state) -> pipeline_action {
    if st == RAW_resolution_FSM_state::Idle { pipeline_action::Normal } else { pipeline_action::Stall }
}

/// A bubble holds IF, ID, EX and WB.
pub open spec fn raw_ops() -> stage_ops {
    let s = Some(pipeline_action::Stall);
    ops6(s, s, s, None, None, s)
}

impl RAW_resolution_FSM {
    pub fn new() -> (r: Self)
        ensures
            r.state == RAW_resolution_FSM_state::InsertBubble,
    {
        Self { state: RAW_resolution_FSM_state::InsertBubble }
    }
}

impl SigFSM for RAW_resolution_FSM {
    fn reason(&self) -> (r: signal_reason)
        ensures
            r == signal_reason::RAW_resolution,
    {
        signal_reason::RAW_resolution
    }

    fn action(&self) -> (r: pipeline_action)
        ensures
            r == raw_action(self.state),
    {
        match self.state {
            RAW_resolution_FSM_state::InsertBubble => pipeline_action::Stall,
            RAW_resolution_FSM_state::Idle => pipeline_action::Normal,
        }
    }

    fn get_ops(&self) -> (r: stage_ops)
        ensures
            r == raw_ops(),
    {
        let s = Some(pipeline_action::Stall);
        stage_ops::of(s, s, s, None, None, s)
    }

    fn advance_winner(&mut self, sig_reason: signal_reason) -> (r: bool)
        ensures
            r,
            final(self).state == RAW_resolution_FSM_state::Idle,
    {
        self.state = RAW_resolution_FSM_state::Idle;
        true
    }

    fn handle_blocked(&mut self)
        ensures
            final(self).state == RAW_resolution_FSM_state::Idle,
    {
        self.state = RAW_resolution_FSM_state::Idle;
    }
}

} // verus!
