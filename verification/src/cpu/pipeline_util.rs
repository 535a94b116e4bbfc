use vstd::prelude::*;
use crate::cpu::EX::{EX_MEM_rf, cpu_ex_spec, ex_alu, ex_alu_outcome};
use crate::cpu::signal_scoreboard::signal_reason;
use crate::memory::AGU_unit::{AGU_entry, accepts, entry_base};
use crate::cpu::ID::decode_spec;
use crate::cpu::MEM::{MEM_WB_RF, cpu_mem_spec};
use crate::cpu::WB::cpu_wb_spec;
use crate::cpu::RF::{cpu_rf_state, with_freg, with_vreg};
use crate::cpu::pimcpu_types::{ALUop, DMAop, WBop, action_dest, arch_action, fatptr_rf, inst};
use crate::cpu::pipeline::{CPU, cpu_state};
use crate::memory::flat_memory::{MemEntryData, cpu_data_write, cpu_fptr_write, mem_entry, mem_write};

verus! {

/// The vector operand EX uses for register `rs`, looking at the in-flight producers from
/// the nearest (EX/MEM) to the oldest (the last written-back latch). A load still in EX/MEM
/// cannot forward yet: `None` asks for a stall. Register 0 is never forwarded.
pub open spec fn fwd_vreg(a: EX_MEM_rf, b: MEM_WB_RF, c: MEM_WB_RF, rs: u8, lit: [u32; 4]) -> Option<[u32; 4]> {
    if rs == 0 {
        Some(lit)
    } else if a.valid && a.wb_op == (WBop::WB_VEC { rd: rs }) {
        if a.dma_op is READ_VEC { None } else { a.arith_result }
    } else if b.valid && b.wb_op == (WBop::WB_VEC { rd: rs }) {
        b.arith_result
    } else if c.valid && c.wb_op == (WBop::WB_VEC { rd: rs }) {
        c.arith_result
    } else {
        Some(lit)
    }
}

/// The fat-pointer operand EX uses for register `frs`, forwarded like `fwd_vreg`
/// (every fat-pointer register, 0 included, can be forwarded).
pub open spec fn fwd_freg(a: EX_MEM_rf, b: MEM_WB_RF, c: MEM_WB_RF, frs: u8, lit: fatptr_rf) -> Option<fatptr_rf> {
    if a.valid && a.wb_op == (WBop::WB_FPTR { frd: frs }) {
        if a.dma_op is READ_FPTR { None } else { a.ptr_result }
    } else if b.valid && b.wb_op == (WBop::WB_FPTR { frd: frs }) {
        b.ptr_result
    } else if c.valid && c.wb_op == (WBop::WB_FPTR { frd: frs }) {
        c.ptr_result
    } else {
        Some(lit)
    }
}

/// The memory operation with its store data forwarded; `None` asks for a stall.
pub open spec fn fwd_dma(a: EX_MEM_rf, b: MEM_WB_RF, c: MEM_WB_RF, d: DMAop) -> Option<DMAop> {
    match d {
        DMAop::WRITE_VEC { rs, data_lit } => match fwd_vreg(a, b, c, rs, data_lit) {
            Some(x) => Some(DMAop::WRITE_VEC { rs, data_lit: x }),
            None => None,
        },
        DMAop::WRITE_FPTR { frs, fptr_data_lit } => match fwd_freg(a, b, c, frs, fptr_data_lit) {
            Some(x) => Some(DMAop::WRITE_FPTR { frs, fptr_data_lit: x }),
            None => None,
        },
        _ => Some(d),
    }
}

/// Every register a valid latch writes back exists.
pub open spec fn wb_dest_ok(valid: bool, w: WBop) -> bool {
    valid ==> match w {
        WBop::WB_VEC { rd } => rd < 8,
        WBop::WB_FPTR { frd } => frd < 8,
        WBop::NOP => true,
    }
}

/// The registers after WB writes back latch `l`.
pub open spec fn rf_after_wb(rf: cpu_rf_state, m: Map<u32, mem_entry>, l: MEM_WB_RF) -> cpu_rf_state {
    apply_cpu_actions(rf, m, cpu_wb_spec(l).1).0
}

/// The registers once the in-flight instructions have written back in program order: the
/// last written-back latch `c`, then MEM/WB `b`, then EX/MEM `a` after it passes MEM over
/// memory `m`.
pub open spec fn rf_in_program_order(rf: cpu_rf_state, m: Map<u32, mem_entry>, a: EX_MEM_rf, b: MEM_WB_RF, c: MEM_WB_RF) -> cpu_rf_state {
    rf_after_wb(rf_after_wb(rf_after_wb(rf, m, c), m, b), m, cpu_mem_spec(a, m).0)
}

/// A latch that names a register as its destination produces a value for it: an arithmetic
/// result for a vector destination, a pointer for a fat-pointer destination.
pub open spec fn wb_result_ok(l: MEM_WB_RF) -> bool {
    l.valid ==> match l.wb_op {
        WBop::WB_VEC { .. } => l.arith_result is Some,
        WBop::WB_FPTR { .. } => l.ptr_result is Some,
        WBop::NOP => true,
    }
}

/// The effect of one write-back on a single register.
proof fn lemma_wb_effect(rf: cpu_rf_state, m: Map<u32, mem_entry>, l: MEM_WB_RF)
    requires
        rf.v.len() == 8,
        rf.f.len() == 8,
        wb_dest_ok(l.valid, l.wb_op),
    ensures
        rf_after_wb(rf, m, l).v.len() == 8,
        rf_after_wb(rf, m, l).f.len() == 8,
        forall|r: u8| r < 8 ==> #[trigger] rf_after_wb(rf, m, l).f[r as int]
            == (if l.valid && l.wb_op == (WBop::WB_FPTR { frd: r }) && l.ptr_result is Some { l.ptr_result } else { rf.f[r as int] }),
        forall|r: u8| r < 8 ==> #[trigger] rf_after_wb(rf, m, l).v[r as int]
            == (if r != 0 && l.valid && l.wb_op == (WBop::WB_VEC { rd: r }) && l.arith_result is Some {
                l.arith_result->Some_0
            } else {
                rf.v[r as int]
            }),
{
    let ops = cpu_wb_spec(l).1;
    assert(ops.len() == 1);
    assert(ops.drop_last() =~= Seq::<arch_action>::empty());
    assert(apply_cpu_actions(rf, m, ops.drop_last()) == (rf, m));
    assert(rf_after_wb(rf, m, l) == apply_cpu_action(rf, m, ops[0]).0);
    if l.valid {
        match l.wb_op {
            WBop::WB_VEC { rd } => {
                if l.arith_result is Some {
                    assert(ops[0] == (arch_action::WriteVRF { rd, content: l.arith_result->Some_0 }));
                } else {
                    assert(ops[0] == arch_action::DoNothing);
                }
            },
            WBop::WB_FPTR { frd } => {
                if l.ptr_result is Some {
                    assert(ops[0] == (arch_action::WriteFPTR { frd, content: l.ptr_result->Some_0 }));
                } else {
                    assert(ops[0] == arch_action::DoNothing);
                }
            },
            WBop::NOP => {
                assert(ops[0] == arch_action::DoNothing);
            },
        }
    } else {
        assert(ops[0] == arch_action::DoNothing);
    }
}

/// Forwarding gives EX the fat pointer that register `frs` holds once every older
/// instruction still in flight has written back in program order: when EX/MEM and MEM/WB
/// both write `frs`, the younger EX/MEM value wins over MEM/WB, which wins over the last
/// written-back latch, which wins over the value read at decode. Only a fat-pointer load of
/// `frs` still in EX/MEM has no value yet, and then EX stalls.
pub proof fn lemma_pointer_operand_follows_program_order(
    a: EX_MEM_rf,
    b: MEM_WB_RF,
    c: MEM_WB_RF,
    rf: cpu_rf_state,
    m: Map<u32, mem_entry>,
    frs: u8,
)
    requires
        rf.v.len() == 8,
        rf.f.len() == 8,
        frs < 8,
        rf.f[frs as int] is Some,
        wb_dest_ok(a.valid, a.wb_op),
        wb_dest_ok(b.valid, b.wb_op),
        wb_dest_ok(c.valid, c.wb_op),
        wb_result_ok(b),
        wb_result_ok(c),
        a.valid && a.wb_op is WB_FPTR ==> (a.dma_op is NOP && a.ptr_result is Some) || a.dma_op is READ_FPTR,
    ensures
        a.valid && a.wb_op == (WBop::WB_FPTR { frd: frs }) && a.dma_op is READ_FPTR
            ==> fwd_freg(a, b, c, frs, rf.f[frs as int]->Some_0) is None,
        !(a.valid && a.wb_op == (WBop::WB_FPTR { frd: frs }) && a.dma_op is READ_FPTR)
            ==> fwd_freg(a, b, c, frs, rf.f[frs as int]->Some_0) == rf_in_program_order(rf, m, a, b, c).f[frs as int],
{
    let rf1 = rf_after_wb(rf, m, c);
    let rf2 = rf_after_wb(rf1, m, b);
    let am = cpu_mem_spec(a, m).0;
    lemma_wb_effect(rf, m, c);
    lemma_wb_effect(rf1, m, b);
    assert(wb_dest_ok(am.valid, am.wb_op));
    lemma_wb_effect(rf2, m, am);
    assert(rf_after_wb(rf, m, c).f[frs as int] == rf1.f[frs as int]);
    assert(rf2.f[frs as int] == rf_after_wb(rf1, m, b).f[frs as int]);
    assert(rf_after_wb(rf2, m, am).f[frs as int] == rf_in_program_order(rf, m, a, b, c).f[frs as int]);
}

/// Forwarding gives EX the vector that register `rs` holds once every older instruction
/// still in flight has written back in program order (the youngest writer wins, and
/// register 0 keeps its value). Only a vector load of `rs` still in EX/MEM has no value yet,
/// and then EX stalls.
pub proof fn lemma_vector_operand_follows_program_order(
    a: EX_MEM_rf,
    b: MEM_WB_RF,
    c: MEM_WB_RF,
    rf: cpu_rf_state,
    m: Map<u32, mem_entry>,
    rs: u8,
)
    requires
        rf.v.len() == 8,
        rf.f.len() == 8,
        rs < 8,
        wb_dest_ok(a.valid, a.wb_op),
        wb_dest_ok(b.valid, b.wb_op),
        wb_dest_ok(c.valid, c.wb_op),
        wb_result_ok(b),
        wb_result_ok(c),
        a.valid && a.wb_op is WB_VEC ==> (a.dma_op is NOP && a.arith_result is Some) || a.dma_op is READ_VEC,
    ensures
        rs != 0 && a.valid && a.wb_op == (WBop::WB_VEC { rd: rs }) && a.dma_op is READ_VEC
            ==> fwd_vreg(a, b, c, rs, rf.v[rs as int]) is None,
        !(rs != 0 && a.valid && a.wb_op == (WBop::WB_VEC { rd: rs }) && a.dma_op is READ_VEC)
            ==> fwd_vreg(a, b, c, rs, rf.v[rs as int]) == Some(rf_in_program_order(rf, m, a, b, c).v[rs as int]),
{
    let rf1 = rf_after_wb(rf, m, c);
    let rf2 = rf_after_wb(rf1, m, b);
    let am = cpu_mem_spec(a, m).0;
    lemma_wb_effect(rf, m, c);
    lemma_wb_effect(rf1, m, b);
    assert(wb_dest_ok(am.valid, am.wb_op));
    lemma_wb_effect(rf2, m, am);
    assert(rf_after_wb(rf, m, c).v[rs as int] == rf1.v[rs as int]);
    assert(rf2.v[rs as int] == rf_after_wb(rf1, m, b).v[rs as int]);
    assert(rf_after_wb(rf2, m, am).v[rs as int] == rf_in_program_order(rf, m, a, b, c).v[rs as int]);
}

/// No vector load of register `rs` is still waiting in EX/MEM for its data.
pub open spec fn no_pending_vec_load(a: EX_MEM_rf, rs: u8) -> bool {
    !(rs != 0 && a.valid && a.wb_op == (WBop::WB_VEC { rd: rs }) && a.dma_op is READ_VEC)
}

/// An arithmetic instruction computes on the registers as they stand after every older
/// instruction has written back in program order: decoding `ADD128`, `SUB128`, `MUL128` or
/// `AND128 { rd, rs1, rs2 }` and executing it with forwarding from the in-flight latches
/// gives, lane by lane, the sum, difference, product or bitwise and of registers `rs1` and
/// `rs2` (in that order) of that register state, to be written back to `rd`.
pub proof fn lemma_arith_follows_program_order(
    i: inst,
    a: EX_MEM_rf,
    b: MEM_WB_RF,
    c: MEM_WB_RF,
    rf: cpu_rf_state,
    m: Map<u32, mem_entry>,
    rs1: u8,
    rs2: u8,
)
    requires
        rf.v.len() == 8,
        rf.f.len() == 8,
        rs1 < 8,
        rs2 < 8,
        i matches inst::ADD128 { rs1: x, rs2: y, .. } ==> x == rs1 && y == rs2,
        i matches inst::SUB128 { rs1: x, rs2: y, .. } ==> x == rs1 && y == rs2,
        i matches inst::MUL128 { rs1: x, rs2: y, .. } ==> x == rs1 && y == rs2,
        i matches inst::AND128 { rs1: x, rs2: y, .. } ==> x == rs1 && y == rs2,
        wb_dest_ok(a.valid, a.wb_op),
        wb_dest_ok(b.valid, b.wb_op),
        wb_dest_ok(c.valid, c.wb_op),
        wb_result_ok(b),
        wb_result_ok(c),
        a.valid && a.wb_op is WB_VEC ==> (a.dma_op is NOP && a.arith_result is Some) || a.dma_op is READ_VEC,
        no_pending_vec_load(a, rs1),
        no_pending_vec_load(a, rs2),
    ensures
        ({
            let l = decode_spec(i, rf);
            let p = rf_in_program_order(rf, m, a, b, c);
            match i {
                inst::ADD128 { rd, .. } => {
                    &&& l.wb_op == (WBop::WB_VEC { rd })
                    &&& l.dma_op == DMAop::NOP
                    &&& ex_alu(a, b, c, l.alu_op) matches ex_alu_outcome::Value(Some(r))
                    &&& forall|k: int| 0 <= k < 4 ==> #[trigger] r@[k] == (p.v[rs1 as int]@[k] + p.v[rs2 as int]@[k]) as u32
                },
                inst::SUB128 { rd, .. } => {
                    &&& l.wb_op == (WBop::WB_VEC { rd })
                    &&& l.dma_op == DMAop::NOP
                    &&& ex_alu(a, b, c, l.alu_op) matches ex_alu_outcome::Value(Some(r))
                    &&& forall|k: int| 0 <= k < 4 ==> #[trigger] r@[k] == (p.v[rs1 as int]@[k] - p.v[rs2 as int]@[k]) as u32
                },
                inst::MUL128 { rd, .. } => {
                    &&& l.wb_op == (WBop::WB_VEC { rd })
                    &&& l.dma_op == DMAop::NOP
                    &&& ex_alu(a, b, c, l.alu_op) matches ex_alu_outcome::Value(Some(r))
                    &&& forall|k: int| 0 <= k < 4 ==> #[trigger] r@[k] == (p.v[rs1 as int]@[k] * p.v[rs2 as int]@[k]) as u32
                },
                inst::AND128 { rd, .. } => {
                    &&& l.wb_op == (WBop::WB_VEC { rd })
                    &&& l.dma_op == DMAop::NOP
                    &&& ex_alu(a, b, c, l.alu_op) matches ex_alu_outcome::Value(Some(r))
                    &&& forall|k: int| 0 <= k < 4 ==> #[trigger] r@[k] == p.v[rs1 as int]@[k] & p.v[rs2 as int]@[k]
                },
                _ => true,
            }
        }),
{
    lemma_vector_operand_follows_program_order(a, b, c, rf, m, rs1);
    lemma_vector_operand_follows_program_order(a, b, c, rf, m, rs2);
}

/// A vector load reaches memory through the fat pointer its register holds once every older
/// instruction has written back in program order: decoding `LD128 { rd, frs }` and
/// executing it with forwarding from the in-flight latches gives a read into `rd` at the
/// physical address of that pointer when the AGU table accepts it, and an exception
/// otherwise.
pub proof fn lemma_load_uses_program_order_pointer(
    a: EX_MEM_rf,
    b: MEM_WB_RF,
    c: MEM_WB_RF,
    rf: cpu_rf_state,
    m: Map<u32, mem_entry>,
    table: Map<u8, AGU_entry>,
    rd: u8,
    frs: u8,
)
    requires
        rf.v.len() == 8,
        rf.f.len() == 8,
        frs < 8,
        rf.f[frs as int] is Some,
        wb_dest_ok(a.valid, a.wb_op),
        wb_dest_ok(b.valid, b.wb_op),
        wb_dest_ok(c.valid, c.wb_op),
        wb_result_ok(b),
        wb_result_ok(c),
        a.valid && a.wb_op is WB_FPTR ==> (a.dma_op is NOP && a.ptr_result is Some) || a.dma_op is READ_FPTR,
        !(a.valid && a.wb_op == (WBop::WB_FPTR { frd: frs }) && a.dma_op is READ_FPTR),
    ensures
        ({
            let f = rf_in_program_order(rf, m, a, b, c).f[frs as int]->Some_0;
            let (l, sr, _) = cpu_ex_spec(a, b, c, table, decode_spec(inst::LD128 { rd, frs }, rf));
            &&& accepts(table, f) ==> l == (EX_MEM_rf {
                valid: true,
                phys_addr: Some((entry_base(table, f.tag) + f.offset) as u32),
                arith_result: None,
                ptr_result: None,
                dma_op: DMAop::READ_VEC { rd },
                wb_op: WBop::WB_VEC { rd },
            })
            &&& !accepts(table, f) ==> !l.valid && sr.sig_reason == signal_reason::exception
        }),
{
    lemma_pointer_operand_follows_program_order(a, b, c, rf, m, frs);
}

impl CPU {
    fn ex_bypass_get_vreg(&self, rs: u8, rs_lit: [u32; 4]) -> (r: Option<[u32; 4]>)
        ensures
            r == fwd_vreg(self.ex_mem_rf, self.mem_wb_rf, self.wb_forward_rf, rs, rs_lit),
    {
        if rs == 0 {
            return Some(rs_lit);
        }
        if self.ex_mem_rf.is_valid() {
            if let WBop::WB_VEC { rd } = self.ex_mem_rf.get_wb_op() {
                if rd == rs {
                    if matches!(self.ex_mem_rf.get_dma_op(), DMAop::READ_VEC { .. }) {
                        return None;
                    }
                    return self.ex_mem_rf.get_arith_result();
                }
            }
        }
        if self.mem_wb_rf.is_valid() {
            if let WBop::WB_VEC { rd } = self.mem_wb_rf.get_wb_op() {
                if rd == rs {
                    return self.mem_wb_rf.get_arith_result();
                }
            }
        }
        if self.wb_forward_rf.is_valid() {
            if let WBop::WB_VEC { rd } = self.wb_forward_rf.get_wb_op() {
                if rd == rs {
                    return self.wb_forward_rf.get_arith_result();
                }
            }
        }
        Some(rs_lit)
    }

    pub fn ex_bypass_get_rs1(&self, rs1: u8, rs1_lit: [u32; 4]) -> (r: Option<[u32; 4]>)
        ensures
            r == fwd_vreg(self.ex_mem_rf, self.mem_wb_rf, self.wb_forward_rf, rs1, rs1_lit),
    {
        self.ex_bypass_get_vreg(rs1, rs1_lit)
    }

    pub fn ex_bypass_get_rs2(&self, rs2: u8, rs2_lit: [u32; 4]) -> (r: Option<[u32; 4]>)
        ensures
            r == fwd_vreg(self.ex_mem_rf, self.mem_wb_rf, self.wb_forward_rf, rs2, rs2_lit),
    {
        self.ex_bypass_get_vreg(rs2, rs2_lit)
    }

    pub fn agu_bypass_get_frs(&self, frs: u8, frs_lit: fatptr_rf) -> (r: Option<fatptr_rf>)
        ensures
            r == fwd_freg(self.ex_mem_rf, self.mem_wb_rf, self.wb_forward_rf, frs, frs_lit),
    {
        if self.ex_mem_rf.is_valid() {
            if let WBop::WB_FPTR { frd } = self.ex_mem_rf.get_wb_op() {
                if frd == frs {
                    if matches!(self.ex_mem_rf.get_dma_op(), DMAop::READ_FPTR { .. }) {
                        return None;
                    }
                    return self.ex_mem_rf.get_ptr_result();
                }
            }
        }
        if self.mem_wb_rf.is_valid() {
            if let WBop::WB_FPTR { frd } = self.mem_wb_rf.get_wb_op() {
                if frd == frs {
                    return self.mem_wb_rf.get_ptr_result();
                }
            }
        }
        if self.wb_forward_rf.is_valid() {
            if let WBop::WB_FPTR { frd } = self.wb_forward_rf.get_wb_op() {
                if frd == frs {
                    return self.wb_forward_rf.get_ptr_result();
                }
            }
        }
        Some(frs_lit)
    }

    pub fn agu_bypass_get_rs1(&self, rs1: u8, rs1_lit: [u32; 4]) -> (r: Option<[u32; 4]>)
        ensures
            r == fwd_vreg(self.ex_mem_rf, self.mem_wb_rf, self.wb_forward_rf, rs1, rs1_lit),
    {
        self.ex_bypass_get_vreg(rs1, rs1_lit)
    }

    pub fn agu_bypass_dma_op(&self, dma_op: DMAop) -> (r: Option<DMAop>)
        ensures
            r == fwd_dma(self.ex_mem_rf, self.mem_wb_rf, self.wb_forward_rf, dma_op),
    {
        match dma_op {
            DMAop::WRITE_VEC { rs, data_lit } => match self.agu_bypass_get_rs1(rs, data_lit) {
                Some(data_lit) => Some(DMAop::WRITE_VEC { rs, data_lit }),
                None => None,
            },
            DMAop::WRITE_FPTR { frs, fptr_data_lit } => match self.agu_bypass_get_frs(frs, fptr_data_lit) {
                Some(fptr_data_lit) => Some(DMAop::WRITE_FPTR { frs, fptr_data_lit }),
                None => None,
            },
            _ => Some(dma_op),
        }
    }
}

/// The effect of one architectural update on the registers and the memory (the PC is
/// handled by `next_pc`).
pub open spec fn apply_cpu_action(rf: cpu_rf_state, m: Map<u32, mem_entry>, a: arch_action) -> (cpu_rf_state, Map<u32, mem_entry>) {
    match a {
        arch_action::WriteVRF { rd, content } => (with_vreg(rf, rd, content), m),
        arch_action::WriteFPTR { frd, content } => (with_freg(rf, frd, content), m),
        arch_action::WriteMEM_DATA { addr, content } => (
            rf,
            mem_write(m, addr, MemEntryData::CPU_Data(content), |d: MemEntryData| cpu_data_write(d, content)).1,
        ),
        arch_action::WriteMEM_FPTR { addr, content } => (
            rf,
            mem_write(m, addr, MemEntryData::CPU_FatPtr(content), |d: MemEntryData| cpu_fptr_write(d, content)).1,
        ),
        _ => (rf, m),
    }
}

/// The updates applied in order.
pub open spec fn apply_cpu_actions(rf: cpu_rf_state, m: Map<u32, mem_entry>, ops: Seq<arch_action>) -> (cpu_rf_state, Map<u32, mem_entry>)
    decreases ops.len(),
{
    if ops.len() == 0 {
        (rf, m)
    } else {
        let (rf1, m1) = apply_cpu_actions(rf, m, ops.drop_last());
        apply_cpu_action(rf1, m1, ops.last())
    }
}

/// The PC after one cycle: the last PC update among `ops` decides; without one the PC
/// moves to the next instruction (wrapping).
pub open spec fn next_pc(cur: u16, ops: Seq<arch_action>) -> u16
    decreases ops.len(),
{
    if ops.len() == 0 {
        if cur == u16::MAX { 0 } else { (cur + 1) as u16 }
    } else {
        match ops.last() {
            arch_action::WritePC { new_pc } => new_pc,
            arch_action::HoldPC => cur,
            _ => next_pc(cur, ops.drop_last()),
        }
    }
}

/// No two updates write the same architectural location.
pub open spec fn cpu_dests_distinct(ops: Seq<arch_action>) -> bool {
    forall|i: int, j: int|
        0 <= i < j < ops.len() && (#[trigger] action_dest(ops[i])) is Some ==> action_dest(ops[i]) != #[trigger] action_dest(ops[j])
}

/// Every register an update writes exists.
pub open spec fn cpu_regs_ok(ops: Seq<arch_action>) -> bool {
    forall|i: int| 0 <= i < ops.len() ==> match #[trigger] ops[i] {
        arch_action::WriteVRF { rd, .. } => rd < 8,
        arch_action::WriteFPTR { frd, .. } => frd < 8,
        _ => true,
    }
}

/// The registers and memory after applying `ops` at PC `rf.pc`.
pub open spec fn arch_update_spec(rf: cpu_rf_state, m: Map<u32, mem_entry>, ops: Seq<arch_action>) -> (cpu_rf_state, Map<u32, mem_entry>) {
    let (rf1, m1) = apply_cpu_actions(rf, m, ops);
    (cpu_rf_state { pc: next_pc(rf.pc, ops), ..rf1 }, m1)
}

impl CPU {
    /// Applies the architectural updates of one cycle: register and memory writes, then the
    /// PC. The updates must write distinct locations and existing registers.
    pub fn arch_update(&mut self, op_vec: Vec<arch_action>)
        requires
            cpu_dests_distinct(op_vec@),
            cpu_regs_ok(op_vec@),
            old(self)@.rf.v.len() == 8,
            old(self)@.rf.f.len() == 8,
        ensures
            (final(self)@.rf, final(self)@.mem) == arch_update_spec(old(self)@.rf, old(self)@.mem, op_vec@),
            final(self)@ == (cpu_state { rf: final(self)@.rf, mem: final(self)@.mem, ..old(self)@ }),
    {
        let current_pc = self.RF.read_pc();
        let mut pc_next: u16 = if current_pc == u16::MAX { 0 } else { current_pc + 1 };
        let mut i: usize = 0;
        while i < op_vec.len()
            invariant
                i <= op_vec@.len(),
                cpu_regs_ok(op_vec@),
                current_pc == old(self)@.rf.pc,
                (cpu_rf_state { pc: current_pc, ..self@.rf }, self@.mem) == apply_cpu_actions(old(self)@.rf, old(self)@.mem, op_vec@.subrange(0, i as int)),
                self@.rf.pc == current_pc,
                pc_next == next_pc(current_pc, op_vec@.subrange(0, i as int)),
                self@ == (cpu_state { rf: self@.rf, mem: self@.mem, ..old(self)@ }),
                self@.rf.v.len() == 8,
                self@.rf.f.len() == 8,
            decreases op_vec@.len() - i,
        {
            let op = op_vec[i];
            assert(op_vec@.subrange(0, i as int + 1).drop_last() =~= op_vec@.subrange(0, i as int));
            match op {
                arch_action::WritePC { new_pc } => {
                    pc_next = new_pc;
                },
                arch_action::HoldPC => {
                    pc_next = current_pc;
                },
                arch_action::WriteVRF { rd, content } => {
                    self.RF.write_vregs(rd, content);
                },
                arch_action::WriteFPTR { frd, content } => {
                    self.RF.write_fregs(frd, content);
                },
                arch_action::WriteMEM_DATA { addr, content } => {
                    self.fmem.mem_write_data(addr, &content);
                },
                arch_action::WriteMEM_FPTR { addr, content } => {
                    self.fmem.mem_write_fptr(addr, &content);
                },
                arch_action::DoNothing => {},
            }
            i = i + 1;
        }
        assert(op_vec@.subrange(0, op_vec@.len() as int) =~= op_vec@);
        self.RF.write_pc(pc_next);
    }
}

/// The PC rule: without an update of the PC it moves to the next instruction (wrapping);
/// a hold as the last PC update keeps it; a jump as the last PC update sets it.
pub proof fn lemma_next_pc(cur: u16, ops: Seq<arch_action>, target: u16)
    ensures
        (forall|i: int| 0 <= i < ops.len() ==> action_dest(#[trigger] ops[i]) != Some(crate::cpu::pimcpu_types::arch_dest::PC))
            ==> next_pc(cur, ops) == (if cur == u16::MAX { 0 } else { (cur + 1) as u16 }),
        next_pc(cur, ops.push(arch_action::HoldPC)) == cur,
        next_pc(cur, ops.push(arch_action::WritePC { new_pc: target })) == target,
    decreases ops.len(),
{
    assert(ops.push(arch_action::HoldPC).drop_last() =~= ops);
    if ops.len() > 0 {
        lemma_next_pc(cur, ops.drop_last(), target);
        if forall|i: int| 0 <= i < ops.len() ==> action_dest(#[trigger] ops[i]) != Some(crate::cpu::pimcpu_types::arch_dest::PC) {
            assert(action_dest(ops[ops.len() - 1]) != Some(crate::cpu::pimcpu_types::arch_dest::PC));
            assert forall|i: int| 0 <= i < ops.drop_last().len() implies action_dest(#[trigger] ops.drop_last()[i]) != Some(crate::cpu::pimcpu_types::arch_dest::PC) by {
                assert(ops.drop_last()[i] == ops[i]);
            }
        }
    }
}

} // verus!
