use vstd::prelude::*;
use crate::PE::types::ALUop;

verus! {

/// What the PE's ALU produces.
#[allow(inconsistent_fields)]
#[derive(Clone, Copy, Debug, PartialEq, Eq)]
pub enum ALU_out {
    vec_out { lit: [i16; 8] },
    scalar_out { lit: i32 },
    NA,
}

/// Lane-wise vector operations of the PE.
#[derive(Clone, Copy, Debug, PartialEq, Eq)]
pub enum lane_op {
    Add,
    Sub,
    Mul,
}

/// The value of one lane under a lane-wise operation (two's-complement wrap-around).
pub open spec fn lane_spec(op: lane_op, a: i16, b: i16) -> i16 {
    match op {
        lane_op::Add => vstd::wrapping::i16_specs::wrapping_add(a, b),
        lane_op::Sub => vstd::wrapping::i16_specs::wrapping_sub(a, b),
        lane_op::Mul => vstd::wrapping::i16_specs::wrapping_mul(a, b),
    }
}

/// Sum of the first `n` lane products of two vectors, in unbounded integers.
pub open spec fn dot_prefix(lhs: Seq<i16>, rhs: Seq<i16>, n: nat) -> int
    decreases n,
{
    if n == 0 {
        0
    } else {
        dot_prefix(lhs, rhs, (n - 1) as nat) + lhs[n - 1] * rhs[n - 1]
    }
}

/// Every running sum of the dot product of two vectors stays inside `i32`.
pub open spec fn dot_fits_i32(lhs: Seq<i16>, rhs: Seq<i16>) -> bool {
    forall|n: nat| n <= 8 ==> i32::MIN <= #[trigger] dot_prefix(lhs, rhs, n) <= i32::MAX
}

/// A MAC operation does not overflow `i32` while it accumulates.
pub open spec fn mac_fits_i32(acc: i32, lhs: Seq<i16>, rhs: Seq<i16>) -> bool {
    &&& dot_fits_i32(lhs, rhs)
    &&& i32::MIN <= acc + dot_prefix(lhs, rhs, 8) <= i32::MAX
}

/// The ALU operation can be evaluated without an arithmetic overflow.
pub open spec fn alu_op_ok(op: ALUop) -> bool {
    match op {
        ALUop::MAC { sRS0_lit, vRS0_lit, vRS1_lit, .. } => mac_fits_i32(
            sRS0_lit,
            vRS0_lit@,
            vRS1_lit@,
        ),
        _ => true,
    }
}

/// `op` applied lane by lane.
pub open spec fn lanes_spec(op: lane_op, l: [i16; 8], r: [i16; 8]) -> [i16; 8] {
    [
        lane_spec(op, l@[0], r@[0]),
        lane_spec(op, l@[1], r@[1]),
        lane_spec(op, l@[2], r@[2]),
        lane_spec(op, l@[3], r@[3]),
        lane_spec(op, l@[4], r@[4]),
        lane_spec(op, l@[5], r@[5]),
        lane_spec(op, l@[6], r@[6]),
        lane_spec(op, l@[7], r@[7]),
    ]
}

/// A lane clamped below at zero.
pub open spec fn relu_lane(x: i16) -> i16 {
    if x < 0 { 0 } else { x }
}

/// Negative lanes replaced by zero.
pub open spec fn relu_spec(v: [i16; 8]) -> [i16; 8] {
    [
        relu_lane(v@[0]),
        relu_lane(v@[1]),
        relu_lane(v@[2]),
        relu_lane(v@[3]),
        relu_lane(v@[4]),
        relu_lane(v@[5]),
        relu_lane(v@[6]),
        relu_lane(v@[7]),
    ]
}

/// The result of the ALU operation `op`.
pub open spec fn alu_result(op: ALUop) -> ALU_out {
    match op {
        ALUop::ADD { vRS0_lit, vRS1_lit, .. } => ALU_out::vec_out {
            lit: lanes_spec(lane_op::Add, vRS0_lit, vRS1_lit),
        },
        ALUop::SUB { vRS0_lit, vRS1_lit, .. } => ALU_out::vec_out {
            lit: lanes_spec(lane_op::Sub, vRS0_lit, vRS1_lit),
        },
        ALUop::MUL { vRS0_lit, vRS1_lit, .. } => ALU_out::vec_out {
            lit: lanes_spec(lane_op::Mul, vRS0_lit, vRS1_lit),
        },
        ALUop::MAC { sRS0_lit, vRS0_lit, vRS1_lit, .. } => ALU_out::scalar_out {
            lit: (sRS0_lit + dot_prefix(vRS0_lit@, vRS1_lit@, 8)) as i32,
        },
        ALUop::ReLU { vRS0_lit, .. } => ALU_out::vec_out { lit: relu_spec(vRS0_lit) },
        ALUop::NOP => ALU_out::NA,
    }
}

fn lane(op: lane_op, a: i16, b: i16) -> (r: i16)
    ensures
        r == lane_spec(op, a, b),
{
    match op {
        lane_op::Add => a.wrapping_add(b),
        lane_op::Sub => a.wrapping_sub(b),
        lane_op::Mul => a.wrapping_mul(b),
    }
}

/// Applies a lane-wise operation to two vectors.
pub fn zip_vector(lhs: [i16; 8], rhs: [i16; 8], op: lane_op) -> (out: [i16; 8])
    ensures
        out == lanes_spec(op, lhs, rhs),
{
    let mut out = [0i16; 8];
    let mut i: usize = 0;
    while i < 8
        invariant
            0 <= i <= 8,
            forall|j: int| 0 <= j < i ==> #[trigger] out@[j] == lane_spec(op, lhs@[j], rhs@[j]),
        decreases 8 - i,
    {
        let v = lane(op, lhs[i], rhs[i]);
        out[i] = v;
        i = i + 1;
    }
    assert(out@ =~= lanes_spec(op, lhs, rhs)@);
    out
}

/// The dot product of two vectors, accumulated in `i32`.
pub fn dot_product(lhs: [i16; 8], rhs: [i16; 8]) -> (s: i32)
    requires
        dot_fits_i32(lhs@, rhs@),
    ensures
        s == dot_prefix(lhs@, rhs@, 8),
{
    let mut acc: i32 = 0;
    let mut i: usize = 0;
    while i < 8
        invariant
            0 <= i <= 8,
            dot_fits_i32(lhs@, rhs@),
            acc == dot_prefix(lhs@, rhs@, i as nat),
        decreases 8 - i,
    {
        assert(i32::MIN <= dot_prefix(lhs@, rhs@, (i + 1) as nat) <= i32::MAX);
        let a = lhs[i] as i32;
        let b = rhs[i] as i32;
        assert(-0x4000_0000 <= a * b <= 0x4000_0000) by (nonlinear_arith)
            requires
                -0x8000 <= a <= 0x7fff,
                -0x8000 <= b <= 0x7fff,
        ;
        let p: i32 = a * b;
        acc = acc + p;
        i = i + 1;
    }
    acc
}

fn relu(v: [i16; 8]) -> (out: [i16; 8])
    ensures
        out == relu_spec(v),
{
    let mut out = [0i16; 8];
    let mut i: usize = 0;
    while i < 8
        invariant
            0 <= i <= 8,
            forall|j: int| 0 <= j < i ==> #[trigger] out@[j] == (if v@[j] < 0 { 0i16 } else { v@[j] }),
        decreases 8 - i,
    {
        let x = v[i];
        let y = if x < 0 { 0i16 } else { x };
        out[i] = y;
        i = i + 1;
    }
    assert(out@ =~= relu_spec(v)@);
    out
}

/// Evaluates one PE ALU operation.
pub fn ALU_comp(aluop: ALUop) -> (out: ALU_out)
    requires
        alu_op_ok(aluop),
    ensures
        out == alu_result(aluop),
{
    match aluop {
        ALUop::ADD { vRS0_lit, vRS1_lit, .. } => {
            let lit = zip_vector(vRS0_lit, vRS1_lit, lane_op::Add);
            ALU_out::vec_out { lit }
        },
        ALUop::SUB { vRS0_lit, vRS1_lit, .. } => {
            let lit = zip_vector(vRS0_lit, vRS1_lit, lane_op::Sub);
            ALU_out::vec_out { lit }
        },
        ALUop::MUL { vRS0_lit, vRS1_lit, .. } => {
            let lit = zip_vector(vRS0_lit, vRS1_lit, lane_op::Mul);
            ALU_out::vec_out { lit }
        },
        ALUop::MAC { sRS0_lit, vRS0_lit, vRS1_lit, .. } => {
            let d = dot_product(vRS0_lit, vRS1_lit);
            ALU_out::scalar_out { lit: sRS0_lit + d }
        },
        ALUop::ReLU { vRS0_lit, .. } => {
            let lit = relu(vRS0_lit);
            ALU_out::vec_out { lit }
        },
        ALUop::NOP => ALU_out::NA,
    }
}

/// Every running sum of the first `k` lane products stays inside `i32`.
pub open spec fn prefix_fits(lhs: Seq<i16>, rhs: Seq<i16>, k: nat) -> bool {
    forall|n: nat| n <= k ==> i32::MIN <= #[trigger] dot_prefix(lhs, rhs, n) <= i32::MAX
}

/// Whether a MAC with accumulator `acc` and operands `lhs`, `rhs` stays inside `i32`.
pub fn mac_fits(acc: i32, lhs: [i16; 8], rhs: [i16; 8]) -> (r: bool)
    ensures
        r == mac_fits_i32(acc, lhs@, rhs@),
{
    let mut sum: i64 = 0;
    let mut i: usize = 0;
    let mut ok = true;
    assert(dot_prefix(lhs@, rhs@, 0) == 0);
    while i < 8
        invariant
            0 <= i <= 8,
            sum == dot_prefix(lhs@, rhs@, i as nat),
            sum >= -0x4000_0000 * i && sum <= 0x4000_0000 * i,
            ok == prefix_fits(lhs@, rhs@, i as nat),
        decreases 8 - i,
    {
        let a = lhs[i] as i64;
        let b = rhs[i] as i64;
        assert(-0x4000_0000 <= a * b <= 0x4000_0000) by (nonlinear_arith)
            requires
                -0x8000 <= a <= 0x7fff,
                -0x8000 <= b <= 0x7fff,
        ;
        let ghost old_i = i as nat;
        sum = sum + a * b;
        i = i + 1;
        let fits = i32::MIN as i64 <= sum && sum <= i32::MAX as i64;
        proof {
            if prefix_fits(lhs@, rhs@, old_i) && fits {
                assert forall|n: nat| n <= i implies i32::MIN <= #[trigger] dot_prefix(lhs@, rhs@, n) <= i32::MAX by {
                    if n < i {
                        assert(n <= old_i);
                    }
                }
            }
            if prefix_fits(lhs@, rhs@, i as nat) {
                assert(i32::MIN <= dot_prefix(lhs@, rhs@, i as nat) <= i32::MAX);
                assert forall|n: nat| n <= old_i implies i32::MIN <= #[trigger] dot_prefix(lhs@, rhs@, n) <= i32::MAX by {
                    assert(n <= i);
                }
            }
        }
        ok = ok && fits;
    }
    ok && i32::MIN as i64 <= acc as i64 + sum && acc as i64 + sum <= i32::MAX as i64
}

} // verus!
