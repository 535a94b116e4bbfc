use vstd::prelude::*;
use crate::PE::types::inst as pe_inst;

verus! {

/// One 64-byte host cache line as eight 64-bit words.
pub type cacheline_payload = [u64; 8];

/// A command the host writes into (or reads from) the PIM command page.
#[derive(Clone, Copy, Debug, PartialEq, Eq, Structural)]
pub enum pim_cmd {
    Fgo(pe_inst),
    CgoStart,
    CgoQuery,
}

impl pim_cmd {
    /// Every command but the query is issued by a host write.
    pub fn expects_write(&self) -> (r: bool)
        ensures
            r == !(*self is CgoQuery),
    {
        !matches!(self, pim_cmd::CgoQuery)
    }
}

/// First byte address of the PIM command page.
pub const PIM_CMD_PAGE_BASE: u64 = 0x1_7ffe_f000;

/// Last byte address of the PIM command page.
pub const PIM_CMD_PAGE_END: u64 = 0x1_7ffe_ffff;

/// Size of one command slot: one cache line.
pub const PIM_CMD_SLOT_SIZE: u64 = 64;

pub const OP_NOP: u64 = 0;
pub const OP_ADD128: u64 = 1;
pub const OP_SUB128: u64 = 2;
pub const OP_MUL128: u64 = 3;
pub const OP_MAC128: u64 = 4;
pub const OP_RELU: u64 = 5;
pub const OP_LD128: u64 = 6;
pub const OP_ST128: u64 = 7;
pub const OP_LD32: u64 = 8;
pub const OP_ST32: u64 = 9;
pub const OP_CGO_START: u64 = 10;
pub const OP_CGO_QUERY: u64 = 11;

/// Register field `k` (0..=3) of an encoded command word: bits `4k .. 4k+4`.
pub open spec fn reg_field(encoded: u64, k: nat) -> u8 {
    ((encoded >> (4 * k) as u64) & 0xf) as u8
}

/// Memory-address field of an encoded command word: bits 16..48.
pub open spec fn mem_field(encoded: u64) -> u32 {
    ((encoded >> 16u64) & 0xffff_ffff) as u32
}

/// `addr` lies in the PIM command page.
pub open spec fn in_cmd_page(addr: u64) -> bool {
    PIM_CMD_PAGE_BASE <= addr <= PIM_CMD_PAGE_END
}

/// The command that slot `opcode` holds for the command word `w`, if the slot is defined.
pub open spec fn slot_command(opcode: u64, w: u64) -> Option<pim_cmd> {
    let a = reg_field(w, 0);
    let b = reg_field(w, 1);
    let c = reg_field(w, 2);
    let d = reg_field(w, 3);
    let m = mem_field(w);
    if opcode == OP_NOP {
        Some(pim_cmd::Fgo(pe_inst::NOP))
    } else if opcode == OP_ADD128 {
        Some(pim_cmd::Fgo(pe_inst::ADD128 { vRD: a, vRS0: b, vRS1: c }))
    } else if opcode == OP_SUB128 {
        Some(pim_cmd::Fgo(pe_inst::SUB128 { vRD: a, vRS0: b, vRS1: c }))
    } else if opcode == OP_MUL128 {
        Some(pim_cmd::Fgo(pe_inst::MUL128 { vRD: a, vRS0: b, vRS1: c }))
    } else if opcode == OP_MAC128 {
        Some(pim_cmd::Fgo(pe_inst::MAC128 { sRD: a, sRS0: d, vRS0: b, vRS1: c }))
    } else if opcode == OP_RELU {
        Some(pim_cmd::Fgo(pe_inst::ReLU { vRD: a, vRS0: b }))
    } else if opcode == OP_LD128 {
        Some(pim_cmd::Fgo(pe_inst::LD128 { vRD: a, addr: m }))
    } else if opcode == OP_ST128 {
        Some(pim_cmd::Fgo(pe_inst::ST128 { vRS: a, addr: m }))
    } else if opcode == OP_LD32 {
        Some(pim_cmd::Fgo(pe_inst::LD32 { sRD: a, addr: m }))
    } else if opcode == OP_ST32 {
        Some(pim_cmd::Fgo(pe_inst::ST32 { sRS: a, addr: m }))
    } else if opcode == OP_CGO_START {
        Some(pim_cmd::CgoStart)
    } else if opcode == OP_CGO_QUERY {
        Some(pim_cmd::CgoQuery)
    } else {
        None
    }
}

/// Why a command-page access does not decode.
#[derive(Clone, Copy, Debug, PartialEq, Eq)]
pub enum decode_failure {
    OutsidePage,
    Unaligned,
    UnknownOpcode,
}

/// The outcome of decoding an access to `addr` whose first payload word is `w`.
pub open spec fn decode_spec(addr: u64, w: u64) -> Result<pim_cmd, decode_failure> {
    if !in_cmd_page(addr) {
        Err(decode_failure::OutsidePage)
    } else if (addr - PIM_CMD_PAGE_BASE) % PIM_CMD_SLOT_SIZE as int != 0 {
        Err(decode_failure::Unaligned)
    } else {
        match slot_command(((addr - PIM_CMD_PAGE_BASE) / PIM_CMD_SLOT_SIZE as int) as u64, w) {
            Some(c) => Ok(c),
            None => Err(decode_failure::UnknownOpcode),
        }
    }
}

/// The message the decoder reports for a failure.
pub open spec fn failure_message(f: decode_failure) -> Seq<char> {
    match f {
        decode_failure::OutsidePage => "address is not inside the PIM command page"@,
        decode_failure::Unaligned => "PIM command address is not cacheline aligned"@,
        decode_failure::UnknownOpcode => "unknown PIM command opcode"@,
    }
}

pub fn is_pim_cmd_request(addr: u64) -> (r: bool)
    ensures
        r == in_cmd_page(addr),
{
    PIM_CMD_PAGE_BASE <= addr && addr <= PIM_CMD_PAGE_END
}

/// Command-page requests are routed by their own address.
pub fn routing_addr(addr: u64) -> (r: u64)
    ensures
        r == addr,
{
    addr
}

/// Decodes a host access to the PIM command page: the slot index selects the opcode and the
/// first payload word carries the register and address fields.
pub fn decode_pim_cmd(addr: u64, payload: &cacheline_payload) -> (r: Result<pim_cmd, &'static str>)
    ensures
        match decode_spec(addr, payload@[0]) {
            Ok(c) => r == Ok::<pim_cmd, &'static str>(c),
            Err(f) => r is Err && r->Err_0@ == failure_message(f),
        },
{
    if !is_pim_cmd_request(addr) {
        return Err("address is not inside the PIM command page");
    }
    let offset = addr - PIM_CMD_PAGE_BASE;
    if offset % PIM_CMD_SLOT_SIZE != 0 {
        return Err("PIM command address is not cacheline aligned");
    }

    let opcode = offset / PIM_CMD_SLOT_SIZE;
    let encoded = payload[0];
    let reg_a = ((encoded >> 0u64) & 0xf) as u8;
    let reg_b = ((encoded >> 4u64) & 0xf) as u8;
    let reg_c = ((encoded >> 8u64) & 0xf) as u8;
    let reg_d = ((encoded >> 12u64) & 0xf) as u8;
    let mem_addr = ((encoded >> 16u64) & 0xffff_ffff) as u32;
    assert(reg_a == reg_field(encoded, 0));
    assert(reg_b == reg_field(encoded, 1));
    assert(reg_c == reg_field(encoded, 2));
    assert(reg_d == reg_field(encoded, 3));

    if opcode == OP_NOP {
        Ok(pim_cmd::Fgo(pe_inst::NOP))
    } else if opcode == OP_ADD128 {
        Ok(pim_cmd::Fgo(pe_inst::ADD128 { vRD: reg_a, vRS0: reg_b, vRS1: reg_c }))
    } else if opcode == OP_SUB128 {
        Ok(pim_cmd::Fgo(pe_inst::SUB128 { vRD: reg_a, vRS0: reg_b, vRS1: reg_c }))
    } else if opcode == OP_MUL128 {
        Ok(pim_cmd::Fgo(pe_inst::MUL128 { vRD: reg_a, vRS0: reg_b, vRS1: reg_c }))
    } else if opcode == OP_MAC128 {
        Ok(pim_cmd::Fgo(pe_inst::MAC128 { sRD: reg_a, sRS0: reg_d, vRS0: reg_b, vRS1: reg_c }))
    } else if opcode == OP_RELU {
        Ok(pim_cmd::Fgo(pe_inst::ReLU { vRD: reg_a, vRS0: reg_b }))
    } else if opcode == OP_LD128 {
        Ok(pim_cmd::Fgo(pe_inst::LD128 { vRD: reg_a, addr: mem_addr }))
    } else if opcode == OP_ST128 {
        Ok(pim_cmd::Fgo(pe_inst::ST128 { vRS: reg_a, addr: mem_addr }))
    } else if opcode == OP_LD32 {
        Ok(pim_cmd::Fgo(pe_inst::LD32 { sRD: reg_a, addr: mem_addr }))
    } else if opcode == OP_ST32 {
        Ok(pim_cmd::Fgo(pe_inst::ST32 { sRS: reg_a, addr: mem_addr }))
    } else if opcode == OP_CGO_START {
        Ok(pim_cmd::CgoStart)
    } else if opcode == OP_CGO_QUERY {
        Ok(pim_cmd::CgoQuery)
    } else {
        Err("unknown PIM command opcode")
    }
}

/// A command is accepted only with the access direction it expects.
pub fn validate_pim_cmd_access(cmd: pim_cmd, is_write: bool) -> (r: Result<(), &'static str>)
    ensures
        r is Ok <==> (!(cmd is CgoQuery) == is_write),
        r is Err ==> r->Err_0@ == "PIM command access direction does not match command opcode"@,
{
    if cmd.expects_write() == is_write {
        Ok(())
    } else {
        Err("PIM command access direction does not match command opcode")
    }
}

/// The command word that packs four register ids into bits 0..16.
pub open spec fn pack_regs(a: u8, b: u8, c: u8, d: u8) -> u64 {
    ((a as u64) & 0xf) | (((b as u64) & 0xf) << 4u64) | (((c as u64) & 0xf) << 8u64) | (((d as u64)
        & 0xf) << 12u64)
}

/// The command word that packs a register id into bits 0..4 and an address into bits 16..48.
pub open spec fn pack_mem(a: u8, m: u32) -> u64 {
    ((a as u64) & 0xf) | ((m as u64) << 16u64)
}

/// The slot and command word under which the host issues a PE instruction.
pub open spec fn encode_fgo(i: pe_inst) -> (u64, u64) {
    match i {
        pe_inst::NOP => (OP_NOP, 0),
        pe_inst::ADD128 { vRD, vRS0, vRS1 } => (OP_ADD128, pack_regs(vRD, vRS0, vRS1, 0)),
        pe_inst::SUB128 { vRD, vRS0, vRS1 } => (OP_SUB128, pack_regs(vRD, vRS0, vRS1, 0)),
        pe_inst::MUL128 { vRD, vRS0, vRS1 } => (OP_MUL128, pack_regs(vRD, vRS0, vRS1, 0)),
        pe_inst::MAC128 { sRD, sRS0, vRS0, vRS1 } => (OP_MAC128, pack_regs(sRD, vRS0, vRS1, sRS0)),
        pe_inst::ReLU { vRD, vRS0 } => (OP_RELU, pack_regs(vRD, vRS0, 0, 0)),
        pe_inst::LD128 { vRD, addr } => (OP_LD128, pack_mem(vRD, addr)),
        pe_inst::ST128 { vRS, addr } => (OP_ST128, pack_mem(vRS, addr)),
        pe_inst::LD32 { sRD, addr } => (OP_LD32, pack_mem(sRD, addr)),
        pe_inst::ST32 { sRS, addr } => (OP_ST32, pack_mem(sRS, addr)),
    }
}

/// Every register id of a PE instruction fits the 4-bit command fields.
pub open spec fn regs_fit(i: pe_inst) -> bool {
    match i {
        pe_inst::NOP => true,
        pe_inst::ADD128 { vRD, vRS0, vRS1 } => vRD < 16 && vRS0 < 16 && vRS1 < 16,
        pe_inst::SUB128 { vRD, vRS0, vRS1 } => vRD < 16 && vRS0 < 16 && vRS1 < 16,
        pe_inst::MUL128 { vRD, vRS0, vRS1 } => vRD < 16 && vRS0 < 16 && vRS1 < 16,
        pe_inst::MAC128 { sRD, sRS0, vRS0, vRS1 } => sRD < 16 && sRS0 < 16 && vRS0 < 16 && vRS1 < 16,
        pe_inst::ReLU { vRD, vRS0 } => vRD < 16 && vRS0 < 16,
        pe_inst::LD128 { vRD, .. } => vRD < 16,
        pe_inst::ST128 { vRS, .. } => vRS < 16,
        pe_inst::LD32 { sRD, .. } => sRD < 16,
        pe_inst::ST32 { sRS, .. } => sRS < 16,
    }
}

proof fn lemma_pack_regs_fields(a: u8, b: u8, c: u8, d: u8)
    requires
        a < 16,
        b < 16,
        c < 16,
        d < 16,
    ensures
        reg_field(pack_regs(a, b, c, d), 0) == a,
        reg_field(pack_regs(a, b, c, d), 1) == b,
        reg_field(pack_regs(a, b, c, d), 2) == c,
        reg_field(pack_regs(a, b, c, d), 3) == d,
{
    let (x, y, z, w) = (a as u64, b as u64, c as u64, d as u64);
    assert((((x & 0xf) | ((y & 0xf) << 4u64) | ((z & 0xf) << 8u64) | ((w & 0xf) << 12u64)) >> 0u64)
        & 0xf == x) by (bit_vector)
        requires
            x < 16,
    ;
    assert((((x & 0xf) | ((y & 0xf) << 4u64) | ((z & 0xf) << 8u64) | ((w & 0xf) << 12u64)) >> 4u64)
        & 0xf == y) by (bit_vector)
        requires
            y < 16,
    ;
    assert((((x & 0xf) | ((y & 0xf) << 4u64) | ((z & 0xf) << 8u64) | ((w & 0xf) << 12u64)) >> 8u64)
        & 0xf == z) by (bit_vector)
        requires
            z < 16,
    ;
    assert((((x & 0xf) | ((y & 0xf) << 4u64) | ((z & 0xf) << 8u64) | ((w & 0xf) << 12u64))
        >> 12u64) & 0xf == w) by (bit_vector)
        requires
            w < 16,
    ;
}

proof fn lemma_pack_mem_fields(a: u8, m: u32)
    requires
        a < 16,
    ensures
        reg_field(pack_mem(a, m), 0) == a,
        mem_field(pack_mem(a, m)) == m,
{
    let (x, y) = (a as u64, m as u64);
    assert((((x & 0xf) | (y << 16u64)) >> 0u64) & 0xf == x) by (bit_vector)
        requires
            x < 16,
    ;
    assert((((x & 0xf) | (y << 16u64)) >> 16u64) & 0xffff_ffff == y) by (bit_vector)
        requires
            y <= 0xffff_ffff,
    ;
}

/// Issuing a PE instruction through its command slot round-trips: decoding the slot address
/// and the packed command word gives back the instruction, whenever its register ids fit
/// the 4-bit fields.
pub proof fn lemma_fgo_round_trip(i: pe_inst)
    requires
        regs_fit(i),
    ensures
        decode_spec((PIM_CMD_PAGE_BASE + PIM_CMD_SLOT_SIZE * encode_fgo(i).0) as u64, encode_fgo(i).1)
            == Ok::<pim_cmd, decode_failure>(pim_cmd::Fgo(i)),
{
    match i {
        pe_inst::ADD128 { vRD, vRS0, vRS1 } => lemma_pack_regs_fields(vRD, vRS0, vRS1, 0),
        pe_inst::SUB128 { vRD, vRS0, vRS1 } => lemma_pack_regs_fields(vRD, vRS0, vRS1, 0),
        pe_inst::MUL128 { vRD, vRS0, vRS1 } => lemma_pack_regs_fields(vRD, vRS0, vRS1, 0),
        pe_inst::MAC128 { sRD, sRS0, vRS0, vRS1 } => lemma_pack_regs_fields(sRD, vRS0, vRS1, sRS0),
        pe_inst::ReLU { vRD, vRS0 } => lemma_pack_regs_fields(vRD, vRS0, 0, 0),
        pe_inst::LD128 { vRD, addr } => lemma_pack_mem_fields(vRD, addr),
        pe_inst::ST128 { vRS, addr } => lemma_pack_mem_fields(vRS, addr),
        pe_inst::LD32 { sRD, addr } => lemma_pack_mem_fields(sRD, addr),
        pe_inst::ST32 { sRS, addr } => lemma_pack_mem_fields(sRS, addr),
        pe_inst::NOP => {},
    }
}

/// The start and query commands sit in their own slots and decode regardless of the payload.
pub proof fn lemma_cgo_slots(w: u64)
    ensures
        decode_spec((PIM_CMD_PAGE_BASE + PIM_CMD_SLOT_SIZE * OP_CGO_START) as u64, w) == Ok::<
            pim_cmd,
            decode_failure,
        >(pim_cmd::CgoStart),
        decode_spec((PIM_CMD_PAGE_BASE + PIM_CMD_SLOT_SIZE * OP_CGO_QUERY) as u64, w) == Ok::<
            pim_cmd,
            decode_failure,
        >(pim_cmd::CgoQuery),
{
}

} // verus!
