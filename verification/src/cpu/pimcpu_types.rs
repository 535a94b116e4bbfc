use vstd::prelude::*;

verus! {

/// Number of bits of a fat pointer's AGU tag.
pub const IDX_BITS: usize = 4;

/// Number of bits of a fat pointer's offset and of an AGU bound.
pub const BOUND_BITS: usize = 28;

/// Exclusive upper limit of a fat pointer tag (`1 << IDX_BITS`).
pub const TAG_LIMIT: u32 = 0x10;

/// Exclusive upper limit of a fat pointer offset and of an AGU bound (`1 << BOUND_BITS`).
pub const OFFSET_LIMIT: u32 = 0x1000_0000;

/// A fat pointer: an AGU table tag and an offset relative to that entry.
#[derive(Copy, Clone, PartialEq, Eq, Debug, Structural)]
pub struct fatptr_rf {
    pub tag: u8,
    pub offset: u32,
}

impl fatptr_rf {
    /// A fat pointer whose tag and offset fit their bit widths.
    pub open spec fn wf(self) -> bool {
        self.tag < TAG_LIMIT && self.offset < OFFSET_LIMIT
    }

    pub fn new(tag_: u8, offset_: u32) -> (r: Self)
        ensures
            r.tag == tag_,
            r.offset == offset_,
    {
        Self { tag: tag_, offset: offset_ }
    }

    /// The AGU tag; the tag must fit in `IDX_BITS` bits.
    pub fn get_idx(&self) -> (r: u8)
        requires
            self.tag < TAG_LIMIT,
        ensures
            r == self.tag,
    {
        self.tag
    }

    /// The offset; it must fit in `BOUND_BITS` bits.
    pub fn get_offset(&self) -> (r: u32)
        requires
            self.offset < OFFSET_LIMIT,
        ensures
            r == self.offset,
    {
        self.offset
    }
}

/// Instructions of the CGO processor.
#[derive(Copy, Clone, Debug, PartialEq, Eq, Structural)]
pub enum inst {
    NOP,
    ADD128 { rd: u8, rs1: u8, rs2: u8 },
    SUB128 { rd: u8, rs1: u8, rs2: u8 },
    MUL128 { rd: u8, rs1: u8, rs2: u8 },
    AND128 { rd: u8, rs1: u8, rs2: u8 },
    LD128 { rd: u8, frs: u8 },
    ST128 { rs: u8, frd: u8 },
    FatPtrLD { frd: u8, frs: u8 },
    FatPtrST { frd: u8, frs: u8 },
    FatPtrADD { frd: u8, frs: u8, rs1: u8, imm_idx: u8 },
    FatPtrSUB { frd: u8, frs: u8, rs1: u8, imm_idx: u8 },
    JUMP { inst_imm: u16 },
    EqualExit { rd: u8, rs1: u8 },
}

/// Pipeline stages of the CGO processor, ordered from fetch to writeback.
#[derive(Copy, Clone, Debug, PartialEq, Eq, PartialOrd, Ord, Structural)]
pub enum CPU_stages {
    IF,
    ID,
    EX,
    AGU,
    MEM,
    WB,
}

/// Position of a stage in the pipeline, fetch first.
pub open spec fn stage_rank(s: CPU_stages) -> u8 {
    match s {
        CPU_stages::IF => 1,
        CPU_stages::ID => 2,
        CPU_stages::EX => 3,
        CPU_stages::AGU => 4,
        CPU_stages::MEM => 5,
        CPU_stages::WB => 6,
    }
}

impl CPU_stages {
    pub fn get_rank(&self) -> (r: u8)
        ensures
            r == stage_rank(*self),
    {
        match self {
            CPU_stages::IF => 1,
            CPU_stages::ID => 2,
            CPU_stages::EX => 3,
            CPU_stages::AGU => 4,
            CPU_stages::MEM => 5,
            CPU_stages::WB => 6,
        }
    }
}

/// ALU operation latched in ID/EX with source ids and the values read in ID.
#[derive(Clone, Copy, Debug, PartialEq, Eq)]
pub enum ALUop {
    NOP,
    ADD { rs1: u8, rs2: u8, rs1_lit: [u32; 4], rs2_lit: [u32; 4] },
    SUB { rs1: u8, rs2: u8, rs1_lit: [u32; 4], rs2_lit: [u32; 4] },
    AND { rs1: u8, rs2: u8, rs1_lit: [u32; 4], rs2_lit: [u32; 4] },
    MUL { rs1: u8, rs2: u8, rs1_lit: [u32; 4], rs2_lit: [u32; 4] },
    TEST { rs1: u8, rs2: u8, rs1_lit: [u32; 4], rs2_lit: [u32; 4] },
}

/// Address-generation operation latched in ID/EX.
#[derive(Clone, Copy, Debug, PartialEq, Eq)]
pub enum AGUop {
    NOP,
    CHK { frs: u8, fptr_lit: fatptr_rf },
    ADD { frs: u8, rs1: u8, fptr_lit: fatptr_rf, rs1_lit: [u32; 4], idx_imm: u8 },
    SUB { frs: u8, rs1: u8, fptr_lit: fatptr_rf, rs1_lit: [u32; 4], idx_imm: u8 },
}

/// Memory transfer operation latched in the pipeline.
#[allow(inconsistent_fields)]
#[derive(Clone, Copy, Debug, PartialEq, Eq)]
pub enum DMAop {
    NOP,
    READ_VEC { rd: u8 },
    WRITE_VEC { rs: u8, data_lit: [u32; 4] },
    READ_FPTR { frd: u8 },
    WRITE_FPTR { frs: u8, fptr_data_lit: fatptr_rf },
}

/// Register writeback operation latched in the pipeline.
#[derive(Clone, Copy, Debug, PartialEq, Eq, Structural)]
pub enum WBop {
    NOP,
    WB_VEC { rd: u8 },
    WB_FPTR { frd: u8 },
}

/// One architectural update requested by a stage.
#[allow(inconsistent_fields)]
#[derive(Clone, Copy, Debug, PartialEq, Eq)]
pub enum arch_action {
    DoNothing,
    WritePC { new_pc: u16 },
    HoldPC,
    WriteVRF { rd: u8, content: [u32; 4] },
    WriteFPTR { frd: u8, content: fatptr_rf },
    WriteMEM_DATA { addr: u32, content: [u32; 4] },
    WriteMEM_FPTR { addr: u32, content: fatptr_rf },
}

/// The architectural location an update writes.
#[derive(Debug, Clone, Copy, PartialEq, Eq, Structural)]
pub enum arch_dest {
    PC,
    Vec_RF(u8),
    Fptr_RF(u8),
    Vec_MEM(u32),
    Fptr_MEM(u32),
}

/// Destination of an architectural update; `None` for `DoNothing`.
pub open spec fn action_dest(a: arch_action) -> Option<arch_dest> {
    match a {
        arch_action::DoNothing => None,
        arch_action::WritePC { .. } => Some(arch_dest::PC),
        arch_action::HoldPC => Some(arch_dest::PC),
        arch_action::WriteVRF { rd, .. } => Some(arch_dest::Vec_RF(rd)),
        arch_action::WriteFPTR { frd, .. } => Some(arch_dest::Fptr_RF(frd)),
        arch_action::WriteMEM_DATA { addr, .. } => Some(arch_dest::Vec_MEM(addr)),
        arch_action::WriteMEM_FPTR { addr, .. } => Some(arch_dest::Fptr_MEM(addr)),
    }
}

impl arch_action {
    pub fn dest(&self) -> (d: Option<arch_dest>)
        ensures
            d == action_dest(*self),
    {
        match self {
            arch_action::DoNothing => None,
            arch_action::WritePC { .. } => Some(arch_dest::PC),
            arch_action::HoldPC => Some(arch_dest::PC),
            arch_action::WriteVRF { rd, .. } => Some(arch_dest::Vec_RF(*rd)),
            arch_action::WriteFPTR { frd, .. } => Some(arch_dest::Fptr_RF(*frd)),
            arch_action::WriteMEM_DATA { addr, .. } => Some(arch_dest::Vec_MEM(*addr)),
            arch_action::WriteMEM_FPTR { addr, .. } => Some(arch_dest::Fptr_MEM(*addr)),
        }
    }
}

} // verus!
