use vstd::prelude::*;
use crate::cpu::RF::{arch_rf, cpu_rf_state};
use crate::cpu::imem::IMEM;
use crate::cpu::pimcpu_types::{fatptr_rf, inst};
use crate::memory::AGU_unit::{AGU_ENTRY_COUNT, AGU_entry, AGU_unit};
use crate::memory::flat_memory::{
    MemEntryData, PIM_ENTRIES_PER_CACHELINE, cpu_data_read, cpu_flat_mem, mem_entry, mem_read, zero_words,
};
use crate::memory::mem_portal::{
    dram_portal, dram_req, portal_mode, portal_req, portal_state, req_queue, submitted, taken,
};
use crate::sim_engine::engine_alloc::PSEUDO_BANK_ENTRIES;

verus! {

/// Two AGU descriptors are packed in one 16-byte chunk.
pub const DESCRIPTORS_PER_CHUNK: usize = 2;

/// Chunks the AGU table occupies at the start of flat memory.
pub const AGU_TABLE_CHUNKS: u32 = 8;

/// Instructions packed in one chunk (two 16-bit encodings per word).
pub const INSTRUCTIONS_PER_CHUNK: u32 = 8;

/// Capacity of the instruction memory.
pub const MAX_IMEM_INSTRUCTIONS: u32 = 4096;

/// The largest program, in chunks.
pub const MAX_PROGRAM_CHUNKS: u32 = 512;

/// Phases of booting the CGO processor from its flat memory.
#[derive(Clone, Copy, Debug, PartialEq, Eq, Structural)]
pub enum CPU_boot_FSM_states {
    IDLE,
    DRAM2AGU_submit,
    DRAM2AGU_stall,
    ReadInsts,
    DRAM2IMEM_submit,
    DRAM2IMEM_stall,
    Finished,
}

/// Why booting cannot go on; the processor must not run after one of these.
#[derive(Clone, Copy, Debug, PartialEq, Eq, Structural)]
pub enum boot_fault {
    /// AGU entry 0, which describes the program, is missing.
    MissingProgramDescriptor,
    /// The program descriptor names more chunks than the instruction memory holds.
    ProgramTooLarge { chunks: u32 },
    /// The chunk range of a boot phase does not fit in `u32`.
    BootRangeOverflow,
    /// A boot chunk holds a value of another type than CPU data.
    MemoryTypeMismatch { chunk: u32 },
    /// A descriptor's end does not fit in `u32`.
    DescriptorRangeOverflow { entry: u8, base: u32, bound: u32 },
    /// A descriptor reaches past the pseudo bank.
    DescriptorOutOfBounds { entry: u8, base: u32, bound: u32 },
    /// The program's chunk range does not fit in `u32`.
    ProgramRangeOverflow,
    /// An encoded instruction has an unknown opcode.
    InvalidOpcode { chunk: u32, encoded: u16, opcode: u8 },
}

/// Loads the AGU table and the program of a CGO processor from its flat memory, timing every
/// chunk read through its DRAM port.
pub struct CPU_boot_FSM {
    pub state: CPU_boot_FSM_states,
    pub pending_reqs: Vec<dram_req>,
    pub program_base: u32,
    pub program_chunks: u32,
    pub dram_port: dram_portal,
    pub ch: u64,
    pub ra: u64,
    pub bg: u64,
    pub ba: u64,
    pub pseudo_bank: u64,
}

/// The 4-bit opcode of an encoded instruction.
pub open spec fn opcode_of(e: u16) -> u8 {
    ((e >> 12u16) & 0xfu16) as u8
}

/// The 3-bit operand field of an encoded instruction at bit `shift`.
pub open spec fn field_of(e: u16, shift: u16) -> u8 {
    ((e >> shift) & 0x7u16) as u8
}

/// The instruction a 16-bit encoding stands for: a 4-bit opcode, then 3-bit fields a, b, c,
/// d from the top; a jump carries a 12-bit target. An unknown opcode is the error.
pub open spec fn boot_decode(e: u16) -> Result<inst, u8> {
    let a = field_of(e, 9);
    let b = field_of(e, 6);
    let c = field_of(e, 3);
    let d = field_of(e, 0);
    let op = opcode_of(e);
    if op == 0x0 {
        Ok(inst::NOP)
    } else if op == 0x1 {
        Ok(inst::ADD128 { rd: a, rs1: b, rs2: c })
    } else if op == 0x2 {
        Ok(inst::SUB128 { rd: a, rs1: b, rs2: c })
    } else if op == 0x3 {
        Ok(inst::MUL128 { rd: a, rs1: b, rs2: c })
    } else if op == 0x4 {
        Ok(inst::AND128 { rd: a, rs1: b, rs2: c })
    } else if op == 0x5 {
        Ok(inst::LD128 { rd: a, frs: b })
    } else if op == 0x6 {
        Ok(inst::ST128 { rs: a, frd: b })
    } else if op == 0x7 {
        Ok(inst::FatPtrLD { frd: a, frs: b })
    } else if op == 0x8 {
        Ok(inst::FatPtrST { frd: a, frs: b })
    } else if op == 0x9 {
        Ok(inst::FatPtrADD { frd: a, frs: b, rs1: c, imm_idx: d })
    } else if op == 0xa {
        Ok(inst::FatPtrSUB { frd: a, frs: b, rs1: c, imm_idx: d })
    } else if op == 0xb {
        Ok(inst::JUMP { inst_imm: e & 0x0fffu16 })
    } else if op == 0xc {
        Ok(inst::EqualExit { rd: b, rs1: a })
    } else {
        Err(op)
    }
}

/// The timed read of chunk `c`: a PIM read of the cache line holding it.
pub open spec fn chunk_req(c: int) -> dram_req {
    dram_req { addr: (c / PIM_ENTRIES_PER_CACHELINE as int) as u64, id: None, is_read: true, is_pim: true }
}

/// The reads of chunks `first .. first + n`, in ascending chunk order.
pub open spec fn chunk_reqs(first: u32, n: nat) -> Seq<dram_req> {
    Seq::new(n, |i: int| chunk_req(first + i))
}

/// The port after submitting `reqs` last to first, so that taking from the stack yields
/// them in order.
pub open spec fn submitted_reversed(p: portal_state, reqs: Seq<dram_req>) -> portal_state
    decreases reqs.len(),
{
    if reqs.len() == 0 {
        p
    } else {
        submitted_reversed(submitted(p, reqs.last(), true), reqs.drop_last())
    }
}

/// Checking the pending reads against the completions, first to last: a completed read
/// leaves the pending list and its completion leaves the port.
pub open spec fn check_pending(pending: Seq<dram_req>, p: portal_state) -> (Seq<dram_req>, portal_state)
    decreases pending.len(),
{
    if pending.len() == 0 {
        (pending, p)
    } else {
        let (rest, p1) = check_pending(pending.drop_last(), p);
        let (t, p2) = taken(p1, pending.last());
        if t is Some { (rest, p2) } else { (rest.push(pending.last()), p2) }
    }
}

/// Reading chunks `first .. first + n` in order: the words read, the memory after the reads,
/// and the first chunk that does not hold CPU data, if any (reading stops there).
pub open spec fn read_chunks(m: Map<u32, mem_entry>, first: u32, n: nat) -> (Seq<[u32; 4]>, Map<u32, mem_entry>, Option<u32>)
    decreases n,
{
    if n == 0 {
        (seq![], m, None)
    } else {
        let (ws, m1, bad) = read_chunks(m, first, (n - 1) as nat);
        if bad is Some {
            (ws, m1, bad)
        } else {
            let c = (first + n - 1) as u32;
            let (r, m2) = mem_read(m1, c, Some(zero_words()), |d: MemEntryData| cpu_data_read(d));
            match r {
                Some(w) => (ws.push(w), m2, None),
                None => (ws, m2, Some(c)),
            }
        }
    }
}

/// AGU descriptor `id` as packed in the chunk words `ws`: (base, bound).
pub open spec fn descriptor(ws: Seq<[u32; 4]>, id: int) -> (u32, u32) {
    let w = ws[id / 2];
    if id % 2 == 0 { (w@[0], w@[1]) } else { (w@[2], w@[3]) }
}

/// The first fault among descriptors `0 .. k`.
pub open spec fn descriptor_fault(ws: Seq<[u32; 4]>, k: nat) -> Option<boot_fault>
    decreases k,
{
    if k == 0 {
        None
    } else {
        match descriptor_fault(ws, (k - 1) as nat) {
            Some(f) => Some(f),
            None => {
                let (base, bound) = descriptor(ws, k - 1);
                if base + bound > u32::MAX {
                    Some(boot_fault::DescriptorRangeOverflow { entry: (k - 1) as u8, base, bound })
                } else if base + bound > PSEUDO_BANK_ENTRIES {
                    Some(boot_fault::DescriptorOutOfBounds { entry: (k - 1) as u8, base, bound })
                } else {
                    None
                }
            },
        }
    }
}

/// The AGU table after installing descriptors `0 .. k`.
pub open spec fn installed(t: Map<u8, AGU_entry>, ws: Seq<[u32; 4]>, k: nat) -> Map<u8, AGU_entry>
    decreases k,
{
    if k == 0 {
        t
    } else {
        let (base, bound) = descriptor(ws, k - 1);
        installed(t, ws, (k - 1) as nat).insert((k - 1) as u8, AGU_entry::Ent { base, bound })
    }
}

/// The registers after booting: fat-pointer register `i` points at offset 0 of entry `i`.
pub open spec fn booted_fregs(rf: cpu_rf_state) -> cpu_rf_state {
    cpu_rf_state { f: Seq::new(8, |i: int| Some(fatptr_rf { tag: i as u8, offset: 0 })), ..rf }
}

/// The eight encodings of a chunk, low half of each word first.
pub open spec fn chunk_encodings(w: [u32; 4]) -> Seq<u16> {
    Seq::new(8, |k: int| if k % 2 == 0 { (w@[k / 2] & 0xffffu32) as u16 } else { (w@[k / 2] >> 16u32) as u16 })
}

/// Decoding encodings in order: the instructions, or the first unknown encoding and opcode.
pub open spec fn decode_all(es: Seq<u16>) -> Result<Seq<inst>, (u16, u8)>
    decreases es.len(),
{
    if es.len() == 0 {
        Ok(seq![])
    } else {
        match decode_all(es.drop_last()) {
            Err(x) => Err(x),
            Ok(is) => match boot_decode(es.last()) {
                Ok(i) => Ok(is.push(i)),
                Err(op) => Err((es.last(), op)),
            },
        }
    }
}

/// Loading the program from chunks `base .. base + n` in order: the instructions, the memory
/// after the reads, and the first fault (loading stops there).
pub open spec fn load_program_spec(m: Map<u32, mem_entry>, base: u32, n: nat) -> (Seq<inst>, Map<u32, mem_entry>, Option<boot_fault>)
    decreases n,
{
    if n == 0 {
        (seq![], m, None)
    } else {
        let (is, m1, f) = load_program_spec(m, base, (n - 1) as nat);
        if f is Some {
            (is, m1, f)
        } else {
            let c = (base + n - 1) as u32;
            let (r, m2) = mem_read(m1, c, Some(zero_words()), |d: MemEntryData| cpu_data_read(d));
            match r {
                None => (is, m2, Some(boot_fault::MemoryTypeMismatch { chunk: c })),
                Some(w) => match decode_all(chunk_encodings(w)) {
                    Ok(more) => (is + more, m2, None),
                    Err((e, op)) => (is, m2, Some(boot_fault::InvalidOpcode { chunk: c, encoded: e, opcode: op })),
                },
            }
        }
    }
}

/// The abstract state of the boot controller.
pub struct boot_view {
    pub state: CPU_boot_FSM_states,
    pub pending: Seq<dram_req>,
    pub base: u32,
    pub chunks: u32,
    pub port: portal_state,
}

impl View for CPU_boot_FSM {
    type V = boot_view;

    open spec fn view(&self) -> boot_view {
        boot_view {
            state: self.state,
            pending: self.pending_reqs@,
            base: self.program_base,
            chunks: self.program_chunks,
            port: self.dram_port@,
        }
    }
}

/// What booting reads and writes: the controller, the flat memory, the AGU table, the
/// program and the registers.
pub struct boot_world {
    pub boot: boot_view,
    pub mem: Map<u32, mem_entry>,
    pub agu: Map<u8, AGU_entry>,
    pub prog: Seq<inst>,
    pub rf: cpu_rf_state,
}

/// A boot phase is complete when no read of it is pending and the PIM request queue is
/// drained; checking takes the completions of the pending reads.
pub open spec fn phase_done(b: boot_view) -> (bool, boot_view) {
    let (rest, p) = check_pending(b.pending, b.port);
    (req_queue(p, portal_mode::PIM).len() == 0 && rest.len() == 0, boot_view { pending: rest, port: p, ..b })
}

/// Issuing the reads of chunks `first .. first + n`.
pub open spec fn issued(b: boot_view, first: u32, n: u32) -> boot_view {
    boot_view { pending: chunk_reqs(first, n as nat), port: submitted_reversed(b.port, chunk_reqs(first, n as nat)), ..b }
}

/// Loading the AGU table: read its chunks, check every descriptor against the pseudo bank,
/// install all of them, and point fat-pointer register `i` at entry `i`.
pub open spec fn agu_load(w: boot_world) -> (Result<(), boot_fault>, boot_world) {
    let (ws, m1, bad) = read_chunks(w.mem, 0, AGU_TABLE_CHUNKS as nat);
    match bad {
        Some(c) => (Err(boot_fault::MemoryTypeMismatch { chunk: c }), boot_world { mem: m1, ..w }),
        None => match descriptor_fault(ws, AGU_ENTRY_COUNT as nat) {
            Some(f) => (Err(f), boot_world { mem: m1, ..w }),
            None => (
                Ok(()),
                boot_world {
                    mem: m1,
                    agu: installed(w.agu, ws, AGU_ENTRY_COUNT as nat),
                    rf: booted_fregs(w.rf),
                    ..w
                },
            ),
        },
    }
}

/// Loading the program described by the controller into instruction memory.
pub open spec fn program_load(w: boot_world) -> (Result<(), boot_fault>, boot_world) {
    if w.boot.base + w.boot.chunks > u32::MAX {
        (Err(boot_fault::ProgramRangeOverflow), w)
    } else {
        let (is, m1, f) = load_program_spec(w.mem, w.boot.base, w.boot.chunks as nat);
        match f {
            Some(f) => (Err(f), boot_world { mem: m1, ..w }),
            None => (Ok(()), boot_world { mem: m1, prog: is, ..w }),
        }
    }
}

/// One cycle of the boot controller: issue the AGU table reads; wait for them and load the
/// table; read the program descriptor (entry 0: base chunk and chunk count); issue the
/// program reads; wait for them and load the program. An error stops booting.
pub open spec fn boot_tick_spec(w: boot_world) -> (Result<(), boot_fault>, boot_world) {
    let b = w.boot;
    match b.state {
        CPU_boot_FSM_states::IDLE | CPU_boot_FSM_states::Finished => (Ok(()), w),
        CPU_boot_FSM_states::DRAM2AGU_submit => (
            Ok(()),
            boot_world { boot: boot_view { state: CPU_boot_FSM_states::DRAM2AGU_stall, ..issued(b, 0, AGU_TABLE_CHUNKS) }, ..w },
        ),
        CPU_boot_FSM_states::DRAM2AGU_stall => {
            let (done, b1) = phase_done(b);
            if !done {
                (Ok(()), boot_world { boot: b1, ..w })
            } else {
                let (r, w2) = agu_load(boot_world { boot: b1, ..w });
                if r is Ok {
                    (r, boot_world { boot: boot_view { state: CPU_boot_FSM_states::ReadInsts, ..b1 }, ..w2 })
                } else {
                    (r, w2)
                }
            }
        },
        CPU_boot_FSM_states::ReadInsts => {
            if !(w.agu.contains_key(0) && w.agu[0] is Ent) {
                (Err(boot_fault::MissingProgramDescriptor), w)
            } else if w.agu[0]->bound > MAX_PROGRAM_CHUNKS {
                (Err(boot_fault::ProgramTooLarge { chunks: w.agu[0]->bound }), w)
            } else {
                (
                    Ok(()),
                    boot_world {
                        boot: boot_view {
                            state: CPU_boot_FSM_states::DRAM2IMEM_submit,
                            base: w.agu[0]->base,
                            chunks: w.agu[0]->bound,
                            ..b
                        },
                        ..w
                    },
                )
            }
        },
        CPU_boot_FSM_states::DRAM2IMEM_submit => {
            if b.base + b.chunks > u32::MAX {
                (Err(boot_fault::BootRangeOverflow), w)
            } else {
                (
                    Ok(()),
                    boot_world { boot: boot_view { state: CPU_boot_FSM_states::DRAM2IMEM_stall, ..issued(b, b.base, b.chunks) }, ..w },
                )
            }
        },
        CPU_boot_FSM_states::DRAM2IMEM_stall => {
            let (done, b1) = phase_done(b);
            if !done {
                (Ok(()), boot_world { boot: b1, ..w })
            } else {
                let (r, w2) = program_load(boot_world { boot: b1, ..w });
                if r is Ok {
                    (r, boot_world { boot: boot_view { state: CPU_boot_FSM_states::Finished, ..b1 }, ..w2 })
                } else {
                    (r, w2)
                }
            }
        },
    }
}

/// No read is pending outside the phases that wait for reads.
pub open spec fn boot_wf(b: boot_view) -> bool {
    (b.state == CPU_boot_FSM_states::IDLE || b.state == CPU_boot_FSM_states::DRAM2AGU_submit
        || b.state == CPU_boot_FSM_states::ReadInsts || b.state == CPU_boot_FSM_states::DRAM2IMEM_submit)
        ==> b.pending.len() == 0
}

impl CPU_boot_FSM {
    /// An idle boot controller for the processor at the given DRAM coordinates.
    pub fn new(dram_port: dram_portal, ch: u64, ra: u64, bg: u64, ba: u64, pseudo_bank: u64) -> (r: Self)
        ensures
            r@ == (boot_view {
                state: CPU_boot_FSM_states::IDLE,
                pending: Seq::<dram_req>::empty(),
                base: 0,
                chunks: 0,
                port: dram_port@,
            }),
            r.ch == ch && r.ra == ra && r.bg == bg && r.ba == ba && r.pseudo_bank == pseudo_bank,
    {
        Self {
            state: CPU_boot_FSM_states::IDLE,
            pending_reqs: Vec::new(),
            program_base: 0,
            program_chunks: 0,
            dram_port,
            ch,
            ra,
            bg,
            ba,
            pseudo_bank,
        }
    }

    /// Arms an idle controller; any other state refuses the start and is left alone.
    pub fn set_on(&mut self) -> (r: bool)
        ensures
            r == (old(self)@.state == CPU_boot_FSM_states::IDLE),
            final(self)@ == (if r {
                boot_view { state: CPU_boot_FSM_states::DRAM2AGU_submit, ..old(self)@ }
            } else {
                old(self)@
            }),
            final(self).ch == old(self).ch,
            final(self).ra == old(self).ra,
            final(self).bg == old(self).bg,
            final(self).ba == old(self).ba,
            final(self).pseudo_bank == old(self).pseudo_bank,
    {
        if self.state != CPU_boot_FSM_states::IDLE {
            return false;
        }
        self.state = CPU_boot_FSM_states::DRAM2AGU_submit;
        true
    }

    pub fn has_finished(&self) -> (r: bool)
        ensures
            r == (self@.state == CPU_boot_FSM_states::Finished),
    {
        self.state == CPU_boot_FSM_states::Finished
    }

    /// Decodes one 16-bit instruction; an unknown opcode is returned as the error.
    pub fn decode_instruction(encoded: u16) -> (r: Result<inst, u8>)
        ensures
            r == boot_decode(encoded),
    {
        let opcode = ((encoded >> 12u16) & 0xfu16) as u8;
        let field_a = ((encoded >> 9u16) & 0x7u16) as u8;
        let field_b = ((encoded >> 6u16) & 0x7u16) as u8;
        let field_c = ((encoded >> 3u16) & 0x7u16) as u8;
        let field_d = ((encoded >> 0u16) & 0x7u16) as u8;
        if opcode == 0x0 {
            Ok(inst::NOP)
        } else if opcode == 0x1 {
            Ok(inst::ADD128 { rd: field_a, rs1: field_b, rs2: field_c })
        } else if opcode == 0x2 {
            Ok(inst::SUB128 { rd: field_a, rs1: field_b, rs2: field_c })
        } else if opcode == 0x3 {
            Ok(inst::MUL128 { rd: field_a, rs1: field_b, rs2: field_c })
        } else if opcode == 0x4 {
            Ok(inst::AND128 { rd: field_a, rs1: field_b, rs2: field_c })
        } else if opcode == 0x5 {
            Ok(inst::LD128 { rd: field_a, frs: field_b })
        } else if opcode == 0x6 {
            Ok(inst::ST128 { rs: field_a, frd: field_b })
        } else if opcode == 0x7 {
            Ok(inst::FatPtrLD { frd: field_a, frs: field_b })
        } else if opcode == 0x8 {
            Ok(inst::FatPtrST { frd: field_a, frs: field_b })
        } else if opcode == 0x9 {
            Ok(inst::FatPtrADD { frd: field_a, frs: field_b, rs1: field_c, imm_idx: field_d })
        } else if opcode == 0xa {
            Ok(inst::FatPtrSUB { frd: field_a, frs: field_b, rs1: field_c, imm_idx: field_d })
        } else if opcode == 0xb {
            Ok(inst::JUMP { inst_imm: encoded & 0x0fffu16 })
        } else if opcode == 0xc {
            Ok(inst::EqualExit { rd: field_b, rs1: field_a })
        } else {
            Err(opcode)
        }
    }

    fn submit_chunk_reads(&mut self, first_chunk: u32, chunk_count: u32) -> (r: Result<(), boot_fault>)
        requires
            old(self)@.pending.len() == 0,
        ensures
            r is Ok <==> first_chunk + chunk_count <= u32::MAX,
            r == (if first_chunk + chunk_count <= u32::MAX { Ok(()) } else { Err(boot_fault::BootRangeOverflow) }),
            final(self)@ == (if r is Ok { issued(old(self)@, first_chunk, chunk_count) } else { old(self)@ }),
            final(self).ch == old(self).ch,
            final(self).ra == old(self).ra,
            final(self).bg == old(self).bg,
            final(self).ba == old(self).ba,
            final(self).pseudo_bank == old(self).pseudo_bank,
    {
        let end_chunk = match first_chunk.checked_add(chunk_count) {
            Some(e) => e,
            None => {
                return Err(boot_fault::BootRangeOverflow);
            },
        };
        let mut requests: Vec<dram_req> = Vec::new();
        let mut c = first_chunk;
        while c < end_chunk
            invariant
                first_chunk <= c <= end_chunk,
                end_chunk == first_chunk + chunk_count,
                requests@ == chunk_reqs(first_chunk, (c - first_chunk) as nat),
            decreases end_chunk - c,
        {
            requests.push(dram_req::new((c as u64) / PIM_ENTRIES_PER_CACHELINE, true, true));
            c = c + 1;
            assert(requests@ =~= chunk_reqs(first_chunk, (c - first_chunk) as nat));
        }
        let ghost p0 = self@.port;
        let mut i = requests.len();
        assert(requests@.take(i as int) =~= requests@);
        while i > 0
            invariant
                i <= requests@.len(),
                submitted_reversed(self@.port, requests@.take(i as int)) == submitted_reversed(p0, requests@),
                self@ == (boot_view { port: self@.port, ..old(self)@ }),
                self.ch == old(self).ch && self.ra == old(self).ra && self.bg == old(self).bg && self.ba == old(self).ba,
                self.pseudo_bank == old(self).pseudo_bank,
            decreases i,
        {
            proof {
                assert(requests@.take(i as int).drop_last() =~= requests@.take(i as int - 1));
                assert(requests@.take(i as int).last() == requests@[i as int - 1]);
            }
            i = i - 1;
            self.dram_port.submit(portal_req::PIM_REQ { req: requests[i] });
        }
        assert(requests@.take(0) =~= Seq::<dram_req>::empty());
        assert(requests@.take(requests@.len() as int) =~= requests@);
        self.pending_reqs = requests;
        Ok(())
    }

    fn phase_complete(&mut self) -> (r: bool)
        ensures
            (r, final(self)@) == phase_done(old(self)@),
            final(self).ch == old(self).ch,
            final(self).ra == old(self).ra,
            final(self).bg == old(self).bg,
            final(self).ba == old(self).ba,
            final(self).pseudo_bank == old(self).pseudo_bank,
    {
        let mut still: Vec<dram_req> = Vec::new();
        let mut i: usize = 0;
        while i < self.pending_reqs.len()
            invariant
                i <= self@.pending.len(),
                self@.pending == old(self)@.pending,
                (still@, self@.port) == check_pending(old(self)@.pending.take(i as int), old(self)@.port),
                self@ == (boot_view { port: self@.port, ..old(self)@ }),
                self.ch == old(self).ch && self.ra == old(self).ra && self.bg == old(self).bg && self.ba == old(self).ba,
                self.pseudo_bank == old(self).pseudo_bank,
            decreases self@.pending.len() - i,
        {
            let req = self.pending_reqs[i];
            proof {
                assert(old(self)@.pending.take(i as int + 1).drop_last() =~= old(self)@.pending.take(i as int));
            }
            if self.dram_port.take_completed(&req).is_none() {
                still.push(req);
            }
            i = i + 1;
        }
        assert(old(self)@.pending.take(old(self)@.pending.len() as int) =~= old(self)@.pending);
        self.pending_reqs = still;
        self.dram_port.req_drained_for_mode(portal_mode::PIM) && self.pending_reqs.len() == 0
    }

    fn load_agu_table(&self, fmem: &mut cpu_flat_mem, agu: &mut AGU_unit, rf: &mut arch_rf) -> (r: Result<(), boot_fault>)
        requires
            old(rf)@.v.len() == 8,
            old(rf)@.f.len() == 8,
        ensures
            ({
                let w0 = boot_world { boot: self@, mem: old(fmem)@, agu: old(agu)@, prog: Seq::empty(), rf: old(rf)@ };
                let (r2, w1) = agu_load(w0);
                r == r2 && final(fmem)@ == w1.mem && final(agu)@ == w1.agu && final(rf)@ == w1.rf
            }),
    {
        let mut words: Vec<[u32; 4]> = Vec::new();
        let mut c: u32 = 0;
        while c < AGU_TABLE_CHUNKS
            invariant
                c <= AGU_TABLE_CHUNKS,
                (words@, fmem@, None::<u32>) == read_chunks(old(fmem)@, 0, c as nat),
            decreases AGU_TABLE_CHUNKS - c,
        {
            match fmem.mem_read_data(c) {
                Some(w) => {
                    words.push(w);
                },
                None => {
                    proof {
                        assert(read_chunks(old(fmem)@, 0, (c + 1) as nat).2 == Some(c));
                        lemma_read_chunks_stop(old(fmem)@, 0, (c + 1) as nat, AGU_TABLE_CHUNKS as nat);
                    }
                    return Err(boot_fault::MemoryTypeMismatch { chunk: c });
                },
            }
            c = c + 1;
        }
        let ghost ws = words@;
        assert(ws.len() == 8) by {
            lemma_read_chunks_len(old(fmem)@, 0, 8);
        }
        let mut id: usize = 0;
        while id < AGU_ENTRY_COUNT
            invariant
                id <= AGU_ENTRY_COUNT,
                words@ == ws,
                ws.len() == 8,
                descriptor_fault(ws, id as nat) is None,
                (ws, fmem@, None::<u32>) == read_chunks(old(fmem)@, 0, AGU_TABLE_CHUNKS as nat),
                agu@ == old(agu)@,
                rf@ == old(rf)@,
            decreases AGU_ENTRY_COUNT - id,
        {
            let w = words[id / 2];
            let (base, bound) = if id % 2 == 0 { (w[0], w[1]) } else { (w[2], w[3]) };
            assert(descriptor(ws, id as int) == (base, bound));
            match base.checked_add(bound) {
                None => {
                    proof {
                        lemma_descriptor_fault_stop(ws, (id + 1) as nat, AGU_ENTRY_COUNT as nat);
                    }
                    return Err(boot_fault::DescriptorRangeOverflow { entry: id as u8, base, bound });
                },
                Some(end) => {
                    if end as u64 > PSEUDO_BANK_ENTRIES {
                        proof {
                            lemma_descriptor_fault_stop(ws, (id + 1) as nat, AGU_ENTRY_COUNT as nat);
                        }
                        return Err(boot_fault::DescriptorOutOfBounds { entry: id as u8, base, bound });
                    }
                },
            }
            id = id + 1;
        }
        let mut id: usize = 0;
        while id < AGU_ENTRY_COUNT
            invariant
                id <= AGU_ENTRY_COUNT,
                words@ == ws,
                ws.len() == 8,
                descriptor_fault(ws, AGU_ENTRY_COUNT as nat) is None,
                agu@ == installed(old(agu)@, ws, id as nat),
                (ws, fmem@, None::<u32>) == read_chunks(old(fmem)@, 0, AGU_TABLE_CHUNKS as nat),
                rf@ == old(rf)@,
            decreases AGU_ENTRY_COUNT - id,
        {
            let w = words[id / 2];
            let (base, bound) = if id % 2 == 0 { (w[0], w[1]) } else { (w[2], w[3]) };
            proof {
                assert(descriptor(ws, id as int) == (base, bound));
                lemma_descriptor_ok(ws, id as nat, AGU_ENTRY_COUNT as nat);
            }
            agu.insert(id as u8, base, bound);
            id = id + 1;
        }
        let mut k: u8 = 0;
        while k < 8
            invariant
                k <= 8,
                rf@.v == old(rf)@.v,
                rf@.pc == old(rf)@.pc,
                rf@.f.len() == 8,
                forall|i: int| 0 <= i < k ==> #[trigger] rf@.f[i] == Some(fatptr_rf { tag: i as u8, offset: 0 }),
            decreases 8 - k,
        {
            rf.write_fregs(k, fatptr_rf::new(k, 0));
            k = k + 1;
        }
        assert(rf@ =~= booted_fregs(old(rf)@)) by {
            assert(rf@.f =~= booted_fregs(old(rf)@).f);
        }
        Ok(())
    }
}

impl CPU_boot_FSM {
    fn load_program(&self, fmem: &mut cpu_flat_mem, imem: &mut IMEM) -> (r: Result<(), boot_fault>)
        ensures
            ({
                let w0 = boot_world { boot: self@, mem: old(fmem)@, agu: Map::empty(), prog: old(imem).prog@, rf: arbitrary() };
                let (r2, w1) = program_load(w0);
                r == r2 && final(fmem)@ == w1.mem && final(imem).prog@ == w1.prog
            }),
    {
        let end_chunk = match self.program_base.checked_add(self.program_chunks) {
            Some(e) => e,
            None => {
                return Err(boot_fault::ProgramRangeOverflow);
            },
        };
        let base = self.program_base;
        let mut program: Vec<inst> = Vec::new();
        let mut c = base;
        while c < end_chunk
            invariant
                base <= c <= end_chunk,
                end_chunk == base + self@.chunks,
                base == self@.base,
                (program@, fmem@, None::<boot_fault>) == load_program_spec(old(fmem)@, base, (c - base) as nat),
                imem.prog@ == old(imem).prog@,
            decreases end_chunk - c,
        {
            let ghost m0 = fmem@;
            let words = match fmem.mem_read_data(c) {
                Some(w) => w,
                None => {
                    proof {
                        lemma_load_stop(old(fmem)@, base, (c - base + 1) as nat, self@.chunks as nat);
                    }
                    return Err(boot_fault::MemoryTypeMismatch { chunk: c });
                },
            };
            let ghost es = chunk_encodings(words);
            let ghost before = program@;
            let mut k: usize = 0;
            while k < 8
                invariant
                    k <= 8,
                    es == chunk_encodings(words),
                    decode_all(es.take(k as int)) is Ok,
                    program@ == before + decode_all(es.take(k as int))->Ok_0,
                    base <= c < end_chunk,
                    end_chunk == base + self@.chunks,
                    base == self@.base,
                    (before, m0, None::<boot_fault>) == load_program_spec(old(fmem)@, base, (c - base) as nat),
                    (Some(words), fmem@) == mem_read(m0, c, Some(zero_words()), |d: MemEntryData| cpu_data_read(d)),
                    imem.prog@ == old(imem).prog@,
                decreases 8 - k,
            {
                let word = words[k / 2];
                let encoded: u16 = if k % 2 == 0 { (word & 0xffffu32) as u16 } else { (word >> 16u32) as u16 };
                proof {
                    assert(es[k as int] == encoded);
                    assert(es.take(k as int + 1).drop_last() =~= es.take(k as int));
                    assert(es.take(k as int + 1).last() == es[k as int]);
                }
                match Self::decode_instruction(encoded) {
                    Ok(i) => {
                        program.push(i);
                        assert(program@ =~= before + decode_all(es.take(k as int + 1))->Ok_0);
                    },
                    Err(op) => {
                        proof {
                            lemma_decode_stop(es, (k + 1) as nat);
                            assert(es.take(8) =~= es);
                            lemma_load_stop(old(fmem)@, base, (c - base + 1) as nat, self@.chunks as nat);
                        }
                        return Err(boot_fault::InvalidOpcode { chunk: c, encoded, opcode: op });
                    },
                }
                k = k + 1;
            }
            assert(es.take(8) =~= es);
            c = c + 1;
        }
        imem.flash_in(program.as_slice());
        Ok(())
    }

    /// Runs one cycle of the boot controller over the processor's memory, AGU table,
    /// instruction memory and registers.
    pub fn tick(&mut self, fmem: &mut cpu_flat_mem, agu: &mut AGU_unit, imem: &mut IMEM, rf: &mut arch_rf) -> (r: Result<(), boot_fault>)
        requires
            boot_wf(old(self)@),
            old(rf)@.v.len() == 8,
            old(rf)@.f.len() == 8,
        ensures
            ({
                let w0 = boot_world { boot: old(self)@, mem: old(fmem)@, agu: old(agu)@, prog: old(imem).prog@, rf: old(rf)@ };
                let (r2, w1) = boot_tick_spec(w0);
                r == r2 && final(self)@ == w1.boot && final(fmem)@ == w1.mem && final(agu)@ == w1.agu
                    && final(imem).prog@ == w1.prog && final(rf)@ == w1.rf
            }),
            boot_wf(final(self)@),
            final(rf)@.v.len() == 8,
            final(rf)@.f.len() == 8,
            final(self).ch == old(self).ch,
            final(self).ra == old(self).ra,
            final(self).bg == old(self).bg,
            final(self).ba == old(self).ba,
            final(self).pseudo_bank == old(self).pseudo_bank,
    {
        match self.state {
            CPU_boot_FSM_states::IDLE | CPU_boot_FSM_states::Finished => Ok(()),
            CPU_boot_FSM_states::DRAM2AGU_submit => {
                let r = self.submit_chunk_reads(0, AGU_TABLE_CHUNKS);
                self.state = CPU_boot_FSM_states::DRAM2AGU_stall;
                r
            },
            CPU_boot_FSM_states::DRAM2AGU_stall => {
                if self.phase_complete() {
                    let r = self.load_agu_table(fmem, agu, rf);
                    if r.is_ok() {
                        self.state = CPU_boot_FSM_states::ReadInsts;
                    }
                    r
                } else {
                    Ok(())
                }
            },
            CPU_boot_FSM_states::ReadInsts => {
                let (base, bound) = match agu.get_entry(0) {
                    Some(e) => e,
                    None => {
                        return Err(boot_fault::MissingProgramDescriptor);
                    },
                };
                if bound > MAX_PROGRAM_CHUNKS {
                    return Err(boot_fault::ProgramTooLarge { chunks: bound });
                }
                self.program_base = base;
                self.program_chunks = bound;
                self.state = CPU_boot_FSM_states::DRAM2IMEM_submit;
                Ok(())
            },
            CPU_boot_FSM_states::DRAM2IMEM_submit => {
                let r = self.submit_chunk_reads(self.program_base, self.program_chunks);
                if r.is_ok() {
                    self.state = CPU_boot_FSM_states::DRAM2IMEM_stall;
                }
                r
            },
            CPU_boot_FSM_states::DRAM2IMEM_stall => {
                if self.phase_complete() {
                    let r = self.load_program(fmem, imem);
                    if r.is_ok() {
                        self.state = CPU_boot_FSM_states::Finished;
                    }
                    r
                } else {
                    Ok(())
                }
            },
        }
    }
}

/// Loading stops at the first fault: later chunks see the same outcome.
proof fn lemma_load_stop(m: Map<u32, mem_entry>, base: u32, k: nat, n: nat)
    requires
        k <= n,
        load_program_spec(m, base, k).2 is Some,
    ensures
        load_program_spec(m, base, n) == load_program_spec(m, base, k),
    decreases n - k,
{
    if k < n {
        lemma_load_stop(m, base, k, (n - 1) as nat);
    }
}

/// Decoding stops at the first unknown encoding.
proof fn lemma_decode_stop(es: Seq<u16>, k: nat)
    requires
        k <= es.len(),
        decode_all(es.take(k as int)) is Err,
    ensures
        decode_all(es) == decode_all(es.take(k as int)),
    decreases es.len() - k,
{
    if k < es.len() {
        assert(es.take(k as int + 1).drop_last() =~= es.take(k as int));
        lemma_decode_stop(es, k + 1);
    } else {
        assert(es.take(k as int) =~= es);
    }
}

/// Reading stops at a failing chunk: later reads see the same outcome.
proof fn lemma_read_chunks_stop(m: Map<u32, mem_entry>, first: u32, k: nat, n: nat)
    requires
        k <= n,
        read_chunks(m, first, k).2 is Some,
    ensures
        read_chunks(m, first, n) == read_chunks(m, first, k),
    decreases n - k,
{
    if k < n {
        lemma_read_chunks_stop(m, first, k, (n - 1) as nat);
    }
}

/// Without a failing chunk, `n` reads give `n` words.
proof fn lemma_read_chunks_len(m: Map<u32, mem_entry>, first: u32, n: nat)
    requires
        read_chunks(m, first, n).2 is None,
    ensures
        read_chunks(m, first, n).0.len() == n,
    decreases n,
{
    if n > 0 {
        lemma_read_chunks_len(m, first, (n - 1) as nat);
    }
}

/// The first descriptor fault stays the first.
proof fn lemma_descriptor_fault_stop(ws: Seq<[u32; 4]>, k: nat, n: nat)
    requires
        k <= n,
        descriptor_fault(ws, k) is Some,
    ensures
        descriptor_fault(ws, n) == descriptor_fault(ws, k),
    decreases n - k,
{
    if k < n {
        lemma_descriptor_fault_stop(ws, k, (n - 1) as nat);
    }
}

/// Without a fault among the first `n` descriptors, descriptor `i < n` fits in the pseudo bank.
proof fn lemma_descriptor_ok(ws: Seq<[u32; 4]>, i: nat, n: nat)
    requires
        i < n,
        descriptor_fault(ws, n) is None,
    ensures
        descriptor(ws, i as int).0 + descriptor(ws, i as int).1 <= PSEUDO_BANK_ENTRIES,
    decreases n,
{
    if i + 1 < n {
        lemma_descriptor_ok(ws, i, (n - 1) as nat);
    }
}

/// The encoding of opcode `op` with 3-bit fields a, b, c, d from the top.
pub open spec fn boot_encode(op: u16, a: u16, b: u16, c: u16, d: u16) -> u16 {
    ((op << 12u16) | (a << 9u16) | (b << 6u16) | (c << 3u16) | d) as u16
}

/// The documented instruction table in terms of the fields.
pub open spec fn layout_inst(op: u16, a: u8, b: u8, c: u8, d: u8, imm: u16) -> Result<inst, u8> {
    if op == 0x0 {
        Ok(inst::NOP)
    } else if op == 0x1 {
        Ok(inst::ADD128 { rd: a, rs1: b, rs2: c })
    } else if op == 0x2 {
        Ok(inst::SUB128 { rd: a, rs1: b, rs2: c })
    } else if op == 0x3 {
        Ok(inst::MUL128 { rd: a, rs1: b, rs2: c })
    } else if op == 0x4 {
        Ok(inst::AND128 { rd: a, rs1: b, rs2: c })
    } else if op == 0x5 {
        Ok(inst::LD128 { rd: a, frs: b })
    } else if op == 0x6 {
        Ok(inst::ST128 { rs: a, frd: b })
    } else if op == 0x7 {
        Ok(inst::FatPtrLD { frd: a, frs: b })
    } else if op == 0x8 {
        Ok(inst::FatPtrST { frd: a, frs: b })
    } else if op == 0x9 {
        Ok(inst::FatPtrADD { frd: a, frs: b, rs1: c, imm_idx: d })
    } else if op == 0xa {
        Ok(inst::FatPtrSUB { frd: a, frs: b, rs1: c, imm_idx: d })
    } else if op == 0xb {
        Ok(inst::JUMP { inst_imm: imm })
    } else if op == 0xc {
        Ok(inst::EqualExit { rd: b, rs1: a })
    } else {
        Err(op as u8)
    }
}

/// The decoder follows the documented bit layout: an encoding built from a 4-bit opcode and
/// 3-bit fields a, b, c, d decodes to the table's instruction over those fields (a jump takes
/// the low twelve bits as its target), and opcodes past 0xc are rejected with the opcode.
pub proof fn lemma_decode_layout(op: u16, a: u16, b: u16, c: u16, d: u16)
    requires
        op < 16,
        a < 8,
        b < 8,
        c < 8,
        d < 8,
    ensures
        boot_decode(boot_encode(op, a, b, c, d)) == layout_inst(
            op,
            a as u8,
            b as u8,
            c as u8,
            d as u8,
            ((a << 9u16) | (b << 6u16) | (c << 3u16) | d) as u16,
        ),
{
    let e = boot_encode(op, a, b, c, d);
    assert(((e >> 12u16) & 0xfu16) == op && ((e >> 9u16) & 0x7u16) == a && ((e >> 6u16) & 0x7u16) == b
        && ((e >> 3u16) & 0x7u16) == c && ((e >> 0u16) & 0x7u16) == d && (e & 0x0fffu16) == ((a << 9u16)
        | (b << 6u16) | (c << 3u16) | d)) by (bit_vector)
        requires
            op < 16 && a < 8 && b < 8 && c < 8 && d < 8,
            e == ((op << 12u16) | (a << 9u16) | (b << 6u16) | (c << 3u16) | d) as u16,
    ;
}

} // verus!
