use vstd::prelude::*;
use crate::cpu::pimcpu_types::fatptr_rf;
use core::marker::PhantomData;
use rustc_hash::{FxBuildHasher, FxHashMap};

verus! {

/// Bytes in one flat-memory entry.
pub const PIM_ENTRY_SIZE_BYTES: u64 = 16;

/// Entries in one 64-byte host cache line.
pub const PIM_ENTRIES_PER_CACHELINE: u64 = 4;

/// Declares rustc-hash's hasher builder so that `FxHashMap` can stand in signatures.
#[verifier::external_type_specification]
#[verifier::external_body]
pub struct ExFxBuildHasher(FxBuildHasher);

/// What one flat-memory entry holds: raw host bytes until a typed access claims it.
#[derive(Clone, Copy, Debug, PartialEq, Eq)]
pub enum MemEntryData {
    Untyped([u8; 16]),
    CPU_Data([u32; 4]),
    CPU_FatPtr(fatptr_rf),
    PE_Vector([i16; 8]),
    PE_Scalar(i32),
}

/// One 16-byte flat-memory entry.
#[derive(Clone, Copy, Debug, PartialEq, Eq)]
pub struct mem_entry {
    pub data: MemEntryData,
}

/// Little-endian value of bytes `off .. off + 4`.
pub open spec fn le32(b: [u8; 16], off: int) -> nat {
    (b@[off] + 256 * b@[off + 1] + 65536 * b@[off + 2] + 16777216 * b@[off + 3]) as nat
}

/// Little-endian value of bytes `off .. off + 2`.
pub open spec fn le16(b: [u8; 16], off: int) -> nat {
    (b@[off] + 256 * b@[off + 1]) as nat
}

/// Four little-endian `u32` words.
pub open spec fn cpu_data_of(b: [u8; 16]) -> [u32; 4] {
    [le32(b, 0) as u32, le32(b, 4) as u32, le32(b, 8) as u32, le32(b, 12) as u32]
}

/// A fat pointer from the first little-endian word: tag in bits 31..28, offset in bits 27..0.
pub open spec fn cpu_fatptr_of(b: [u8; 16]) -> fatptr_rf {
    fatptr_rf { tag: (le32(b, 0) / 0x1000_0000) as u8, offset: (le32(b, 0) % 0x1000_0000) as u32 }
}

/// Eight little-endian `i16` lanes.
pub open spec fn pe_vector_of(b: [u8; 16]) -> [i16; 8] {
    [
        le16(b, 0) as i16,
        le16(b, 2) as i16,
        le16(b, 4) as i16,
        le16(b, 6) as i16,
        le16(b, 8) as i16,
        le16(b, 10) as i16,
        le16(b, 12) as i16,
        le16(b, 14) as i16,
    ]
}

/// One little-endian `i32` from the first four bytes.
pub open spec fn pe_scalar_of(b: [u8; 16]) -> i32 {
    le32(b, 0) as i32
}

/// Byte `k` (little-endian) of a 64-bit word.
pub open spec fn byte_of(x: u64, k: nat) -> u8 {
    ((x as nat / pow256(k)) % 256) as u8
}

/// `256` to the power `k`.
pub open spec fn pow256(k: nat) -> nat
    decreases k,
{
    if k == 0 {
        1
    } else {
        256 * pow256((k - 1) as nat)
    }
}

/// The 16 bytes of an entry assembled from two little-endian 64-bit words.
pub open spec fn backing_of(lo: u64, hi: u64) -> [u8; 16] {
    [
        byte_of(lo, 0),
        byte_of(lo, 1),
        byte_of(lo, 2),
        byte_of(lo, 3),
        byte_of(lo, 4),
        byte_of(lo, 5),
        byte_of(lo, 6),
        byte_of(lo, 7),
        byte_of(hi, 0),
        byte_of(hi, 1),
        byte_of(hi, 2),
        byte_of(hi, 3),
        byte_of(hi, 4),
        byte_of(hi, 5),
        byte_of(hi, 6),
        byte_of(hi, 7),
    ]
}

/// The entry a host write of `backing` leaves behind: an established type is kept and
/// re-decoded from the new bytes.
pub open spec fn mirrored(d: MemEntryData, backing: [u8; 16]) -> MemEntryData {
    match d {
        MemEntryData::Untyped(_) => MemEntryData::Untyped(backing),
        MemEntryData::CPU_Data(_) => MemEntryData::CPU_Data(cpu_data_of(backing)),
        MemEntryData::CPU_FatPtr(_) => MemEntryData::CPU_FatPtr(cpu_fatptr_of(backing)),
        MemEntryData::PE_Vector(_) => MemEntryData::PE_Vector(pe_vector_of(backing)),
        MemEntryData::PE_Scalar(_) => MemEntryData::PE_Scalar(pe_scalar_of(backing)),
    }
}

fn le32_at(b: [u8; 16], off: usize) -> (r: u32)
    requires
        off + 4 <= 16,
    ensures
        r == le32(b, off as int),
{
    b[off] as u32 + (b[off + 1] as u32) * 256 + (b[off + 2] as u32) * 65536 + (b[off + 3] as u32)
        * 16777216
}

fn le16_at(b: [u8; 16], off: usize) -> (r: u16)
    requires
        off + 2 <= 16,
    ensures
        r == le16(b, off as int),
{
    b[off] as u16 + (b[off + 1] as u16) * 256
}

pub fn decode_CPU_Data(backing: [u8; 16]) -> (r: [u32; 4])
    ensures
        r == cpu_data_of(backing),
{
    [le32_at(backing, 0), le32_at(backing, 4), le32_at(backing, 8), le32_at(backing, 12)]
}

pub fn decode_CPU_FatPtr(backing: [u8; 16]) -> (r: fatptr_rf)
    ensures
        r == cpu_fatptr_of(backing),
        r.wf(),
{
    let encoded = le32_at(backing, 0);
    fatptr_rf::new((encoded / 0x1000_0000) as u8, encoded % 0x1000_0000)
}

pub fn decode_PE_Vector(backing: [u8; 16]) -> (r: [i16; 8])
    ensures
        r == pe_vector_of(backing),
{
    [
        le16_at(backing, 0) as i16,
        le16_at(backing, 2) as i16,
        le16_at(backing, 4) as i16,
        le16_at(backing, 6) as i16,
        le16_at(backing, 8) as i16,
        le16_at(backing, 10) as i16,
        le16_at(backing, 12) as i16,
        le16_at(backing, 14) as i16,
    ]
}

pub fn decode_PE_Scalar(backing: [u8; 16]) -> (r: i32)
    ensures
        r == pe_scalar_of(backing),
{
    le32_at(backing, 0) as i32
}

/// The little-endian bytes of a 64-bit word.
fn u64_le_bytes(x: u64) -> (r: [u8; 8])
    ensures
        forall|k: int| 0 <= k < 8 ==> #[trigger] r@[k] == byte_of(x, k as nat),
{
    let mut r = [0u8; 8];
    let mut rest = x;
    let mut k: usize = 0;
    assert(pow256(0) == 1);
    assert(x as nat / 1 == x as nat);
    while k < 8
        invariant
            0 <= k <= 8,
            rest as nat == x as nat / pow256(k as nat),
            forall|j: int| 0 <= j < k ==> #[trigger] r@[j] == byte_of(x, j as nat),
        decreases 8 - k,
    {
        proof {
            lemma_pow256_pos(k as nat);
            vstd::arithmetic::div_mod::lemma_div_denominator(x as int, pow256(k as nat) as int, 256);
            assert(pow256((k + 1) as nat) == 256 * pow256(k as nat));
            assert(pow256(k as nat) * 256 == 256 * pow256(k as nat)) by (nonlinear_arith);
        }
        r[k] = (rest % 256) as u8;
        rest = rest / 256;
        k = k + 1;
    }
    r
}

proof fn lemma_pow256_pos(k: nat)
    ensures
        pow256(k) > 0,
    decreases k,
{
    if k > 0 {
        lemma_pow256_pos((k - 1) as nat);
    }
}

fn make_backing(lo: u64, hi: u64) -> (b: [u8; 16])
    ensures
        b == backing_of(lo, hi),
{
    let l = u64_le_bytes(lo);
    let h = u64_le_bytes(hi);
    let b = [l[0], l[1], l[2], l[3], l[4], l[5], l[6], l[7], h[0], h[1], h[2], h[3], h[4], h[5], h[6], h[7]];
    assert(b@ =~= backing_of(lo, hi)@);
    b
}

impl mem_entry {
    pub fn new(data: MemEntryData) -> (r: Self)
        ensures
            r.data == data,
    {
        Self { data }
    }

    /// Replaces the entry's bytes with a host write, keeping an established type.
    pub fn mirror_host_bytes(&mut self, backing: [u8; 16])
        ensures
            final(self).data == mirrored(old(self).data, backing),
    {
        let data = match self.data {
            MemEntryData::Untyped(_) => MemEntryData::Untyped(backing),
            MemEntryData::CPU_Data(_) => MemEntryData::CPU_Data(decode_CPU_Data(backing)),
            MemEntryData::CPU_FatPtr(_) => MemEntryData::CPU_FatPtr(decode_CPU_FatPtr(backing)),
            MemEntryData::PE_Vector(_) => MemEntryData::PE_Vector(decode_PE_Vector(backing)),
            MemEntryData::PE_Scalar(_) => MemEntryData::PE_Scalar(decode_PE_Scalar(backing)),
        };
        self.data = data;
    }
}

/// Reads one entry of an Fx-hashed map (`HashMap::get` under rustc-hash's hasher).
#[verifier::external_body]
fn fx_get(m: &FxHashMap<u32, mem_entry>, k: u32) -> (r: Option<mem_entry>)
    ensures
        r == (if m@.contains_key(k) { Some(m@[k]) } else { None }),
{
    m.get(&k).copied()
}

/// Inserts into an Fx-hashed map (`HashMap::insert` under rustc-hash's hasher).
#[verifier::external_body]
fn fx_insert(m: &mut FxHashMap<u32, mem_entry>, k: u32, v: mem_entry)
    ensures
        final(m)@ == old(m)@.insert(k, v),
{
    m.insert(k, v);
}


/// Four zero CPU data words.
pub open spec fn zero_words() -> [u32; 4] {
    [0, 0, 0, 0]
}

/// The all-zero PE vector.
pub open spec fn zero_vector() -> [i16; 8] {
    [0, 0, 0, 0, 0, 0, 0, 0]
}

/// Reading CPU data: raw bytes are decoded and the entry becomes CPU data.
pub open spec fn cpu_data_read(d: MemEntryData) -> (Option<[u32; 4]>, MemEntryData) {
    match d {
        MemEntryData::Untyped(b) => (Some(cpu_data_of(b)), MemEntryData::CPU_Data(cpu_data_of(b))),
        MemEntryData::CPU_Data(x) => (Some(x), d),
        _ => (None, d),
    }
}

/// Writing CPU data succeeds on raw bytes and on CPU data.
pub open spec fn cpu_data_write(d: MemEntryData, x: [u32; 4]) -> (Option<()>, MemEntryData) {
    match d {
        MemEntryData::Untyped(_) | MemEntryData::CPU_Data(_) => (Some(()), MemEntryData::CPU_Data(x)),
        _ => (None, d),
    }
}

/// Reading a fat pointer: raw bytes are decoded and the entry becomes a fat pointer.
pub open spec fn cpu_fptr_read(d: MemEntryData) -> (Option<fatptr_rf>, MemEntryData) {
    match d {
        MemEntryData::Untyped(b) => (Some(cpu_fatptr_of(b)), MemEntryData::CPU_FatPtr(cpu_fatptr_of(b))),
        MemEntryData::CPU_FatPtr(x) => (Some(x), d),
        _ => (None, d),
    }
}

/// Writing a fat pointer succeeds on raw bytes and on fat pointers.
pub open spec fn cpu_fptr_write(d: MemEntryData, x: fatptr_rf) -> (Option<()>, MemEntryData) {
    match d {
        MemEntryData::Untyped(_) | MemEntryData::CPU_FatPtr(_) => (Some(()), MemEntryData::CPU_FatPtr(x)),
        _ => (None, d),
    }
}

/// Reading a PE vector: raw bytes are decoded and the entry becomes a PE vector.
pub open spec fn pe_vector_read(d: MemEntryData) -> (Option<[i16; 8]>, MemEntryData) {
    match d {
        MemEntryData::Untyped(b) => (Some(pe_vector_of(b)), MemEntryData::PE_Vector(pe_vector_of(b))),
        MemEntryData::PE_Vector(x) => (Some(x), d),
        _ => (None, d),
    }
}

/// Writing a PE vector succeeds on raw bytes and on PE vectors.
pub open spec fn pe_vector_write(d: MemEntryData, x: [i16; 8]) -> (Option<()>, MemEntryData) {
    match d {
        MemEntryData::Untyped(_) | MemEntryData::PE_Vector(_) => (Some(()), MemEntryData::PE_Vector(x)),
        _ => (None, d),
    }
}

/// Reading a PE scalar: raw bytes are decoded and the entry becomes a PE scalar.
pub open spec fn pe_scalar_read(d: MemEntryData) -> (Option<i32>, MemEntryData) {
    match d {
        MemEntryData::Untyped(b) => (Some(pe_scalar_of(b)), MemEntryData::PE_Scalar(pe_scalar_of(b))),
        MemEntryData::PE_Scalar(x) => (Some(x), d),
        _ => (None, d),
    }
}

/// Writing a PE scalar succeeds on raw bytes and on PE scalars.
pub open spec fn pe_scalar_write(d: MemEntryData, x: i32) -> (Option<()>, MemEntryData) {
    match d {
        MemEntryData::Untyped(_) | MemEntryData::PE_Scalar(_) => (Some(()), MemEntryData::PE_Scalar(x)),
        _ => (None, d),
    }
}

/// A typed read of address `addr`: an absent entry gives `dflt` and is not created;
/// a present entry is read (and possibly claimed) by `rd`.
pub open spec fn mem_read<T>(
    m: Map<u32, mem_entry>,
    addr: u32,
    dflt: Option<T>,
    rd: spec_fn(MemEntryData) -> (Option<T>, MemEntryData),
) -> (Option<T>, Map<u32, mem_entry>) {
    if m.contains_key(addr) {
        (rd(m[addr].data).0, m.insert(addr, mem_entry { data: rd(m[addr].data).1 }))
    } else {
        (dflt, m)
    }
}

/// A typed write of address `addr`: an absent entry is created with `fresh`;
/// a present entry is written (or left alone on a type mismatch) by `wr`.
pub open spec fn mem_write(
    m: Map<u32, mem_entry>,
    addr: u32,
    fresh: MemEntryData,
    wr: spec_fn(MemEntryData) -> (Option<()>, MemEntryData),
) -> (Option<()>, Map<u32, mem_entry>) {
    if m.contains_key(addr) {
        (wr(m[addr].data).0, m.insert(addr, mem_entry { data: wr(m[addr].data).1 }))
    } else {
        (Some(()), m.insert(addr, mem_entry { data: fresh }))
    }
}

/// Per-processor typing of flat-memory entries: each processor reads and writes two
/// kinds of values.
pub trait flatmem_builder {
    type First: Copy;

    type Second: Copy;

    fn default_first() -> Option<Self::First>;

    fn read_first(entry: &mut mem_entry) -> Option<Self::First>;

    fn write_first(entry: &mut mem_entry, data: Self::First) -> Option<()>;

    fn new_first(data: Self::First) -> mem_entry;

    fn default_second() -> Option<Self::Second>;

    fn read_second(entry: &mut mem_entry) -> Option<Self::Second>;

    fn write_second(entry: &mut mem_entry, data: Self::Second) -> Option<()>;

    fn new_second(data: Self::Second) -> mem_entry;
}

/// The CGO processor's typing: CPU data words first, fat pointers second.
pub struct cpu_flatmem;

/// The PE's typing: vectors first, scalars second.
pub struct pe_flatmem;

impl flatmem_builder for cpu_flatmem {
    type First = [u32; 4];

    type Second = fatptr_rf;

    fn default_first() -> (r: Option<[u32; 4]>)
        ensures
            r == Some(zero_words()),
    {
        Some([0; 4])
    }

    fn read_first(entry: &mut mem_entry) -> (r: Option<[u32; 4]>)
        ensures
            (r, final(entry).data) == cpu_data_read(old(entry).data),
    {
        match entry.data {
            MemEntryData::Untyped(backing) => {
                let data = decode_CPU_Data(backing);
                entry.data = MemEntryData::CPU_Data(data);
                Some(data)
            },
            MemEntryData::CPU_Data(data) => Some(data),
            _ => None,
        }
    }

    fn write_first(entry: &mut mem_entry, data: [u32; 4]) -> (r: Option<()>)
        ensures
            (r, final(entry).data) == cpu_data_write(old(entry).data, data),
    {
        match entry.data {
            MemEntryData::Untyped(_) | MemEntryData::CPU_Data(_) => {
                entry.data = MemEntryData::CPU_Data(data);
                Some(())
            },
            _ => None,
        }
    }

    fn new_first(data: [u32; 4]) -> (r: mem_entry)
        ensures
            r.data == MemEntryData::CPU_Data(data),
    {
        mem_entry::new(MemEntryData::CPU_Data(data))
    }

    fn default_second() -> (r: Option<fatptr_rf>)
        ensures
            r is None,
    {
        None
    }

    fn read_second(entry: &mut mem_entry) -> (r: Option<fatptr_rf>)
        ensures
            (r, final(entry).data) == cpu_fptr_read(old(entry).data),
    {
        match entry.data {
            MemEntryData::Untyped(backing) => {
                let fptr = decode_CPU_FatPtr(backing);
                entry.data = MemEntryData::CPU_FatPtr(fptr);
                Some(fptr)
            },
            MemEntryData::CPU_FatPtr(fptr) => Some(fptr),
            _ => None,
        }
    }

    fn write_second(entry: &mut mem_entry, data: fatptr_rf) -> (r: Option<()>)
        ensures
            (r, final(entry).data) == cpu_fptr_write(old(entry).data, data),
    {
        match entry.data {
            MemEntryData::Untyped(_) | MemEntryData::CPU_FatPtr(_) => {
                entry.data = MemEntryData::CPU_FatPtr(data);
                Some(())
            },
            _ => None,
        }
    }

    fn new_second(data: fatptr_rf) -> (r: mem_entry)
        ensures
            r.data == MemEntryData::CPU_FatPtr(data),
    {
        mem_entry::new(MemEntryData::CPU_FatPtr(data))
    }
}

impl flatmem_builder for pe_flatmem {
    type First = [i16; 8];

    type Second = i32;

    fn default_first() -> (r: Option<[i16; 8]>)
        ensures
            r == Some(zero_vector()),
    {
        Some([0; 8])
    }

    fn read_first(entry: &mut mem_entry) -> (r: Option<[i16; 8]>)
        ensures
            (r, final(entry).data) == pe_vector_read(old(entry).data),
    {
        match entry.data {
            MemEntryData::Untyped(backing) => {
                let data = decode_PE_Vector(backing);
                entry.data = MemEntryData::PE_Vector(data);
                Some(data)
            },
            MemEntryData::PE_Vector(data) => Some(data),
            _ => None,
        }
    }

    fn write_first(entry: &mut mem_entry, data: [i16; 8]) -> (r: Option<()>)
        ensures
            (r, final(entry).data) == pe_vector_write(old(entry).data, data),
    {
        match entry.data {
            MemEntryData::Untyped(_) | MemEntryData::PE_Vector(_) => {
                entry.data = MemEntryData::PE_Vector(data);
                Some(())
            },
            _ => None,
        }
    }

    fn new_first(data: [i16; 8]) -> (r: mem_entry)
        ensures
            r.data == MemEntryData::PE_Vector(data),
    {
        mem_entry::new(MemEntryData::PE_Vector(data))
    }

    fn default_second() -> (r: Option<i32>)
        ensures
            r == Some(0i32),
    {
        Some(0)
    }

    fn read_second(entry: &mut mem_entry) -> (r: Option<i32>)
        ensures
            (r, final(entry).data) == pe_scalar_read(old(entry).data),
    {
        match entry.data {
            MemEntryData::Untyped(backing) => {
                let data = decode_PE_Scalar(backing);
                entry.data = MemEntryData::PE_Scalar(data);
                Some(data)
            },
            MemEntryData::PE_Scalar(data) => Some(data),
            _ => None,
        }
    }

    fn write_second(entry: &mut mem_entry, data: i32) -> (r: Option<()>)
        ensures
            (r, final(entry).data) == pe_scalar_write(old(entry).data, data),
    {
        match entry.data {
            MemEntryData::Untyped(_) | MemEntryData::PE_Scalar(_) => {
                entry.data = MemEntryData::PE_Scalar(data);
                Some(())
            },
            _ => None,
        }
    }

    fn new_second(data: i32) -> (r: mem_entry)
        ensures
            r.data == MemEntryData::PE_Scalar(data),
    {
        mem_entry::new(MemEntryData::PE_Scalar(data))
    }
}

/// Flat memory of one pseudo bank: a sparse map from entry addresses to 16-byte entries,
/// typed by the processor `B` that uses it.
pub struct flat_mem<B> {
    pub mem: FxHashMap<u32, mem_entry>,
    pub kind: PhantomData<B>,
}

/// Flat memory as the CGO processor sees it.
pub type cpu_flat_mem = flat_mem<cpu_flatmem>;

/// Flat memory as the PE sees it.
pub type pe_flat_mem = flat_mem<pe_flatmem>;

impl<B> View for flat_mem<B> {
    type V = Map<u32, mem_entry>;

    open spec fn view(&self) -> Map<u32, mem_entry> {
        self.mem@
    }
}

/// The entries a host cache-line write at `first_entry` produces: four 16-byte entries,
/// each re-decoded under its established type or stored as raw bytes.
pub open spec fn mirror_map(m: Map<u32, mem_entry>, first_entry: u32, payload: [u64; 8], n: nat) -> Map<u32, mem_entry>
    decreases n,
{
    if n == 0 {
        m
    } else {
        let prev = mirror_map(m, first_entry, payload, (n - 1) as nat);
        let k = (n - 1) as int;
        let addr = (first_entry + k) as u32;
        let backing = backing_of(payload@[2 * k], payload@[2 * k + 1]);
        if prev.contains_key(addr) {
            prev.insert(addr, mem_entry { data: mirrored(prev[addr].data, backing) })
        } else {
            prev.insert(addr, mem_entry { data: MemEntryData::Untyped(backing) })
        }
    }
}

impl<B> flat_mem<B> {
    pub fn new() -> (r: Self)
        ensures
            r@ == Map::<u32, mem_entry>::empty(),
    {
        Self { mem: FxHashMap::default(), kind: PhantomData }
    }

    /// Mirrors one 64-byte host cache line into the four entries starting at `first_entry`.
    pub fn mirror_host_write(&mut self, first_entry: u32, payload: &[u64; 8])
        requires
            first_entry + 3 <= u32::MAX,
        ensures
            final(self)@ == mirror_map(old(self)@, first_entry, *payload, 4),
    {
        let mut entry_offset: usize = 0;
        while entry_offset < 4
            invariant
                0 <= entry_offset <= 4,
                first_entry + 3 <= u32::MAX,
                self@ == mirror_map(old(self)@, first_entry, *payload, entry_offset as nat),
            decreases 4 - entry_offset,
        {
            let first_dword = entry_offset * 2;
            let backing = make_backing(payload[first_dword], payload[first_dword + 1]);
            let addr = first_entry + entry_offset as u32;
            match fx_get(&self.mem, addr) {
                Some(ent) => {
                    let mut ent = ent;
                    ent.mirror_host_bytes(backing);
                    fx_insert(&mut self.mem, addr, ent);
                },
                None => {
                    fx_insert(&mut self.mem, addr, mem_entry::new(MemEntryData::Untyped(backing)));
                },
            }
            entry_offset = entry_offset + 1;
        }
    }
}

impl flat_mem<cpu_flatmem> {
    fn read_first(&mut self, addr: u32) -> (r: Option<[u32; 4]>)
        ensures
            (r, final(self)@) == mem_read(old(self)@, addr, Some(zero_words()), |d: MemEntryData| cpu_data_read(d)),
    {
        match fx_get(&self.mem, addr) {
            Some(ent) => {
                let mut ent = ent;
                let r = cpu_flatmem::read_first(&mut ent);
                fx_insert(&mut self.mem, addr, ent);
                r
            },
            None => cpu_flatmem::default_first(),
        }
    }

    fn write_first(&mut self, addr: u32, data: [u32; 4]) -> (r: Option<()>)
        ensures
            (r, final(self)@) == mem_write(old(self)@, addr, MemEntryData::CPU_Data(data), |d: MemEntryData| cpu_data_write(d, data)),
    {
        match fx_get(&self.mem, addr) {
            Some(ent) => {
                let mut ent = ent;
                let r = cpu_flatmem::write_first(&mut ent, data);
                fx_insert(&mut self.mem, addr, ent);
                r
            },
            None => {
                fx_insert(&mut self.mem, addr, cpu_flatmem::new_first(data));
                Some(())
            },
        }
    }

    fn read_second(&mut self, addr: u32) -> (r: Option<fatptr_rf>)
        ensures
            (r, final(self)@) == mem_read(old(self)@, addr, None, |d: MemEntryData| cpu_fptr_read(d)),
    {
        match fx_get(&self.mem, addr) {
            Some(ent) => {
                let mut ent = ent;
                let r = cpu_flatmem::read_second(&mut ent);
                fx_insert(&mut self.mem, addr, ent);
                r
            },
            None => cpu_flatmem::default_second(),
        }
    }

    fn write_second(&mut self, addr: u32, data: fatptr_rf) -> (r: Option<()>)
        ensures
            (r, final(self)@) == mem_write(old(self)@, addr, MemEntryData::CPU_FatPtr(data), |d: MemEntryData| cpu_fptr_write(d, data)),
    {
        match fx_get(&self.mem, addr) {
            Some(ent) => {
                let mut ent = ent;
                let r = cpu_flatmem::write_second(&mut ent, data);
                fx_insert(&mut self.mem, addr, ent);
                r
            },
            None => {
                fx_insert(&mut self.mem, addr, cpu_flatmem::new_second(data));
                Some(())
            },
        }
    }

    /// Reads four CPU data words; an absent entry reads as zeros and stays absent.
    pub fn mem_read_data(&mut self, addr: u32) -> (r: Option<[u32; 4]>)
        ensures
            (r, final(self)@) == mem_read(old(self)@, addr, Some(zero_words()), |d: MemEntryData| cpu_data_read(d)),
    {
        self.read_first(addr)
    }

    pub fn mem_write_data(&mut self, addr: u32, data: &[u32; 4]) -> (r: Option<()>)
        ensures
            (r, final(self)@) == mem_write(old(self)@, addr, MemEntryData::CPU_Data(*data), |d: MemEntryData| cpu_data_write(d, *data)),
    {
        self.write_first(addr, *data)
    }

    /// Reads a fat pointer; an absent entry reads as `None` and stays absent.
    pub fn mem_read_fptr(&mut self, addr: u32) -> (r: Option<fatptr_rf>)
        ensures
            (r, final(self)@) == mem_read(old(self)@, addr, None, |d: MemEntryData| cpu_fptr_read(d)),
    {
        self.read_second(addr)
    }

    pub fn mem_write_fptr(&mut self, addr: u32, fptr: &fatptr_rf) -> (r: Option<()>)
        ensures
            (r, final(self)@) == mem_write(old(self)@, addr, MemEntryData::CPU_FatPtr(*fptr), |d: MemEntryData| cpu_fptr_write(d, *fptr)),
    {
        self.write_second(addr, *fptr)
    }
}

impl flat_mem<pe_flatmem> {
    fn read_first(&mut self, addr: u32) -> (r: Option<[i16; 8]>)
        ensures
            (r, final(self)@) == mem_read(old(self)@, addr, Some(zero_vector()), |d: MemEntryData| pe_vector_read(d)),
    {
        match fx_get(&self.mem, addr) {
            Some(ent) => {
                let mut ent = ent;
                let r = pe_flatmem::read_first(&mut ent);
                fx_insert(&mut self.mem, addr, ent);
                r
            },
            None => pe_flatmem::default_first(),
        }
    }

    fn write_first(&mut self, addr: u32, data: [i16; 8]) -> (r: Option<()>)
        ensures
            (r, final(self)@) == mem_write(old(self)@, addr, MemEntryData::PE_Vector(data), |d: MemEntryData| pe_vector_write(d, data)),
    {
        match fx_get(&self.mem, addr) {
            Some(ent) => {
                let mut ent = ent;
                let r = pe_flatmem::write_first(&mut ent, data);
                fx_insert(&mut self.mem, addr, ent);
                r
            },
            None => {
                fx_insert(&mut self.mem, addr, pe_flatmem::new_first(data));
                Some(())
            },
        }
    }

    fn read_second(&mut self, addr: u32) -> (r: Option<i32>)
        ensures
            (r, final(self)@) == mem_read(old(self)@, addr, Some(0i32), |d: MemEntryData| pe_scalar_read(d)),
    {
        match fx_get(&self.mem, addr) {
            Some(ent) => {
                let mut ent = ent;
                let r = pe_flatmem::read_second(&mut ent);
                fx_insert(&mut self.mem, addr, ent);
                r
            },
            None => pe_flatmem::default_second(),
        }
    }

    fn write_second(&mut self, addr: u32, data: i32) -> (r: Option<()>)
        ensures
            (r, final(self)@) == mem_write(old(self)@, addr, MemEntryData::PE_Scalar(data), |d: MemEntryData| pe_scalar_write(d, data)),
    {
        match fx_get(&self.mem, addr) {
            Some(ent) => {
                let mut ent = ent;
                let r = pe_flatmem::write_second(&mut ent, data);
                fx_insert(&mut self.mem, addr, ent);
                r
            },
            None => {
                fx_insert(&mut self.mem, addr, pe_flatmem::new_second(data));
                Some(())
            },
        }
    }

    /// Reads a PE vector; an absent entry reads as zeros and stays absent.
    pub fn mem_read_v(&mut self, addr: u32) -> (r: Option<[i16; 8]>)
        ensures
            (r, final(self)@) == mem_read(old(self)@, addr, Some(zero_vector()), |d: MemEntryData| pe_vector_read(d)),
    {
        self.read_first(addr)
    }

    pub fn mem_write_v(&mut self, addr: u32, data: &[i16; 8]) -> (r: Option<()>)
        ensures
            (r, final(self)@) == mem_write(old(self)@, addr, MemEntryData::PE_Vector(*data), |d: MemEntryData| pe_vector_write(d, *data)),
    {
        self.write_first(addr, *data)
    }

    /// Reads a PE scalar; an absent entry reads as zero and stays absent.
    pub fn mem_read_s(&mut self, addr: u32) -> (r: Option<i32>)
        ensures
            (r, final(self)@) == mem_read(old(self)@, addr, Some(0i32), |d: MemEntryData| pe_scalar_read(d)),
    {
        self.read_second(addr)
    }

    pub fn mem_write_s(&mut self, addr: u32, data: i32) -> (r: Option<()>)
        ensures
            (r, final(self)@) == mem_write(old(self)@, addr, MemEntryData::PE_Scalar(data), |d: MemEntryData| pe_scalar_write(d, data)),
    {
        self.write_second(addr, data)
    }
}

/// The kind of value an entry holds.
pub open spec fn entry_kind(d: MemEntryData) -> nat {
    match d {
        MemEntryData::Untyped(_) => 0,
        MemEntryData::CPU_Data(_) => 1,
        MemEntryData::CPU_FatPtr(_) => 2,
        MemEntryData::PE_Vector(_) => 3,
        MemEntryData::PE_Scalar(_) => 4,
    }
}

/// A write that succeeds is read back: after a successful typed write of `x` at `addr`, a
/// read of the same type at `addr` gives `x`, for each of the four value types.
pub proof fn lemma_write_then_read(
    m: Map<u32, mem_entry>,
    addr: u32,
    cd: [u32; 4],
    fp: fatptr_rf,
    pv: [i16; 8],
    ps: i32,
)
    ensures
        mem_write(m, addr, MemEntryData::CPU_Data(cd), |d: MemEntryData| cpu_data_write(d, cd)).0 is Some ==> mem_read(
            mem_write(m, addr, MemEntryData::CPU_Data(cd), |d: MemEntryData| cpu_data_write(d, cd)).1,
            addr,
            Some(zero_words()),
            |d: MemEntryData| cpu_data_read(d),
        ).0 == Some(cd),
        mem_write(m, addr, MemEntryData::CPU_FatPtr(fp), |d: MemEntryData| cpu_fptr_write(d, fp)).0 is Some ==> mem_read(
            mem_write(m, addr, MemEntryData::CPU_FatPtr(fp), |d: MemEntryData| cpu_fptr_write(d, fp)).1,
            addr,
            None,
            |d: MemEntryData| cpu_fptr_read(d),
        ).0 == Some(fp),
        mem_write(m, addr, MemEntryData::PE_Vector(pv), |d: MemEntryData| pe_vector_write(d, pv)).0 is Some ==> mem_read(
            mem_write(m, addr, MemEntryData::PE_Vector(pv), |d: MemEntryData| pe_vector_write(d, pv)).1,
            addr,
            Some(zero_vector()),
            |d: MemEntryData| pe_vector_read(d),
        ).0 == Some(pv),
        mem_write(m, addr, MemEntryData::PE_Scalar(ps), |d: MemEntryData| pe_scalar_write(d, ps)).0 is Some ==> mem_read(
            mem_write(m, addr, MemEntryData::PE_Scalar(ps), |d: MemEntryData| pe_scalar_write(d, ps)).1,
            addr,
            Some(0i32),
            |d: MemEntryData| pe_scalar_read(d),
        ).0 == Some(ps),
{
}

/// Reading an address that holds no entry gives the type's default and creates nothing.
pub proof fn lemma_absent_read<T>(
    m: Map<u32, mem_entry>,
    addr: u32,
    dflt: Option<T>,
    rd: spec_fn(MemEntryData) -> (Option<T>, MemEntryData),
)
    requires
        !m.contains_key(addr),
    ensures
        mem_read(m, addr, dflt, rd) == (dflt, m),
{
}

/// An entry's type, once established, is kept: a read or write of another type fails and
/// leaves the entry alone, and a typed read or write keeps the type.
pub proof fn lemma_entry_type_is_kept(d: MemEntryData, cd: [u32; 4], fp: fatptr_rf, pv: [i16; 8], ps: i32)
    requires
        !(d is Untyped),
    ensures
        entry_kind(cpu_data_read(d).1) == entry_kind(d),
        entry_kind(cpu_data_write(d, cd).1) == entry_kind(d),
        entry_kind(cpu_fptr_read(d).1) == entry_kind(d),
        entry_kind(cpu_fptr_write(d, fp).1) == entry_kind(d),
        entry_kind(pe_vector_read(d).1) == entry_kind(d),
        entry_kind(pe_vector_write(d, pv).1) == entry_kind(d),
        entry_kind(pe_scalar_read(d).1) == entry_kind(d),
        entry_kind(pe_scalar_write(d, ps).1) == entry_kind(d),
        (cpu_data_read(d).0 is None <==> !(d is CPU_Data)),
        (cpu_fptr_read(d).0 is None <==> !(d is CPU_FatPtr)),
        (pe_vector_read(d).0 is None <==> !(d is PE_Vector)),
        (pe_scalar_read(d).0 is None <==> !(d is PE_Scalar)),
        (cpu_data_write(d, cd).0 is None ==> cpu_data_write(d, cd).1 == d),
        (cpu_fptr_write(d, fp).0 is None ==> cpu_fptr_write(d, fp).1 == d),
        (pe_vector_write(d, pv).0 is None ==> pe_vector_write(d, pv).1 == d),
        (pe_scalar_write(d, ps).0 is None ==> pe_scalar_write(d, ps).1 == d),
{
}

/// A host write keeps the type of every entry it overwrites: only raw bytes stay raw.
pub proof fn lemma_mirror_keeps_type(d: MemEntryData, b: [u8; 16])
    ensures
        entry_kind(mirrored(d, b)) == entry_kind(d),
{
}

/// An access touches only its own address.
pub proof fn lemma_access_is_local<T>(
    m: Map<u32, mem_entry>,
    addr: u32,
    other: u32,
    dflt: Option<T>,
    rd: spec_fn(MemEntryData) -> (Option<T>, MemEntryData),
    fresh: MemEntryData,
    wr: spec_fn(MemEntryData) -> (Option<()>, MemEntryData),
)
    requires
        other != addr,
    ensures
        mem_read(m, addr, dflt, rd).1.contains_key(other) == m.contains_key(other),
        m.contains_key(other) ==> mem_read(m, addr, dflt, rd).1[other] == m[other],
        mem_write(m, addr, fresh, wr).1.contains_key(other) == m.contains_key(other),
        m.contains_key(other) ==> mem_write(m, addr, fresh, wr).1[other] == m[other],
{
}

} // verus!
