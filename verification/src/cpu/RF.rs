use vstd::prelude::*;
use crate::cpu::pimcpu_types::fatptr_rf;

verus! {

/// The eight 128-bit vector registers; register 0 always reads as written at reset.
pub struct arch_vregs {
    pub vregs_lit: [[u32; 4]; 8],
}

/// The eight fat-pointer registers; a register holds nothing until first written.
pub struct arch_fregs {
    pub fregs_lit: [Option<fatptr_rf>; 8],
}

/// Architectural state of the CGO processor: program counter and register files.
pub struct arch_rf {
    pub pc: u16,
    pub vregs: arch_vregs,
    pub fregs: arch_fregs,
}

/// The abstract architectural state: program counter, vector and fat-pointer registers.
pub struct cpu_rf_state {
    pub pc: u16,
    pub v: Seq<[u32; 4]>,
    pub f: Seq<Option<fatptr_rf>>,
}

impl View for arch_rf {
    type V = cpu_rf_state;

    open spec fn view(&self) -> cpu_rf_state {
        cpu_rf_state { pc: self.pc, v: self.vregs.vregs_lit@, f: self.fregs.fregs_lit@ }
    }
}

/// The state after writing vector register `idx` (writes to register 0 are dropped).
pub open spec fn with_vreg(s: cpu_rf_state, idx: u8, c: [u32; 4]) -> cpu_rf_state {
    if idx == 0 { s } else { cpu_rf_state { v: s.v.update(idx as int, c), ..s } }
}

/// The state after writing fat-pointer register `idx`.
pub open spec fn with_freg(s: cpu_rf_state, idx: u8, f: fatptr_rf) -> cpu_rf_state {
    cpu_rf_state { f: s.f.update(idx as int, Some(f)), ..s }
}

impl arch_vregs {
    pub fn new() -> (r: Self)
        ensures
            forall|i: int| 0 <= i < 8 ==> #[trigger] r.vregs_lit@[i] == [0u32, 0, 0, 0],
    {
        Self { vregs_lit: [[0; 4]; 8] }
    }

    pub fn read(&self, idx: u8) -> (r: [u32; 4])
        requires
            idx < 8,
        ensures
            r == self.vregs_lit@[idx as int],
    {
        self.vregs_lit[idx as usize]
    }

    /// Writes register `idx`; writes to register 0 are dropped.
    pub fn write(&mut self, idx: u8, content: [u32; 4])
        requires
            idx < 8,
        ensures
            final(self).vregs_lit@ == (if idx == 0 {
                old(self).vregs_lit@
            } else {
                old(self).vregs_lit@.update(idx as int, content)
            }),
    {
        if idx != 0 {
            self.vregs_lit[idx as usize] = content;
        }
    }
}

impl arch_fregs {
    pub fn new() -> (r: Self)
        ensures
            forall|i: int| 0 <= i < 8 ==> #[trigger] r.fregs_lit@[i] is None,
    {
        Self { fregs_lit: [None; 8] }
    }

    pub fn read(&self, idx: u8) -> (r: Option<fatptr_rf>)
        requires
            idx < 8,
        ensures
            r == self.fregs_lit@[idx as int],
    {
        self.fregs_lit[idx as usize]
    }

    pub fn write(&mut self, idx: u8, new_fptr: fatptr_rf)
        requires
            idx < 8,
        ensures
            final(self).fregs_lit@ == old(self).fregs_lit@.update(idx as int, Some(new_fptr)),
    {
        self.fregs_lit[idx as usize] = Some(new_fptr);
    }
}

impl arch_rf {
    pub fn new() -> (r: Self)
        ensures
            r@.pc == 0,
            r@.v.len() == 8,
            r@.f.len() == 8,
            forall|i: int| 0 <= i < 8 ==> #[trigger] r@.v[i] == [0u32, 0, 0, 0],
            forall|i: int| 0 <= i < 8 ==> #[trigger] r@.f[i] is None,
    {
        Self { pc: 0, vregs: arch_vregs::new(), fregs: arch_fregs::new() }
    }

    pub fn read_pc(&self) -> (r: u16)
        ensures
            r == self@.pc,
    {
        self.pc
    }

    pub fn write_pc(&mut self, new_pc: u16)
        ensures
            final(self)@ == (cpu_rf_state { pc: new_pc, ..old(self)@ }),
    {
        self.pc = new_pc;
    }

    pub fn read_vregs(&self, idx: u8) -> (r: [u32; 4])
        requires
            idx < 8,
        ensures
            r == self@.v[idx as int],
    {
        self.vregs.read(idx)
    }

    pub fn write_vregs(&mut self, idx: u8, content: [u32; 4])
        requires
            idx < 8,
        ensures
            final(self)@ == with_vreg(old(self)@, idx, content),
    {
        self.vregs.write(idx, content)
    }

    pub fn read_fregs(&self, idx: u8) -> (r: Option<fatptr_rf>)
        requires
            idx < 8,
        ensures
            r == self@.f[idx as int],
    {
        self.fregs.read(idx)
    }

    pub fn write_fregs(&mut self, idx: u8, new_fptr: fatptr_rf)
        requires
            idx < 8,
        ensures
            final(self)@ == with_freg(old(self)@, idx, new_fptr),
    {
        self.fregs.write(idx, new_fptr)
    }
}

} // verus!
