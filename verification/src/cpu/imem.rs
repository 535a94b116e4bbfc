use vstd::prelude::*;
use crate::cpu::pimcpu_types::inst;

verus! {

/// Instruction memory of the CGO processor.
pub struct IMEM {
    pub prog: Vec<inst>,
}

impl IMEM {
    pub fn new() -> (r: Self)
        ensures
            r.prog@ == Seq::<inst>::empty(),
    {
        Self { prog: Vec::new() }
    }

    /// Replaces the whole program.
    pub fn flash_in(&mut self, new_prog: &[inst])
        ensures
            final(self).prog@ == new_prog@,
    {
        let mut prog: Vec<inst> = Vec::new();
        let mut i: usize = 0;
        while i < new_prog.len()
            invariant
                i <= new_prog@.len(),
                prog@ == new_prog@.subrange(0, i as int),
            decreases new_prog@.len() - i,
        {
            prog.push(new_prog[i]);
            i = i + 1;
            assert(prog@ =~= new_prog@.subrange(0, i as int));
        }
        assert(prog@ =~= new_prog@);
        self.prog = prog;
    }

    /// The instruction at `pc`, if the program is that long.
    pub fn read_inst(&self, pc: u16) -> (r: Option<inst>)
        ensures
            r == (if (pc as int) < self.prog@.len() { Some(self.prog@[pc as int]) } else { None }),
    {
        if (pc as usize) < self.prog.len() {
            Some(self.prog[pc as usize])
        } else {
            None
        }
    }
}

} // verus!
