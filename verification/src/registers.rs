//! The register file: program counter, index register, timers, the sixteen
//! general-purpose byte registers, and the call stack of return addresses.

use vstd::prelude::*;

verus! {

/// Number of general-purpose registers.
pub const NUM_REGISTERS: usize = 16;

/// Index of the flag register, which arithmetic, shift and draw
/// instructions overwrite with a carry / borrow / collision flag.
pub const FLAG_REGISTER: usize = 15;

/// The register file.
pub struct Registers {
    /// Program counter: address of the next instruction word to fetch.
    pub pc: u16,
    /// Index register, used by the memory-addressing instructions.
    pub i: u16,
    /// Sound timer base value. Accepted but never acted upon.
    pub st: u8,
    /// Delay timer base value; the observable timer value decays from it
    /// over wall-clock time.
    pub dt: u8,
    /// The sixteen general-purpose byte registers V0 through VF.
    pub v: Vec<u8>,
    /// The call stack of return addresses.
    pub sp: Vec<u16>,
}

impl Registers {
    /// There are always exactly sixteen general-purpose registers.
    pub open spec fn wf(&self) -> bool {
        self.v@.len() == NUM_REGISTERS
    }

    /// Fresh registers: the program counter at the program start offset,
    /// every general-purpose register zero, and an empty call stack.
    pub fn new() -> (r: Registers)
        ensures
            r.wf(),
            r.pc == 0x200,
            r.i == 0,
            r.st == 60,
            r.dt == 50,
            forall|j: int| 0 <= j < NUM_REGISTERS ==> r.v@[j] == 0,
            r.sp@.len() == 0,
    {
        let mut v: Vec<u8> = Vec::new();
        while v.len() < NUM_REGISTERS
            invariant
                v@.len() <= NUM_REGISTERS,
                forall|j: int| 0 <= j < v@.len() ==> v@[j] == 0,
            decreases NUM_REGISTERS - v@.len(),
        {
            v.push(0);
        }
        Registers { pc: 0x200, i: 0, st: 60, dt: 50, v, sp: Vec::new() }
    }

    /// Overwrites the first `count` general-purpose registers with the
    /// first `count` bytes of `src`; the rest keep their values.
    pub(crate) fn load_prefix(&mut self, src: &Vec<u8>, count: usize)
        requires
            old(self).wf(),
            count <= NUM_REGISTERS,
            count <= src@.len(),
        ensures
            final(self).wf(),
            forall|k: int| 0 <= k < count ==> final(self).v@[k] == src@[k],
            forall|k: int|
                count <= k < NUM_REGISTERS ==> final(self).v@[k] == old(self).v@[k],
            final(self).pc == old(self).pc,
            final(self).i == old(self).i,
            final(self).st == old(self).st,
            final(self).dt == old(self).dt,
            final(self).sp@ == old(self).sp@,
    {
        let mut j: usize = 0;
        while j < count
            invariant
                self.v@.len() == NUM_REGISTERS,
                j <= count,
                count <= src@.len(),
                count <= NUM_REGISTERS,
                forall|k: int| 0 <= k < j ==> self.v@[k] == src@[k],
                forall|k: int| j <= k < NUM_REGISTERS ==> self.v@[k] == old(self).v@[k],
                self.pc == old(self).pc,
                self.i == old(self).i,
                self.st == old(self).st,
                self.dt == old(self).dt,
                self.sp@ == old(self).sp@,
            decreases count - j,
        {
            self.v[j] = src[j];
            j = j + 1;
        }
    }
}

} // verus!
