use vstd::prelude::*;

verus! {

/// How far the program counter moves past one instruction.
pub const PC_INCR_UNIT: u16 = 2;

/// The program counter.
pub struct PC {
    pub c: u16,
}

impl PC {
    /// Moves to the next instruction.
    pub fn incr(&mut self)
        requires
            old(self).c + PC_INCR_UNIT <= u16::MAX,
        ensures
            final(self).c == old(self).c + PC_INCR_UNIT,
    {
        self.c += PC_INCR_UNIT;
    }

    /// Moves `n` instructions ahead.
    pub fn incr_n(&mut self, n: u16)
        requires
            n * PC_INCR_UNIT <= u16::MAX,
            old(self).c + n * PC_INCR_UNIT <= u16::MAX,
        ensures
            final(self).c == old(self).c + n * PC_INCR_UNIT,
    {
        self.c += n * PC_INCR_UNIT;
    }

    /// Jumps to `n`.
    pub fn set_as(&mut self, n: u16)
        ensures
            final(self).c == n,
    {
        self.c = n;
    }

    /// The address of the current instruction.
    pub fn get_cur(&self) -> (r: u16)
        ensures
            r == self.c,
    {
        self.c
    }
}

} // verus!
