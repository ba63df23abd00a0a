use vstd::prelude::*;

verus! {

/// The call stack: sixteen return addresses and the index of the top one.
///
/// `push` moves the pointer up before it writes, so the first pushed address
/// lands in slot 1 and slot 0 is only ever read by a `pop` at the bottom.
pub struct StackData {
    pub data: [u16; 16],
    pub pointer: usize,
}

impl StackData {
    /// Whether `push` can run without indexing past the sixteen slots: it either
    /// has a free slot above the pointer, or refuses at the pointer value 254.
    pub open spec fn can_push(&self) -> bool {
        self.pointer < 15 || self.pointer == 254
    }

    /// Returns the address at the pointer and moves the pointer down, stopping
    /// at slot 0.
    pub fn pop(&mut self) -> (ret: u16)
        requires
            old(self).pointer < 16,
        ensures
            ret == old(self).data@[old(self).pointer as int],
            final(self).data@ == old(self).data@,
            final(self).pointer == if old(self).pointer > 0 {
                (old(self).pointer - 1) as usize
            } else {
                0usize
            },
    {
        let ret: u16 = self.data[self.pointer];
        if self.pointer > 0 {
            self.pointer -= 1;
        }
        ret
    }

    /// Moves the pointer up and stores `new_data` there, returning the new
    /// pointer; at the pointer value 254 it changes nothing and returns that
    /// value as the error.
    pub fn push(&mut self, new_data: u16) -> (r: Result<usize, usize>)
        requires
            old(self).can_push(),
        ensures
            old(self).pointer == 254 ==> r == Err::<usize, usize>(254) && *final(self) == *old(self),
            old(self).pointer != 254 ==> {
                &&& r == Ok::<usize, usize>((old(self).pointer + 1) as usize)
                &&& final(self).pointer == old(self).pointer + 1
                &&& final(self).data@ == old(self).data@.update(
                    old(self).pointer + 1,
                    new_data,
                )
            },
    {
        if self.pointer == 254 {
            return Err(self.pointer);
        }
        self.pointer += 1;
        self.data[self.pointer] = new_data;
        return Ok(self.pointer);
    }
}

} // verus!
