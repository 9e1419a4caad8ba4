//! Flat byte-addressable memory: 4096 bytes, single-byte read and write.

use vstd::prelude::*;

verus! {

/// Number of addressable bytes.
pub const MEM_SIZE: usize = 4096;

pub struct Ram {
    pub mem: Vec<u8>,
}

impl View for Ram {
    type V = Seq<u8>;

    open spec fn view(&self) -> Seq<u8> {
        self.mem@
    }
}

impl Ram {
    pub open spec fn wf(self) -> bool {
        self@.len() == MEM_SIZE
    }

    pub fn new() -> (r: Ram)
        ensures
            r.wf(),
            forall|a: int| 0 <= a < MEM_SIZE ==> r@[a] == 0u8,
    {
        let mut mem: Vec<u8> = Vec::new();
        let mut k: usize = 0;
        while k < MEM_SIZE
            invariant
                mem@.len() == k,
                k <= MEM_SIZE,
                forall|a: int| 0 <= a < k ==> mem@[a] == 0u8,
            decreases MEM_SIZE - k,
        {
            mem.push(0u8);
            k = k + 1;
        }
        Ram { mem }
    }

    pub fn write_byte(&mut self, address: usize, value: u8)
        requires
            old(self).wf(),
            address < MEM_SIZE,
        ensures
            final(self).wf(),
            final(self)@ == old(self)@.update(address as int, value),
    {
        self.mem[address] = value;
    }

    pub fn read_byte(&self, address: usize) -> (r: u8)
        requires
            self.wf(),
            address < MEM_SIZE,
        ensures
            r == self@[address as int],
    {
        self.mem[address]
    }
}

} // verus!
