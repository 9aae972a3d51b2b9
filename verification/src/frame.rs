//! The model of one guest host call: the argument/result word stack and the
//! guest's linear memory.
//!
//! The real stack and memory accessor lives in the guest runtime; the
//! accessors here operate on this model, so every byte a host call writes
//! into guest memory is pinned down by a contract.

use vstd::prelude::*;

use crate::bytes::vec_subrange;

verus! {

/// The sequence `mem` with `data` overlaid starting at `ptr`.
pub open spec fn mem_with(mem: Seq<u8>, ptr: int, data: Seq<u8>) -> Seq<u8> {
    Seq::new(
        mem.len(),
        |i: int|
            if ptr <= i < ptr + data.len() {
                data[i - ptr]
            } else {
                mem[i]
            },
    )
}

/// One guest call: the numeric argument words (also used for result words)
/// and the guest's linear memory.
pub struct CallFrame {
    pub words: Vec<u64>,
    pub memory: Vec<u8>,
}

impl CallFrame {
    /// Reads argument word `i`.
    pub fn read_u64(&self, i: usize) -> (r: u64)
        requires
            i < self.words.len(),
        ensures
            r == self.words@[i as int],
    {
        self.words[i]
    }

    /// Writes result word `i`.
    pub fn write_u64(&mut self, i: usize, v: u64)
        requires
            i < old(self).words.len(),
        ensures
            final(self).words@ == old(self).words@.update(i as int, v),
            final(self).memory == old(self).memory,
    {
        self.words.set(i, v);
    }

    /// The size of guest memory, in bytes.
    pub fn memory_size(&self) -> (r: u64)
        ensures
            r == self.memory.len(),
    {
        self.memory.len() as u64
    }

    /// Copies `len` bytes of guest memory starting at `ptr`.
    pub fn read_slice(&self, ptr: usize, len: usize) -> (r: Vec<u8>)
        requires
            ptr + len <= self.memory.len(),
        ensures
            r@ == self.memory@.subrange(ptr as int, ptr as int + len as int),
    {
        vec_subrange(&self.memory, ptr, ptr + len)
    }

    /// Writes `data` into guest memory starting at `ptr`.
    pub fn write_slice(&mut self, ptr: usize, data: &Vec<u8>)
        requires
            ptr + data.len() <= old(self).memory.len(),
        ensures
            final(self).memory@ == mem_with(old(self).memory@, ptr as int, data@),
            final(self).words == old(self).words,
    {
        let mut i: usize = 0;
        while i < data.len()
            invariant
                0 <= i <= data.len(),
                ptr + data.len() <= self.memory.len(),
                self.memory.len() == old(self).memory.len(),
                self.words == old(self).words,
                forall|j: int|
                    0 <= j < self.memory@.len() ==> self.memory@[j] == (if ptr <= j < ptr + i {
                        data@[j - ptr]
                    } else {
                        old(self).memory@[j]
                    }),
            decreases data.len() - i,
        {
            self.memory.set(ptr + i, data[i]);
            i = i + 1;
        }
        proof {
            assert(self.memory@ =~= mem_with(old(self).memory@, ptr as int, data@));
        }
    }
}

} // verus!
