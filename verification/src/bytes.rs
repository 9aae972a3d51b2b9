//! Small verified byte utilities shared by the accessors and the bootstrap
//! decoder: copying a subrange of a byte vector, comparing byte vectors, and
//! reading a big-endian 64-bit word.

use vstd::prelude::*;

verus! {

/// The value of an 8-byte big-endian word.
pub open spec fn be_u64_of(s: Seq<u8>) -> u64
    recommends
        s.len() == 8,
{
    ((s[0] as int) * 0x100000000000000 + (s[1] as int) * 0x1000000000000 + (s[2] as int)
        * 0x10000000000 + (s[3] as int) * 0x100000000 + (s[4] as int) * 0x1000000 + (s[5] as int)
        * 0x10000 + (s[6] as int) * 0x100 + (s[7] as int)) as u64
}

/// Reads the big-endian 64-bit word that starts at `pos`.
pub fn read_be_u64(data: &Vec<u8>, pos: usize) -> (r: u64)
    requires
        pos + 8 <= data.len(),
    ensures
        r == be_u64_of(data@.subrange(pos as int, pos as int + 8)),
{
    let r: u64 = (data[pos] as u64) * 0x100000000000000 + (data[pos + 1] as u64)
        * 0x1000000000000 + (data[pos + 2] as u64) * 0x10000000000 + (data[pos + 3] as u64)
        * 0x100000000 + (data[pos + 4] as u64) * 0x1000000 + (data[pos + 5] as u64) * 0x10000 + (
    data[pos + 6] as u64) * 0x100 + (data[pos + 7] as u64);
    proof {
        let s = data@.subrange(pos as int, pos as int + 8);
        assert(s[0] == data@[pos as int]);
        assert(s[1] == data@[pos as int + 1]);
        assert(s[2] == data@[pos as int + 2]);
        assert(s[3] == data@[pos as int + 3]);
        assert(s[4] == data@[pos as int + 4]);
        assert(s[5] == data@[pos as int + 5]);
        assert(s[6] == data@[pos as int + 6]);
        assert(s[7] == data@[pos as int + 7]);
    }
    r
}

/// Copies `data[start..end]` into a fresh vector.
pub fn vec_subrange(data: &Vec<u8>, start: usize, end: usize) -> (r: Vec<u8>)
    requires
        start <= end <= data.len(),
    ensures
        r@ == data@.subrange(start as int, end as int),
{
    let mut r: Vec<u8> = Vec::new();
    let mut i: usize = start;
    while i < end
        invariant
            start <= i <= end <= data.len(),
            r@ == data@.subrange(start as int, i as int),
        decreases end - i,
    {
        r.push(data[i]);
        proof {
            assert(r@ =~= data@.subrange(start as int, i as int + 1));
        }
        i = i + 1;
    }
    r
}

/// Compares two byte vectors for equality of contents.
pub fn bytes_eq(a: &Vec<u8>, b: &Vec<u8>) -> (r: bool)
    ensures
        r <==> a@ == b@,
{
    if a.len() != b.len() {
        proof {
            assert(a@.len() != b@.len());
        }
        return false;
    }
    let mut i: usize = 0;
    while i < a.len()
        invariant
            0 <= i <= a.len(),
            a.len() == b.len(),
            forall|j: int| 0 <= j < i ==> a@[j] == b@[j],
        decreases a.len() - i,
    {
        if a[i] != b[i] {
            return false;
        }
        i = i + 1;
    }
    proof {
        assert(a@ =~= b@);
    }
    true
}

} // verus!
