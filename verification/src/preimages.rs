//! The content-addressed preimage store: a mapping from a 32-byte hash to
//! the bytes that hash to it. Populated before a session starts consuming
//! it and immutable afterwards; unlike the inboxes there is no "not yet
//! available" case, so the store is expected to be complete.

use vstd::prelude::*;

use crate::bytes::bytes_eq;

verus! {

/// The mapping described by a list of hash/blob pairs, later pairs taking
/// precedence.
pub open spec fn preimage_entries_map(s: Seq<(Vec<u8>, Vec<u8>)>) -> Map<Seq<u8>, Seq<u8>>
    decreases s.len(),
{
    if s.len() == 0 {
        Map::empty()
    } else {
        preimage_entries_map(s.drop_last()).insert(s.last().0@, s.last().1@)
    }
}

/// Distinctness of the stored hashes, and their fixed 32-byte width.
pub open spec fn distinct_hashes(s: Seq<(Vec<u8>, Vec<u8>)>) -> bool {
    &&& forall|i: int, j: int| 0 <= i < j < s.len() ==> s[i].0@ != s[j].0@
    &&& forall|i: int| 0 <= i < s.len() ==> #[trigger] s[i].0@.len() == 32
}

proof fn lemma_preimage_map_domain(s: Seq<(Vec<u8>, Vec<u8>)>, h: Seq<u8>)
    ensures
        preimage_entries_map(s).contains_key(h) <==> exists|i: int|
            0 <= i < s.len() && s[i].0@ == h,
    decreases s.len(),
{
    if s.len() > 0 {
        lemma_preimage_map_domain(s.drop_last(), h);
        if s.last().0@ != h && preimage_entries_map(s).contains_key(h) {
            let i = choose|i: int| 0 <= i < s.drop_last().len() && s.drop_last()[i].0@ == h;
            assert(s[i].0@ == h);
        }
        if exists|i: int| 0 <= i < s.len() && s[i].0@ == h {
            let i = choose|i: int| 0 <= i < s.len() && s[i].0@ == h;
            if i < s.len() - 1 {
                assert(s.drop_last()[i].0@ == h);
            }
        }
    }
}

proof fn lemma_preimage_map_at(s: Seq<(Vec<u8>, Vec<u8>)>, i: int)
    requires
        distinct_hashes(s),
        0 <= i < s.len(),
    ensures
        preimage_entries_map(s).contains_key(s[i].0@),
        preimage_entries_map(s)[s[i].0@] == s[i].1@,
    decreases s.len(),
{
    if i == s.len() - 1 {
        lemma_preimage_map_domain(s, s[i].0@);
    } else {
        assert(distinct_hashes(s.drop_last()));
        assert(s.drop_last()[i] == s[i]);
        lemma_preimage_map_at(s.drop_last(), i);
        assert(s.last().0@ != s[i].0@);
    }
}

/// The oracle's store: 32-byte content hash to preimage bytes.
pub struct Preimages {
    entries: Vec<(Vec<u8>, Vec<u8>)>,
}

impl View for Preimages {
    type V = Map<Seq<u8>, Seq<u8>>;

    closed spec fn view(&self) -> Map<Seq<u8>, Seq<u8>> {
        preimage_entries_map(self.entries@)
    }
}

impl Preimages {
    /// The stored hashes are distinct 32-byte values.
    pub closed spec fn wf(&self) -> bool {
        distinct_hashes(self.entries@)
    }

    /// An empty store.
    pub fn new() -> (r: Preimages)
        ensures
            r.wf(),
            r@ == Map::<Seq<u8>, Seq<u8>>::empty(),
    {
        Preimages { entries: Vec::new() }
    }

    /// Stores a blob under a fresh 32-byte hash.
    pub fn insert(&mut self, hash: Vec<u8>, blob: Vec<u8>)
        requires
            old(self).wf(),
            hash.len() == 32,
            !old(self)@.contains_key(hash@),
        ensures
            final(self).wf(),
            final(self)@ == old(self)@.insert(hash@, blob@),
    {
        proof {
            lemma_preimage_map_domain(self.entries@, hash@);
        }
        self.entries.push((hash, blob));
        proof {
            assert(self.entries@.drop_last() =~= old(self).entries@);
        }
    }

    /// Looks a blob up by its content hash.
    pub fn get(&self, hash: &Vec<u8>) -> (r: Option<&Vec<u8>>)
        requires
            self.wf(),
        ensures
            match r {
                Some(blob) => self@.contains_key(hash@) && self@[hash@] == blob@,
                None => !self@.contains_key(hash@),
            },
    {
        let n = self.entries.len();
        let mut i: usize = 0;
        while i < n
            invariant
                0 <= i <= n,
                n == self.entries.len(),
                self.wf(),
                forall|j: int| 0 <= j < i ==> self.entries@[j].0@ != hash@,
            decreases n - i,
        {
            if bytes_eq(&self.entries[i].0, hash) {
                proof {
                    lemma_preimage_map_at(self.entries@, i as int);
                }
                return Some(&self.entries[i].1);
            }
            i = i + 1;
        }
        proof {
            lemma_preimage_map_domain(self.entries@, hash@);
        }
        None
    }
}

} // verus!
