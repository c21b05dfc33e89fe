//! A table that finds the entry of an id in an index without going through
//! the whole index.

use vstd::prelude::*;
use crate::fetch::{index_position, index_view};
use crate::util::to_chars;

verus! {

/// The modulus of the hash of a text.
pub const HASH_MODULUS: u64 = 72057594037927931;

/// The hash of a text: each character is added to 31 times the hash of the
/// text before it, modulo a prime.
pub open spec fn text_hash(text: Seq<char>) -> nat
    decreases text.len(),
{
    if text.len() == 0 {
        0
    } else {
        ((text_hash(text.drop_last()) * 31 + (text.last() as u32) as nat) % (HASH_MODULUS as nat)) as nat
    }
}

/// The bucket of a text among `buckets` buckets.
pub open spec fn bucket_of(text: Seq<char>, buckets: int) -> int {
    text_hash(text) as int % buckets
}

fn hash_text(text: &str) -> (r: u64)
    ensures
        r == text_hash(text@),
        r < HASH_MODULUS,
{
    let chars = to_chars(text);
    let mut hash: u64 = 0;
    let mut i: usize = 0;
    assert(text@.take(0) =~= Seq::<char>::empty());
    while i < chars.len()
        invariant
            i <= chars.len(),
            chars@ == text@,
            hash < HASH_MODULUS,
            hash == text_hash(text@.take(i as int)),
        decreases chars.len() - i,
    {
        proof {
            assert(text@.take(i + 1).drop_last() =~= text@.take(i as int));
            assert(text@.take(i + 1).last() == text@[i as int]);
        }
        let code = chars[i] as u32;
        proof {
            let shorter = text_hash(text@.take(i as int));
            assert(text_hash(text@.take(i + 1)) == ((shorter * 31 + (text@[i as int] as u32) as nat)
                % (HASH_MODULUS as nat)) as nat);
        }
        hash = (hash * 31 + code as u64) % HASH_MODULUS;
        i += 1;
    }
    assert(text@.take(chars.len() as int) =~= text@);
    hash
}

/// For every bucket the entries of the index whose id falls into it, by
/// their position.
pub struct IdTable {
    table: Vec<Vec<usize>>,
}

impl IdTable {
    /// Whether the table is that of the index: every entry of the index
    /// stands in the bucket of its id, a bucket holds nothing else, and the
    /// entries of a bucket stand in the order of the index.
    pub closed spec fn holds(&self, index: Seq<(Seq<char>, int)>) -> bool {
        &&& self.table@.len() > 0
        &&& forall|k: int|
            0 <= k < index.len() ==> self.table@[bucket_of(
                (#[trigger] index[k]).0,
                self.table@.len() as int,
            )]@.contains(k as usize)
        &&& forall|b: int, p: int|
            0 <= b < self.table@.len() && 0 <= p < self.table@[b]@.len() ==> (
            #[trigger] self.table@[b]@[p]) < index.len() && bucket_of(
                index[self.table@[b]@[p] as int].0,
                self.table@.len() as int,
            ) == b
        &&& forall|b: int, p: int, q: int|
            0 <= b < self.table@.len() && 0 <= p < q < self.table@[b]@.len() ==> (
            #[trigger] self.table@[b]@[p]) < (#[trigger] self.table@[b]@[q])
    }

    /// The table of the empty index, with room for about `size` entries.
    pub fn new(size: usize) -> (r: Self)
        ensures
            r.holds(Seq::empty()),
    {
        let mut table: Vec<Vec<usize>> = Vec::new();
        table.push(Vec::new());
        let mut i: usize = 1;
        while i < size
            invariant
                table@.len() > 0,
                forall|b: int| 0 <= b < table@.len() ==> (#[trigger] table@[b])@.len() == 0,
            decreases size - i,
        {
            table.push(Vec::new());
            i += 1;
        }
        IdTable { table }
    }

    fn bucket(&self, id: &str) -> (b: usize)
        requires
            self.table@.len() > 0,
        ensures
            b == bucket_of(id@, self.table@.len() as int),
            b < self.table@.len(),
    {
        let hash = hash_text(id);
        (hash % (self.table.len() as u64)) as usize
    }

    /// Enters the entry that was added to the index last, at position `k`.
    pub fn add(&mut self, id: &str, k: usize, Ghost(index): Ghost<Seq<(Seq<char>, int)>>)
        requires
            old(self).holds(index.drop_last()),
            index.len() == k + 1,
            index.last().0 == id@,
        ensures
            final(self).holds(index),
    {
        let ghost before = self.table@;
        let ghost shorter = index.drop_last();
        let b = self.bucket(id);
        let mut entries = self.table[b].clone();
        assert(entries@ =~= before[b as int]@);
        entries.push(k);
        self.table.set(b, entries);
        proof {
            let after = self.table@;
            let size = after.len() as int;
            assert(size == before.len());
            assert forall|i: int| 0 <= i < index.len() implies after[bucket_of(
                (#[trigger] index[i]).0,
                size,
            )]@.contains(i as usize) by {
                let bi = bucket_of(index[i].0, size);
                if i < shorter.len() {
                    assert(shorter[i] == index[i]);
                    assert(before[bi]@.contains(i as usize));
                    let p = choose|p: int| 0 <= p < before[bi]@.len() && before[bi]@[p] == i as usize;
                    if bi == b {
                        assert(after[bi]@[p] == i as usize);
                    } else {
                        assert(after[bi] == before[bi]);
                    }
                } else {
                    assert(after[b as int]@[before[b as int]@.len() as int] == i as usize);
                }
            }
            assert forall|c: int, p: int|
                0 <= c < after.len() && 0 <= p < after[c]@.len() implies (#[trigger] after[c]@[p])
                < index.len() && bucket_of(index[after[c]@[p] as int].0, size) == c by {
                if c == b && p == before[b as int]@.len() {
                } else {
                    assert(after[c]@[p] == before[c]@[p]);
                    assert(shorter[before[c]@[p] as int] == index[before[c]@[p] as int]);
                }
            }
            assert forall|c: int, p: int, q: int|
                0 <= c < after.len() && 0 <= p < q < after[c]@.len() implies (
            #[trigger] after[c]@[p]) < (#[trigger] after[c]@[q]) by {
                if c == b && q == before[b as int]@.len() {
                    assert(after[c]@[p] == before[c]@[p]);
                    assert(before[c]@[p] < shorter.len());
                } else {
                    assert(after[c]@[p] == before[c]@[p]);
                    assert(after[c]@[q] == before[c]@[q]);
                }
            }
        }
    }

    /// Finds the position of the first entry of `id` in the index, or the
    /// length of the index if there is none.
    pub fn find(&self, id: &str, index: &Vec<(String, usize)>) -> (r: usize)
        requires
            self.holds(index_view(index@)),
        ensures
            r == index_position(index_view(index@), id@, 0),
            r <= index@.len(),
    {
        let ghost all = index_view(index@);
        let size = index.len();
        let b = self.bucket(id);
        let entries = &self.table[b];
        let mut p: usize = 0;
        while p < entries.len()
            invariant
                p <= entries@.len(),
                all == index_view(index@),
                size == index@.len(),
                self.holds(all),
                b == bucket_of(id@, self.table@.len() as int),
                b < self.table@.len(),
                *entries == self.table@[b as int],
                forall|q: int| 0 <= q < p ==> all[(#[trigger] entries@[q]) as int].0 != id@,
            decreases entries.len() - p,
        {
            let k = entries[p];
            assert(k < index@.len());
            if *index[k].0.as_str() == *id {
                proof {
                    assert(all[k as int].0 == id@);
                    assert forall|j: int| 0 <= j < k implies (#[trigger] all[j]).0 != id@ by {
                        if all[j].0 == id@ {
                            assert(j as usize as int == j);
                            assert(entries@.contains(j as usize));
                            let q = choose|q: int|
                                0 <= q < entries@.len() && entries@[q] == j as usize;
                            if q >= p {
                                if q > p {
                                    assert(entries@[p as int] < entries@[q]);
                                }
                            } else {
                                assert(all[entries@[q] as int].0 != id@);
                            }
                        }
                    }
                    lemma_first_entry(all, id@, k as int);
                }
                return k;
            }
            p += 1;
        }
        proof {
            assert forall|j: int| 0 <= j < all.len() implies (#[trigger] all[j]).0 != id@ by {
                if all[j].0 == id@ {
                    assert(all.len() == size);
                    assert(j as usize as int == j);
                    assert(entries@.contains(j as usize));
                    let q = choose|q: int| 0 <= q < entries@.len() && entries@[q] == j as usize;
                    assert(all[entries@[q] as int].0 != id@);
                }
            }
            lemma_no_entry(all, id@, 0);
        }
        size
    }
}

proof fn lemma_first_entry(index: Seq<(Seq<char>, int)>, id: Seq<char>, k: int)
    requires
        0 <= k < index.len(),
        index[k].0 == id,
        forall|j: int| 0 <= j < k ==> (#[trigger] index[j]).0 != id,
    ensures
        index_position(index, id, 0) == k,
{
    lemma_first_entry_from(index, id, k, 0);
}

proof fn lemma_first_entry_from(index: Seq<(Seq<char>, int)>, id: Seq<char>, k: int, from: int)
    requires
        0 <= from <= k < index.len(),
        index[k].0 == id,
        forall|j: int| 0 <= j < k ==> (#[trigger] index[j]).0 != id,
    ensures
        index_position(index, id, from) == k,
    decreases k - from,
{
    if from < k {
        assert(index[from].0 != id);
        lemma_first_entry_from(index, id, k, from + 1);
    }
}

proof fn lemma_no_entry(index: Seq<(Seq<char>, int)>, id: Seq<char>, from: int)
    requires
        0 <= from <= index.len(),
        forall|j: int| 0 <= j < index.len() ==> (#[trigger] index[j]).0 != id,
    ensures
        index_position(index, id, from) == index.len(),
    decreases index.len() - from,
{
    if from < index.len() {
        assert(index[from].0 != id);
        lemma_no_entry(index, id, from + 1);
    }
}

} // verus!
