//! An index from identifiers to places in a sequence of records, so that a
//! record is found without walking the sequence.
//!
//! The index hashes an identifier to a number and chains, for each number,
//! the places of the records whose identifiers hash to it, last place
//! first. The numbers are the keys of a standard hash map: vstd states what
//! such a map holds for keys that are integers, and not for keys that are
//! texts, so the tables keep their records in sequences and find them
//! through this index.

use std::collections::HashMap;
use vstd::prelude::*;
use vstd::std_specs::hash::group_hash_axioms;
use vstd::utf8::encode_utf8;
use crate::gtfs::keyed::{first_with_key, has_key, Identified};
use crate::text::same_text;

verus! {

broadcast use group_hash_axioms;

/// The number that the bytes `bytes` hash to.
pub(crate) open spec fn bytes_hash(bytes: Seq<u8>) -> nat
    decreases bytes.len(),
{
    if bytes.len() == 0 {
        0
    } else {
        ((bytes_hash(bytes.drop_last()) * 257 + bytes.last() as nat + 1) % 4294967291) as nat
    }
}

/// The number that the identifier `id` hashes to.
pub(crate) open spec fn text_hash(id: Seq<char>) -> nat {
    bytes_hash(encode_utf8(id))
}

/// The number that the identifier `id` hashes to.
pub(crate) fn hash_text(id: &str) -> (hash: u64)
    ensures
        hash == text_hash(id@),
{
    let bytes = id.as_bytes();
    let n = bytes.len();
    let mut hash: u64 = 0;
    let mut i: usize = 0;
    while i < n
        invariant
            i <= n,
            n == bytes@.len(),
            hash == bytes_hash(bytes@.take(i as int)),
            hash < 4294967291,
        decreases n - i,
    {
        proof {
            assert(bytes@.take(i + 1).drop_last() =~= bytes@.take(i as int));
        }
        hash = (hash * 257 + bytes[i] as u64 + 1) % 4294967291;
        i += 1;
    }
    proof {
        assert(bytes@.take(n as int) =~= bytes@);
    }
    hash
}

/// Whether the chain that starts at `from` passes the place `at`.
pub(crate) open spec fn chain_passes(next: Seq<Option<usize>>, from: Option<usize>, at: int) -> bool
    decreases
        match from {
            Some(place) => place + 1,
            None => 0,
        },
{
    match from {
        None => false,
        Some(place) => place == at || (place < next.len() && next[place as int] is Some
            && next[place as int]->0 < place && chain_passes(next, next[place as int], at)),
    }
}

/// A chain passes no place beyond the one it starts at.
proof fn lemma_chain_goes_down(next: Seq<Option<usize>>, from: Option<usize>, at: int)
    requires
        chain_passes(next, from, at),
    ensures
        from matches Some(place) && at <= place,
    decreases
        match from {
            Some(place) => place + 1,
            None => 0,
        },
{
    let place = from->0;
    if place != at {
        lemma_chain_goes_down(next, next[place as int], at);
    }
}

/// A chain passes the same places where the links are the same up to where
/// it starts.
proof fn lemma_chain_stays(
    next: Seq<Option<usize>>,
    longer: Seq<Option<usize>>,
    from: Option<usize>,
    at: int,
)
    requires
        next.len() <= longer.len(),
        forall|i: int| 0 <= i < next.len() ==> next[i] == longer[i],
        chain_passes(next, from, at),
    ensures
        chain_passes(longer, from, at),
    decreases
        match from {
            Some(place) => place + 1,
            None => 0,
        },
{
    let place = from->0;
    if place != at {
        lemma_chain_stays(next, longer, next[place as int], at);
    }
}

/// An identifier by itself, as a record.
pub struct Name<'a> {
    pub text: &'a str,
}

impl<'a> Identified for Name<'a> {
    open spec fn key(&self) -> Seq<char> {
        self.text@
    }

    fn key_text(&self) -> (text: &str)
        ensures
            text@ == self.key(),
    {
        self.text
    }
}

/// An index over the identifiers of a sequence of records.
pub(crate) struct IdIndex {
    pub(crate) heads: HashMap<u64, usize>,
    pub(crate) next: Vec<Option<usize>>,
}

impl IdIndex {
    /// Whether the index is one over the records `items`: each chain holds
    /// places of records whose identifiers hash to its number, and every
    /// record stands in the chain of the number that its identifier hashes
    /// to.
    pub(crate) open spec fn indexes<T: Identified>(&self, items: Seq<T>) -> bool {
        &&& self.next@.len() == items.len()
        &&& forall|h: u64| #[trigger]
            self.heads@.contains_key(h) ==> self.heads@[h] < items.len() && text_hash(
                items[self.heads@[h] as int].key(),
            ) == h
        &&& forall|i: int|
            0 <= i < items.len() && (#[trigger] self.next@[i]) is Some ==> self.next@[i]->0 < i
                && text_hash(items[self.next@[i]->0 as int].key()) == text_hash(items[i].key())
        &&& forall|i: int|
            0 <= i < items.len() ==> text_hash(#[trigger] items[i].key()) <= u64::MAX
                && self.heads@.contains_key(text_hash(items[i].key()) as u64) && chain_passes(
                self.next@,
                Some(self.heads@[text_hash(items[i].key()) as u64]),
                i,
            )
    }

    /// An index over no records.
    pub(crate) fn new() -> (index: IdIndex)
        ensures
            index.next@.len() == 0,
            index.heads@ == Map::<u64, usize>::empty(),
    {
        IdIndex { heads: HashMap::new(), next: Vec::new() }
    }

    /// Takes note of the record at place `at` of `items`, after those before
    /// it.
    pub(crate) fn note<T: Identified>(&mut self, items: &Vec<T>, at: usize)
        requires
            at < items@.len(),
            old(self).indexes(items@.take(at as int)),
        ensures
            final(self).indexes(items@.take(at + 1)),
    {
        let hash = hash_text(items[at].key_text());
        let ghost before = *self;
        let head = match self.heads.get(&hash) {
            Some(place) => Some(*place),
            None => None,
        };
        self.next.push(head);
        self.heads.insert(hash, at);
        proof {
            let earlier = items@.take(at as int);
            let now = items@.take(at + 1);
            assert forall|i: int| 0 <= i < now.len() implies text_hash(#[trigger] now[i].key())
                <= u64::MAX && self.heads@.contains_key(text_hash(now[i].key()) as u64)
                && chain_passes(self.next@, Some(self.heads@[text_hash(now[i].key()) as u64]), i) by {
                if i < at {
                    let h = text_hash(earlier[i].key()) as u64;
                    lemma_chain_stays(before.next@, self.next@, Some(before.heads@[h]), i);
                }
            }
            assert forall|i: int| 0 <= i < now.len() && (#[trigger] self.next@[i]) is Some implies self.next@[i]->0
                < i && text_hash(now[self.next@[i]->0 as int].key()) == text_hash(now[i].key()) by {
                if i < at {
                    if before.next@[i] is Some {
                        let further = before.next@[i]->0;
                    }
                } else if head is Some {
                    let place = head->0;
                }
            }
            assert forall|h: u64| #[trigger] self.heads@.contains_key(h) implies self.heads@[h]
                < now.len() && text_hash(now[self.heads@[h] as int].key()) == h by {
                if h != hash {
                    assert(earlier[before.heads@[h] as int] == now[before.heads@[h] as int]);
                }
            }
        }
    }

    /// An index over the records `items`.
    pub(crate) fn build<T: Identified>(items: &Vec<T>) -> (index: IdIndex)
        ensures
            index.indexes(items@),
    {
        let mut index = IdIndex::new();
        let n = items.len();
        let mut i: usize = 0;
        while i < n
            invariant
                i <= n,
                n == items@.len(),
                index.indexes(items@.take(i as int)),
            decreases n - i,
        {
            index.note(items, i);
            i += 1;
        }
        proof {
            assert(items@.take(n as int) =~= items@);
        }
        index
    }

    /// The place of the first record of `items` with the identifier `id`.
    pub(crate) fn find<T: Identified>(&self, items: &Vec<T>, id: &str) -> (found: Option<usize>)
        requires
            self.indexes(items@),
        ensures
            match found {
                Some(i) => first_with_key(items@, id@, i as int),
                None => !has_key(items@, id@),
            },
    {
        let hash = hash_text(id);
        let mut cur = match self.heads.get(&hash) {
            Some(place) => Some(*place),
            None => None,
        };
        let mut best: Option<usize> = None;
        while cur.is_some()
            invariant
                self.indexes(items@),
                hash == text_hash(id@),
                cur matches Some(place) ==> place < items@.len() && text_hash(
                    items@[place as int].key(),
                ) == hash,
                best matches Some(b) ==> b < items@.len() && items@[b as int].key() == id@,
                cur is Some && best is Some ==> cur->0 < best->0,
                forall|k: int|
                    0 <= k < items@.len() && (#[trigger] items@[k]).key() == id@ ==> chain_passes(
                        self.next@,
                        cur,
                        k,
                    ) || (best matches Some(b) && b <= k),
            decreases
                match cur {
                    Some(place) => place + 1,
                    None => 0,
                },
        {
            let place = cur.unwrap();
            let ghost earlier = best;
            if same_text(items[place].key_text(), id) {
                best = Some(place);
            }
            let further = self.next[place];
            cur = further;
        }
        best
    }
}

} // verus!
