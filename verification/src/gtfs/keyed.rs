//! Records that can be copied and that carry an identifier, and sequences
//! of them in which the identifier serves as key.

use vstd::prelude::*;
use crate::gtfs::index::IdIndex;
use crate::text::same_text;

verus! {

/// A record that can be copied as it is.
pub trait Record: Sized {
    /// A copy that is equal to the record.
    fn replica(&self) -> (copy: Self)
        ensures
            copy == *self,
    ;
}

/// The records of `items` whose place is marked in `marks`, in their order.
/// A place that `marks` does not reach counts as unmarked.
pub open spec fn marked<T>(items: Seq<T>, marks: Seq<bool>) -> Seq<T>
    decreases items.len(),
{
    if items.len() == 0 {
        items
    } else {
        let before = marked(items.drop_last(), marks);
        if items.len() <= marks.len() && marks[items.len() - 1] {
            before.push(items.last())
        } else {
            before
        }
    }
}

/// Marking the records that meet `wanted` selects what `filter` keeps.
pub proof fn lemma_marked_is_filter<T>(items: Seq<T>, marks: Seq<bool>, wanted: spec_fn(T) -> bool)
    requires
        items.len() <= marks.len(),
        forall|i: int| 0 <= i < items.len() ==> marks[i] == wanted(#[trigger] items[i]),
    ensures
        marked(items, marks) == items.filter(wanted),
    decreases items.len(),
{
    reveal(Seq::filter);
    if items.len() > 0 {
        lemma_marked_is_filter(items.drop_last(), marks, wanted);
    }
}

/// Copies of the records of `items` whose place is marked, in their order.
/// A place that `marks` does not reach counts as unmarked.
pub fn select<T: Record>(items: &Vec<T>, marks: &Vec<bool>) -> (kept: Vec<T>)
    ensures
        kept@ == marked(items@, marks@),
{
    let mut kept: Vec<T> = Vec::new();
    let n = items.len();
    let mut i: usize = 0;
    while i < n
        invariant
            i <= n,
            n == items@.len(),
            kept@ == marked(items@.take(i as int), marks@),
        decreases n - i,
    {
        proof {
            assert(items@.take(i + 1).drop_last() =~= items@.take(i as int));
        }
        if i < marks.len() && marks[i] {
            kept.push(items[i].replica());
        }
        i += 1;
    }
    proof {
        assert(items@.take(n as int) =~= items@);
    }
    kept
}

/// Copies of all the records of `items`, in their order.
pub fn copy_all<T: Record>(items: &Vec<T>) -> (copies: Vec<T>)
    ensures
        copies@ == items@,
{
    let mut copies: Vec<T> = Vec::new();
    let n = items.len();
    let mut i: usize = 0;
    while i < n
        invariant
            i <= n,
            n == items@.len(),
            copies@ == items@.take(i as int),
        decreases n - i,
    {
        copies.push(items[i].replica());
        i += 1;
    }
    copies
}

/// A record with an identifier of its own.
pub trait Identified {
    /// The identifier.
    spec fn key(&self) -> Seq<char>;

    /// The identifier, as text.
    fn key_text(&self) -> (text: &str)
        ensures
            text@ == self.key(),
    ;
}

/// Whether some record of `items` has the identifier `id`.
pub open spec fn has_key<T: Identified>(items: Seq<T>, id: Seq<char>) -> bool {
    exists|i: int| 0 <= i < items.len() && (#[trigger] items[i]).key() == id
}

/// Whether no two records of `items` share an identifier.
pub open spec fn distinct_keys<T: Identified>(items: Seq<T>) -> bool {
    forall|i: int, j: int|
        0 <= i < j < items.len() ==> (#[trigger] items[i]).key() != (#[trigger] items[j]).key()
}

/// Whether `i` is the place of the first record of `items` with the
/// identifier `id`.
pub open spec fn first_with_key<T: Identified>(items: Seq<T>, id: Seq<char>, i: int) -> bool {
    &&& 0 <= i < items.len()
    &&& items[i].key() == id
    &&& forall|k: int| 0 <= k < i ==> (#[trigger] items[k]).key() != id
}

/// The place of the first record of `items` with the identifier `id`,
/// where there is one.
pub open spec fn first_place<T: Identified>(items: Seq<T>, id: Seq<char>) -> int {
    choose|i: int| first_with_key(items, id, i)
}

/// The first record of `items` with the identifier `id`, if there is one.
pub open spec fn lookup<T: Identified>(items: Seq<T>, id: Seq<char>) -> Option<T> {
    if has_key(items, id) {
        Some(items[first_place(items, id)])
    } else {
        None
    }
}

/// The place of a first record is the only such place, and `lookup` gives
/// the record at it.
pub proof fn lemma_first_is_lookup<T: Identified>(items: Seq<T>, id: Seq<char>, i: int)
    requires
        first_with_key(items, id, i),
    ensures
        has_key(items, id),
        first_place(items, id) == i,
        lookup(items, id) == Some(items[i]),
        forall|j: int| first_with_key(items, id, j) ==> j == i,
{
    let j = choose|j: int| first_with_key(items, id, j);
}

/// Where `items` has the identifier `id`, some record is the first with it.
pub proof fn lemma_has_first<T: Identified>(items: Seq<T>, id: Seq<char>)
    requires
        has_key(items, id),
    ensures
        first_with_key(items, id, first_place(items, id)),
{
    let i = choose|i: int| 0 <= i < items.len() && (#[trigger] items[i]).key() == id;
    lemma_first_up_to(items, id, i);
}

/// A record with the identifier `id` at place `i` has a first one at or
/// before it.
proof fn lemma_first_up_to<T: Identified>(items: Seq<T>, id: Seq<char>, i: int)
    requires
        0 <= i < items.len(),
        items[i].key() == id,
    ensures
        exists|j: int| first_with_key(items, id, j) && j <= i,
    decreases i,
{
    if exists|k: int| 0 <= k < i && (#[trigger] items[k]).key() == id {
        let k = choose|k: int| 0 <= k < i && (#[trigger] items[k]).key() == id;
        lemma_first_up_to(items, id, k);
    } else {
        assert(first_with_key(items, id, i));
    }
}

/// A sequence with one more record holds the identifiers that it held and
/// that of the record.
pub proof fn lemma_has_key_push<T: Identified>(items: Seq<T>, item: T, id: Seq<char>)
    ensures
        has_key(items.push(item), id) <==> has_key(items, id) || item.key() == id,
{
    let longer = items.push(item);
    if has_key(items, id) {
        let i = choose|i: int| 0 <= i < items.len() && (#[trigger] items[i]).key() == id;
        assert(longer[i].key() == id);
    }
    if item.key() == id {
        assert(longer[items.len() as int].key() == id);
    }
}

/// The place of the first record of `items` with the identifier `id`.
pub fn position<T: Identified>(items: &Vec<T>, id: &str) -> (found: Option<usize>)
    ensures
        match found {
            Some(i) => first_with_key(items@, id@, i as int),
            None => !has_key(items@, id@),
        },
{
    let n = items.len();
    let mut i: usize = 0;
    while i < n
        invariant
            i <= n,
            n == items@.len(),
            forall|k: int| 0 <= k < i ==> (#[trigger] items@[k]).key() != id@,
        decreases n - i,
    {
        if same_text(items[i].key_text(), id) {
            return Some(i);
        }
        i += 1;
    }
    None
}

/// `items` after `item` was put into it: in the place of the first record
/// with the same identifier, or at the end where there is none.
pub open spec fn placed<T: Identified>(items: Seq<T>, item: T) -> Seq<T> {
    if has_key(items, item.key()) {
        items.update(first_place(items, item.key()), item)
    } else {
        items.push(item)
    }
}

/// What comes of putting the records of `items` one after the other into an
/// empty sequence.
pub open spec fn placed_all<T: Identified>(items: Seq<T>) -> Seq<T>
    decreases items.len(),
{
    if items.len() == 0 {
        items
    } else {
        placed(placed_all(items.drop_last()), items.last())
    }
}

/// Putting a record among records with distinct identifiers leaves the
/// identifiers distinct.
pub proof fn lemma_placed_keeps_distinct<T: Identified>(items: Seq<T>, item: T)
    requires
        distinct_keys(items),
    ensures
        distinct_keys(placed(items, item)),
{
    let after = placed(items, item);
    if has_key(items, item.key()) {
        lemma_has_first(items, item.key());
        let at = first_place(items, item.key());
    } else {
        assert forall|i: int, j: int| 0 <= i < j < after.len() implies (#[trigger] after[i]).key() != (
        #[trigger] after[j]).key() by {
            if j < items.len() {
                assert(items[i].key() != items[j].key());
            } else {
                assert(items[i].key() != item.key());
            }
        }
    }
}

/// Putting records one after the other into an empty sequence gives
/// distinct identifiers.
pub proof fn lemma_placed_all_distinct<T: Identified>(items: Seq<T>)
    ensures
        distinct_keys(placed_all(items)),
    decreases items.len(),
{
    if items.len() > 0 {
        lemma_placed_all_distinct(items.drop_last());
        lemma_placed_keeps_distinct(placed_all(items.drop_last()), items.last());
    }
}

/// Puts `item` into `items`: in the place of the first record with the same
/// identifier, which is handed back, or at the end where there is none.
pub fn put<T: Identified>(items: &mut Vec<T>, item: T) -> (replaced: Option<T>)
    ensures
        final(items)@ == placed(old(items)@, item),
        replaced == lookup(old(items)@, item.key()),
        distinct_keys(old(items)@) ==> distinct_keys(final(items)@),
{
    match position(items, item.key_text()) {
        Some(i) => {
            let mut incoming = item;
            std::mem::swap(&mut items[i], &mut incoming);
            Some(incoming)
        },
        None => {
            items.push(item);
            None
        },
    }
}

/// Copies of the records of `items`, put one after the other into an empty
/// sequence.
pub fn place_all<T: Identified + Record>(items: &Vec<T>) -> (table: Vec<T>)
    ensures
        table@ == placed_all(items@),
        distinct_keys(table@),
{
    let mut table: Vec<T> = Vec::new();
    let mut index = IdIndex::new();
    let n = items.len();
    let mut i: usize = 0;
    while i < n
        invariant
            i <= n,
            n == items@.len(),
            table@ == placed_all(items@.take(i as int)),
            index.indexes(table@),
        decreases n - i,
    {
        proof {
            assert(items@.take(i + 1).drop_last() =~= items@.take(i as int));
        }
        let ghost before = table@;
        let mut item = items[i].replica();
        match index.find(&table, item.key_text()) {
            Some(at) => {
                std::mem::swap(&mut table[at], &mut item);
            },
            None => {
                table.push(item);
                proof {
                    assert(table@.take(table@.len() as int) =~= table@);
                }
                index.note(&table, table.len() - 1);
            },
        }
        i += 1;
    }
    proof {
        assert(items@.take(n as int) =~= items@);
        lemma_placed_all_distinct(items@);
    }
    table
}

/// What `filter` keeps is what the sequence holds and `wanted` accepts.
pub proof fn lemma_filter_members<T>(items: Seq<T>, wanted: spec_fn(T) -> bool)
    ensures
        forall|x: T| #[trigger] items.filter(wanted).contains(x) <==> items.contains(x) && wanted(x),
    decreases items.len(),
{
    reveal(Seq::filter);
    let kept = items.filter(wanted);
    if items.len() == 0 {
        assert forall|x: T| #[trigger] kept.contains(x) <==> items.contains(x) && wanted(x) by {}
    } else {
        let before = items.drop_last();
        let last = items.last();
        lemma_filter_members(before, wanted);
        assert forall|x: T| #[trigger] kept.contains(x) <==> items.contains(x) && wanted(x) by {
            if kept.contains(x) {
                let i = choose|i: int| 0 <= i < kept.len() && kept[i] == x;
                if wanted(last) && i == kept.len() - 1 {
                    assert(items[items.len() - 1] == x);
                } else {
                    assert(before.filter(wanted).contains(x));
                    let j = choose|j: int| 0 <= j < before.len() && before[j] == x;
                }
            }
        }
    }
}

/// `filter` keeps a sequence whole where `wanted` accepts all of it.
pub proof fn lemma_filter_all<T>(items: Seq<T>, wanted: spec_fn(T) -> bool)
    requires
        forall|i: int| 0 <= i < items.len() ==> wanted(#[trigger] items[i]),
    ensures
        items.filter(wanted) == items,
    decreases items.len(),
{
    reveal(Seq::filter);
    if items.len() > 0 {
        lemma_filter_all(items.drop_last(), wanted);
    }
}

/// Filtering a second time changes nothing.
pub proof fn lemma_filter_twice<T>(items: Seq<T>, wanted: spec_fn(T) -> bool)
    ensures
        items.filter(wanted).filter(wanted) == items.filter(wanted),
{
    let kept = items.filter(wanted);
    lemma_filter_all(kept, wanted);
}

/// Where `wanted` goes by the identifier alone and accepts `id`, the first
/// record with `id` is also the first with it in what `filter` keeps.
pub proof fn lemma_lookup_in_filter<T: Identified>(
    items: Seq<T>,
    wanted: spec_fn(T) -> bool,
    id: Seq<char>,
)
    requires
        forall|x: T, y: T| x.key() == y.key() ==> wanted(x) == wanted(y),
        has_key(items, id),
        wanted(items[first_place(items, id)]),
    ensures
        has_key(items.filter(wanted), id),
        lookup(items.filter(wanted), id) == lookup(items, id),
    decreases items.len(),
{
    reveal(Seq::filter);
    lemma_has_first(items, id);
    let i = first_place(items, id);
    let kept = items.filter(wanted);
    let before = items.drop_last();
    let earlier = before.filter(wanted);
    lemma_filter_members(before, wanted);
    if i == items.len() - 1 {
        assert forall|k: int| 0 <= k < earlier.len() implies (#[trigger] earlier[k]).key() != id by {
            assert(earlier.contains(earlier[k]));
            let j = choose|j: int| 0 <= j < before.len() && before[j] == earlier[k];
        }
        lemma_first_is_lookup(kept, id, earlier.len() as int);
    } else {
        lemma_first_is_lookup(before, id, i);
        lemma_lookup_in_filter(before, wanted, id);
        lemma_has_first(earlier, id);
        let j = first_place(earlier, id);
        lemma_first_is_lookup(kept, id, j);
    }
}

/// What `filter` keeps of records with distinct identifiers has distinct
/// identifiers.
pub proof fn lemma_filter_keeps_distinct<T: Identified>(items: Seq<T>, wanted: spec_fn(T) -> bool)
    requires
        distinct_keys(items),
    ensures
        distinct_keys(items.filter(wanted)),
    decreases items.len(),
{
    reveal(Seq::filter);
    if items.len() > 0 {
        let before = items.drop_last();
        let earlier = before.filter(wanted);
        let kept = items.filter(wanted);
        lemma_filter_keeps_distinct(before, wanted);
        lemma_filter_members(before, wanted);
        assert forall|i: int, j: int| 0 <= i < j < kept.len() implies (#[trigger] kept[i]).key() != (
        #[trigger] kept[j]).key() by {
            if j < earlier.len() {
                assert(earlier[i].key() != earlier[j].key());
            } else {
                assert(earlier.contains(earlier[i]));
                let k = choose|k: int| 0 <= k < before.len() && before[k] == earlier[i];
            }
        }
    }
}

} // verus!
