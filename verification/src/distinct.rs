//! Lists in which nothing occurs twice: what came first stays first.

use crate::text::texts;
use vstd::prelude::*;

verus! {

/// The list with an item at its end, unless it is in the list already.
pub open spec fn inserted<A>(items: Seq<A>, item: A) -> Seq<A> {
    if items.contains(item) {
        items
    } else {
        items.push(item)
    }
}

/// The first occurrence of each item, in order.
pub open spec fn distinct<A>(items: Seq<A>) -> Seq<A>
    decreases items.len(),
{
    if items.len() == 0 {
        items
    } else {
        inserted(distinct(items.drop_last()), items.last())
    }
}

/// The first occurrences are the items, each once.
pub proof fn distinct_keeps_each_item_once<A>(items: Seq<A>)
    ensures
        distinct(items).no_duplicates(),
        forall|item: A| #[trigger] distinct(items).contains(item) <==> items.contains(item),
    decreases items.len(),
{
    if items.len() > 0 {
        let front = items.drop_last();
        distinct_keeps_each_item_once(front);
        let kept = distinct(front);
        let last = items.last();
        assert(items == front.push(last));
        assert forall|item: A| #[trigger]
            distinct(items).contains(item) <==> items.contains(item) by {
            if items.contains(item) {
                let i = choose|i: int| 0 <= i < items.len() && items[i] == item;
                if i < front.len() {
                    assert(front[i] == item);
                    assert(kept.contains(item));
                    let j = choose|j: int| 0 <= j < kept.len() && kept[j] == item;
                    assert(distinct(items)[j] == item);
                } else if !kept.contains(item) {
                    assert(kept.push(last)[kept.len() as int] == item);
                }
            }
            if distinct(items).contains(item) {
                let j = choose|j: int| 0 <= j < distinct(items).len() && distinct(items)[j] == item;
                if j < kept.len() {
                    assert(kept[j] == item);
                    assert(kept.contains(item));
                    assert(front.contains(item));
                    let i = choose|i: int| 0 <= i < front.len() && front[i] == item;
                    assert(items[i] == item);
                } else {
                    assert(items[items.len() - 1] == item);
                }
            }
        }
    }
}

/// Adds one item to a list of which the first occurrences are known.
pub proof fn lemma_distinct_push<A>(items: Seq<A>, item: A)
    ensures
        distinct(items.push(item)) == inserted(distinct(items), item),
{
    assert(items.push(item).drop_last() == items);
}

/// The contents of byte strings.
pub open spec fn contents(list: Seq<Vec<u8>>) -> Seq<Seq<u8>> {
    list.map_values(|bytes: Vec<u8>| bytes@)
}

/// Whether two byte strings hold the same bytes.
pub(crate) fn same_bytes(a: &Vec<u8>, b: &Vec<u8>) -> (r: bool)
    ensures
        r == (a@ == b@),
{
    if a.len() != b.len() {
        return false;
    }
    let mut i: usize = 0;
    while i < a.len()
        invariant
            i <= a.len(),
            a.len() == b.len(),
            forall|j: int| 0 <= j < i ==> a@[j] == b@[j],
        decreases a.len() - i,
    {
        if a[i] != b[i] {
            return false;
        }
        i = i + 1;
    }
    assert(a@ =~= b@);
    true
}

/// Whether a text is in a list.
pub(crate) fn has_text(items: &Vec<String>, item: &String) -> (r: bool)
    ensures
        r == texts(items@).contains(item@),
{
    let mut i: usize = 0;
    while i < items.len()
        invariant
            i <= items.len(),
            forall|j: int| 0 <= j < i ==> texts(items@)[j] != item@,
        decreases items.len() - i,
    {
        if items[i] == *item {
            assert(texts(items@)[i as int] == item@);
            return true;
        }
        i = i + 1;
    }
    false
}

/// Adds a text to a list, unless it is there already.
pub(crate) fn insert_text(items: &mut Vec<String>, item: String)
    ensures
        texts(final(items)@) == inserted(texts(old(items)@), item@),
{
    if !has_text(items, &item) {
        items.push(item);
        assert(texts(items@) =~= texts(old(items)@).push(item@));
    }
}

/// Adds a byte string to a list, unless it is there already.
pub(crate) fn insert_bytes(items: &mut Vec<Vec<u8>>, item: Vec<u8>)
    ensures
        contents(final(items)@) == inserted(contents(old(items)@), item@),
{
    let mut i: usize = 0;
    while i < items.len()
        invariant
            i <= items.len(),
            items@ == old(items)@,
            forall|j: int| 0 <= j < i ==> contents(items@)[j] != item@,
        decreases items.len() - i,
    {
        if same_bytes(&items[i], &item) {
            assert(contents(items@)[i as int] == item@);
            return ;
        }
        i = i + 1;
    }
    items.push(item);
    assert(contents(items@) =~= contents(old(items)@).push(item@));
}

/// Of a list whose items are told apart, what came first stays first: an item behind the others is
/// kept behind what is kept of them, unless it is among them.
pub proof fn distinct_keeps_what_came_first<A>(items: Seq<A>, item: A)
    ensures
        distinct(Seq::<A>::empty()) == Seq::<A>::empty(),
        items.contains(item) ==> distinct(items.push(item)) == distinct(items),
        !items.contains(item) ==> distinct(items.push(item)) == distinct(items).push(item),
{
    distinct_keeps_each_item_once(items);
    lemma_distinct_push(items, item);
}

/// The contents of byte strings are the bytes that they hold, in the same order.
pub proof fn contents_are_what_byte_strings_hold(list: Seq<Vec<u8>>)
    ensures
        contents(list).len() == list.len(),
        forall|i: int| 0 <= i < list.len() ==> contents(list)[i] == (#[trigger] list[i])@,
{
}

} // verus!
