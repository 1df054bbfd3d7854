//! Spec functions on text, a text being a sequence of characters.

use vstd::prelude::*;

verus! {

/// Whether `needle` stands in `hay` at index `at`.
pub open spec fn occurs_at(hay: Seq<char>, needle: Seq<char>, at: int) -> bool {
    &&& 0 <= at
    &&& at + needle.len() <= hay.len()
    &&& hay.subrange(at, at + needle.len()) == needle
}

/// Each item of `items` set between `before` and `after`, one after the other.
pub open spec fn wrapped(items: Seq<Seq<char>>, before: Seq<char>, after: Seq<char>) -> Seq<char>
    decreases items.len(),
{
    if items.len() == 0 {
        Seq::empty()
    } else {
        wrapped(items.drop_last(), before, after) + (before + items.last() + after)
    }
}

/// Start of the `k`-th wrapped item within `wrapped(items, before, after)`.
pub open spec fn wrapped_start(
    items: Seq<Seq<char>>,
    before: Seq<char>,
    after: Seq<char>,
    k: int,
) -> int {
    wrapped(items.take(k), before, after).len() as int
}

/// A single item wrapped is that item between `before` and `after`.
pub proof fn lemma_single_wrapped(items: Seq<Seq<char>>, before: Seq<char>, after: Seq<char>)
    requires
        items.len() == 1,
    ensures
        wrapped(items, before, after) == before + items[0] + after,
{
    assert(wrapped(items.drop_last(), before, after) =~= Seq::<char>::empty());
}

/// `wrapped` over a list is `wrapped` over any prefix of it, followed by
/// `wrapped` over the rest.
pub proof fn lemma_wrapped_split(
    items: Seq<Seq<char>>,
    before: Seq<char>,
    after: Seq<char>,
    k: int,
)
    requires
        0 <= k <= items.len(),
    ensures
        wrapped(items, before, after) == wrapped(items.take(k), before, after) + wrapped(
            items.skip(k),
            before,
            after,
        ),
    decreases items.len(),
{
    if k == items.len() {
        assert(items.take(k) =~= items);
    } else {
        let front = items.drop_last();
        lemma_wrapped_split(front, before, after, k);
        assert(front.take(k) =~= items.take(k));
        assert(front.skip(k) =~= items.skip(k).drop_last());
    }
}

/// The `k`-th item, between `before` and `after`, stands in
/// `wrapped(items, before, after)` at `wrapped_start(items, before, after, k)`.
pub proof fn lemma_wrapped_item_occurs(
    items: Seq<Seq<char>>,
    before: Seq<char>,
    after: Seq<char>,
    k: int,
)
    requires
        0 <= k < items.len(),
    ensures
        occurs_at(
            wrapped(items, before, after),
            before + items[k] + after,
            wrapped_start(items, before, after, k),
        ),
{
    let all = wrapped(items, before, after);
    let piece = before + items[k] + after;
    let head = wrapped(items.take(k), before, after);
    lemma_wrapped_split(items, before, after, k + 1);
    assert(items.take(k + 1).drop_last() =~= items.take(k));
    assert(all.subrange(head.len() as int, (head.len() + piece.len()) as int) =~= piece);
}

} // verus!
