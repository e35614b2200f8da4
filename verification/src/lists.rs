//! Searching and sifting lists.

use vstd::prelude::*;

verus! {

/// What `f` finds in the first item in which it finds anything.
pub open spec fn first_found<A, B>(list: Seq<A>, f: spec_fn(A) -> Option<B>) -> Option<B>
    decreases list.len(),
{
    if list.len() == 0 {
        None
    } else {
        match first_found(list.drop_last(), f) {
            Some(found) => Some(found),
            None => f(list.last()),
        }
    }
}

/// `value`, or `default` where there is none.
pub open spec fn or_else<A>(value: Option<A>, default: A) -> A {
    match value {
        Some(value) => value,
        None => default,
    }
}

/// What is found in two lists, one after the other, is found in the first
/// where anything is found there, else in the second.
pub proof fn first_found_in_sum<A, B>(a: Seq<A>, b: Seq<A>, f: spec_fn(A) -> Option<B>)
    ensures
        first_found(a + b, f) == match first_found(a, f) {
            Some(found) => Some(found),
            None => first_found(b, f),
        },
    decreases b.len(),
{
    if b.len() == 0 {
        assert(a + b =~= a);
    } else {
        first_found_in_sum(a, b.drop_last(), f);
        assert((a + b).drop_last() =~= a + b.drop_last());
    }
}

/// Sifting two lists, one after the other, is sifting each.
pub proof fn filter_map_of_sum<A, B>(a: Seq<A>, b: Seq<A>, f: spec_fn(A) -> Option<B>)
    ensures
        (a + b).filter_map(f) == a.filter_map(f) + b.filter_map(f),
    decreases b.len(),
{
    reveal(Seq::filter_map);
    if b.len() == 0 {
        assert(a + b =~= a);
        assert(a.filter_map(f) + b.filter_map(f) =~= a.filter_map(f));
    } else {
        filter_map_of_sum(a, b.drop_last(), f);
        assert((a + b).drop_last() =~= a + b.drop_last());
        assert((a + b).filter_map(f) =~= a.filter_map(f) + b.filter_map(f));
    }
}

/// Sifting a list that one item was put behind.
pub proof fn filter_map_of_push<A, B>(list: Seq<A>, item: A, f: spec_fn(A) -> Option<B>)
    ensures
        list.push(item).filter_map(f) == match f(item) {
            Some(found) => list.filter_map(f).push(found),
            None => list.filter_map(f),
        },
{
    reveal(Seq::filter_map);
    assert(list.push(item).drop_last() =~= list);
    if let Some(found) = f(item) {
        assert(list.filter_map(f) + seq![found] =~= list.filter_map(f).push(found));
    }
}

/// What a list is sifted to was found in some item.
pub proof fn sifted_from<A, B>(list: Seq<A>, f: spec_fn(A) -> Option<B>, k: int)
    requires
        0 <= k < list.filter_map(f).len(),
    ensures
        exists|i: int| 0 <= i < list.len() && f(#[trigger] list[i]) == Some(list.filter_map(f)[k]),
    decreases list.len(),
{
    reveal(Seq::filter_map);
    if list.len() > 0 {
        let head = list.drop_last();
        if k < head.filter_map(f).len() {
            sifted_from(head, f, k);
            let i = choose|i: int|
                0 <= i < head.len() && f(#[trigger] head[i]) == Some(head.filter_map(f)[k]);
            assert(list[i] == head[i]);
        } else {
            assert(list[list.len() - 1] == list.last());
        }
    }
}

/// What is found in a list stands in some item, and nothing is found in those
/// before it; where nothing is found, no item holds anything.
pub proof fn first_found_is_the_first<A, B>(list: Seq<A>, f: spec_fn(A) -> Option<B>)
    ensures
        match first_found(list, f) {
            Some(found) => exists|i: int|
                0 <= i < list.len() && f(#[trigger] list[i]) == Some(found) && forall|j: int|
                    0 <= j < i ==> f(#[trigger] list[j]) is None,
            None => forall|i: int| 0 <= i < list.len() ==> f(#[trigger] list[i]) is None,
        },
    decreases list.len(),
{
    if list.len() > 0 {
        let head = list.drop_last();
        let last = list.len() - 1;
        first_found_is_the_first(head, f);
        assert forall|j: int| 0 <= j < last implies #[trigger] list[j] == head[j] by {}
        assert(list[last] == list.last());
        match first_found(head, f) {
            Some(found) => {
                let i = choose|i: int|
                    0 <= i < head.len() && f(#[trigger] head[i]) == Some(found) && forall|j: int|
                        0 <= j < i ==> f(#[trigger] head[j]) is None;
                assert(f(list[i]) == Some(found));
                assert forall|j: int| 0 <= j < i implies f(#[trigger] list[j]) is None by {
                    assert(f(head[j]) is None);
                }
            },
            None => {
                assert forall|j: int| 0 <= j < last implies f(#[trigger] list[j]) is None by {
                    assert(f(head[j]) is None);
                }
            },
        }
    }
}

/// A value that is there is kept; the default stands in for one that is not.
pub proof fn defaults_stand_in<A>(value: Option<A>, default: A)
    ensures
        value is Some ==> or_else(value, default) == value->0,
        value is None ==> or_else(value, default) == default,
{
}

/// Sifting a single item.
pub proof fn filter_map_of_one<A, B>(item: A, f: spec_fn(A) -> Option<B>)
    ensures
        seq![item].filter_map(f) == match f(item) {
            Some(found) => seq![found],
            None => Seq::empty(),
        },
        Seq::<A>::empty().filter_map(f) == Seq::<B>::empty(),
{
    reveal(Seq::filter_map);
    filter_map_of_push(Seq::empty(), item, f);
    assert(Seq::empty().push(item) =~= seq![item]);
    assert(Seq::<A>::empty().filter_map(f) =~= Seq::<B>::empty());
    if let Some(found) = f(item) {
        assert(Seq::empty().push(found) =~= seq![found]);
    }
}

} // verus!
