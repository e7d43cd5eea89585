//! Vectors of viewed items as sequences of views.

use vstd::prelude::*;

verus! {

/// The views of a run of items.
pub open spec fn views<T: View>(items: Seq<T>) -> Seq<T::V> {
    Seq::new(items.len(), |i: int| items[i]@)
}

pub broadcast proof fn lemma_views_push<T: View>(items: Seq<T>, item: T)
    ensures
        #[trigger] views(items.push(item)) == views(items).push(item@),
{
    assert(views(items.push(item)) =~= views(items).push(item@));
}

pub broadcast proof fn lemma_views_update<T: View>(items: Seq<T>, i: int, item: T)
    requires
        0 <= i < items.len(),
    ensures
        #[trigger] views(items.update(i, item)) == views(items).update(i, item@),
{
    assert(views(items.update(i, item)) =~= views(items).update(i, item@));
}

pub broadcast proof fn lemma_views_remove<T: View>(items: Seq<T>, i: int)
    requires
        0 <= i < items.len(),
    ensures
        #[trigger] views(items.remove(i)) == views(items).remove(i),
{
    assert(views(items.remove(i)) =~= views(items).remove(i));
}

pub broadcast proof fn lemma_views_insert<T: View>(items: Seq<T>, i: int, item: T)
    requires
        0 <= i <= items.len(),
    ensures
        #[trigger] views(items.insert(i, item)) == views(items).insert(i, item@),
{
    assert(views(items.insert(i, item)) =~= views(items).insert(i, item@));
}

pub broadcast proof fn lemma_views_take<T: View>(items: Seq<T>, i: int)
    requires
        0 <= i <= items.len(),
    ensures
        #[trigger] views(items.take(i)) == views(items).take(i),
{
    assert(views(items.take(i)) =~= views(items).take(i));
}

pub broadcast proof fn lemma_views_add<T: View>(first: Seq<T>, second: Seq<T>)
    ensures
        #[trigger] views(first + second) == views(first) + views(second),
{
    assert(views(first + second) =~= views(first) + views(second));
}

pub broadcast proof fn lemma_views_empty<T: View>(items: Seq<T>)
    requires
        items.len() == 0,
    ensures
        #[trigger] views(items) == Seq::<T::V>::empty(),
{
    assert(views(items) =~= Seq::<T::V>::empty());
}

pub broadcast group group_views {
    lemma_views_push,
    lemma_views_update,
    lemma_views_remove,
    lemma_views_insert,
    lemma_views_take,
    lemma_views_add,
    lemma_views_empty,
}

} // verus!
