//! Mathematical views of collections of modelled values.

use vstd::prelude::*;

verus! {

/// The views of the items of a sequence, in order.
pub open spec fn views<T: View>(items: Seq<T>) -> Seq<T::V> {
    Seq::new(items.len(), |i: int| items[i]@)
}

/// The view of a value that may be absent.
pub open spec fn optional_view<T: View>(item: Option<T>) -> Option<T::V> {
    match item {
        Some(value) => Some(value@),
        None => None,
    }
}

/// The view of a list that may be absent.
pub open spec fn optional_views<T: View>(items: Option<Vec<T>>) -> Option<Seq<T::V>> {
    match items {
        Some(list) => Some(views(list@)),
        None => None,
    }
}

/// Viewing commutes with appending one item.
pub proof fn lemma_views_push<T: View>(items: Seq<T>, item: T)
    ensures
        views(items.push(item)) == views(items).push(item@),
{
    assert(views(items.push(item)) =~= views(items).push(item@));
}

/// Viewing commutes with concatenation.
pub proof fn lemma_views_add<T: View>(left: Seq<T>, right: Seq<T>)
    ensures
        views(left + right) == views(left) + views(right),
{
    assert(views(left + right) =~= views(left) + views(right));
}

/// Viewing commutes with taking a prefix.
pub proof fn lemma_views_take<T: View>(items: Seq<T>, n: int)
    requires
        0 <= n <= items.len(),
    ensures
        views(items.take(n)) == views(items).take(n),
{
    assert(views(items.take(n)) =~= views(items).take(n));
}

} // verus!
