//! Hand-built container primitives: a growable contiguous array and a
//! singly linked list, each with a verified contract over a sequence model.

use vstd::prelude::*;

pub mod dynamic_array;
pub mod linked_list;

verus! {

/// An index or position argument outside the valid range for the
/// requested operation.
#[derive(Clone, Copy, Debug, PartialEq, Eq, Structural)]
pub struct BoundsError;

/// Appending one element leaves every element already present unchanged, at
/// its old position, and adds the new one at the end: so a push that forces
/// the backing storage to grow still preserves all previously pushed values.
pub proof fn lemma_push_preserves_contents<T>(s: Seq<T>, x: T)
    ensures
        s.push(x).len() == s.len() + 1,
        forall|j: int| 0 <= j < s.len() ==> #[trigger] s.push(x)[j] == s[j],
        s.push(x)[s.len() as int] == x,
{
}

/// Splicing `x` in at position `i` keeps the elements before `i` in place,
/// puts `x` at `i`, and shifts the rest one position up, preserving their
/// relative order.
pub proof fn lemma_insert_splices<T>(s: Seq<T>, i: int, x: T)
    requires
        0 <= i <= s.len(),
    ensures
        s.insert(i, x).len() == s.len() + 1,
        forall|j: int| 0 <= j < i ==> #[trigger] s.insert(i, x)[j] == s[j],
        s.insert(i, x)[i] == x,
        forall|j: int| i <= j < s.len() ==> #[trigger] s.insert(i, x)[j + 1] == s[j],
{
}

/// Removing the element at position `i` keeps the elements before `i` in
/// place and shifts the rest one position down, preserving their relative
/// order.
pub proof fn lemma_remove_shifts<T>(s: Seq<T>, i: int)
    requires
        0 <= i < s.len(),
    ensures
        s.remove(i).len() == s.len() - 1,
        forall|j: int| 0 <= j < i ==> #[trigger] s.remove(i)[j] == s[j],
        forall|j: int| i <= j < s.len() - 1 ==> #[trigger] s.remove(i)[j] == s[j + 1],
{
}

/// What front-to-back consumption yields: the first element, then whatever
/// consuming the rest yields. Each `next` of an iterator, and each front
/// removal of the list, takes one such step on the view.
pub open spec fn consumed_forward<T>(s: Seq<T>) -> Seq<T>
    decreases s.len(),
{
    if s.len() == 0 {
        Seq::empty()
    } else {
        seq![s.first()] + consumed_forward(s.drop_first())
    }
}

/// What back-to-front consumption yields: the last element, then whatever
/// consuming the rest yields. Each `pop` takes one such step on the view.
pub open spec fn consumed_backward<T>(s: Seq<T>) -> Seq<T>
    decreases s.len(),
{
    if s.len() == 0 {
        Seq::empty()
    } else {
        seq![s.last()] + consumed_backward(s.drop_last())
    }
}

/// Round trip: fully consuming a container from the front yields exactly
/// its contents, in order — so the owned iterator of an array, the drain,
/// and the consuming iterator of a list each return the pushed sequence.
pub proof fn lemma_forward_consumption_is_identity<T>(s: Seq<T>)
    ensures
        consumed_forward(s) == s,
    decreases s.len(),
{
    if s.len() == 0 {
        assert(consumed_forward(s) =~= s);
    } else {
        lemma_forward_consumption_is_identity(s.drop_first());
        assert(consumed_forward(s) =~= s);
    }
}

/// Fully consuming a container from the back yields exactly its contents
/// in reverse — so after `n` pushes, repeated `pop` returns the `n` values
/// in reverse order.
pub proof fn lemma_backward_consumption_reverses<T>(s: Seq<T>)
    ensures
        consumed_backward(s) == s.reverse(),
    decreases s.len(),
{
    if s.len() == 0 {
        assert(consumed_backward(s) =~= s.reverse());
    } else {
        lemma_backward_consumption_reverses(s.drop_last());
        assert(consumed_backward(s) =~= s.reverse());
    }
}

} // verus!
