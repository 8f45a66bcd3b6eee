//! A growable contiguous array built from a capacity-tracked buffer plus a
//! length, together with its consuming iterators.

use vstd::prelude::*;

verus! {

use crate::BoundsError;

/// Backing storage for a [`DynamicArray`]: a buffer of `capacity` slots.
/// A slot holding `None` stands for uninitialized storage; the buffer itself
/// does not know how many slots are initialized.
pub struct RawBuffer<T> {
    slots: Vec<Option<T>>,
}

impl<T> RawBuffer<T> {
    /// The number of element slots this buffer can hold.
    pub closed spec fn spec_capacity(self) -> nat {
        self.slots@.len()
    }

    /// A fresh buffer with no storage at all.
    pub fn new() -> (buf: Self)
        ensures
            buf.spec_capacity() == 0,
    {
        RawBuffer { slots: Vec::new() }
    }

    /// Doubles the capacity (or goes from zero to one slot), keeping every
    /// existing slot's contents and leaving the new slots uninitialized.
    fn grow(&mut self)
        requires
            old(self).spec_capacity() <= usize::MAX / 2,
        ensures
            final(self).spec_capacity() == if old(self).spec_capacity() == 0 {
                1nat
            } else {
                2 * old(self).spec_capacity()
            },
            final(self).slots@ == old(self).slots@ + Seq::new(
                (final(self).spec_capacity() - old(self).spec_capacity()) as nat,
                |i: int| None::<T>,
            ),
    {
        let old_cap: usize = self.slots.len();
        let new_cap: usize = if old_cap == 0 {
            1
        } else {
            2 * old_cap
        };
        while self.slots.len() < new_cap
            invariant
                old_cap <= self.slots@.len() <= new_cap,
                self.slots@ == old(self).slots@ + Seq::new(
                    (self.slots@.len() - old_cap) as nat,
                    |i: int| None::<T>,
                ),
            decreases new_cap - self.slots.len(),
        {
            self.slots.push(None);
            proof {
                assert(self.slots@ =~= old(self).slots@ + Seq::new(
                    (self.slots@.len() - old_cap) as nat,
                    |i: int| None::<T>,
                ));
            }
        }
    }
}

/// The growable array: owns one [`RawBuffer`] plus the count of initialized
/// slots. Slots `[0, len)` hold live values; the rest are uninitialized.
pub struct DynamicArray<T> {
    buf: RawBuffer<T>,
    len: usize,
}

impl<T> View for DynamicArray<T> {
    type V = Seq<T>;

    closed spec fn view(&self) -> Seq<T> {
        Seq::new(self.len as nat, |i: int| self.buf.slots@[i]->0)
    }
}

impl<T> DynamicArray<T> {
    /// The live slots lie inside the buffer and are all initialized.
    pub closed spec fn well_formed(self) -> bool {
        &&& self.len <= self.buf.slots@.len()
        &&& forall|i: int| 0 <= i < self.len ==> (#[trigger] self.buf.slots@[i]) is Some
        &&& forall|i: int|
            self.len <= i < self.buf.slots@.len() ==> (#[trigger] self.buf.slots@[i]) is None
    }

    /// How many elements the array can hold before it must grow.
    pub closed spec fn spec_capacity(self) -> nat {
        self.buf.spec_capacity()
    }

    /// An empty array with no allocation.
    pub fn new() -> (arr: Self)
        ensures
            arr.well_formed(),
            arr@ == Seq::<T>::empty(),
            arr.spec_capacity() == 0,
    {
        let arr = DynamicArray { buf: RawBuffer::new(), len: 0 };
        proof {
            assert(arr@ =~= Seq::<T>::empty());
        }
        arr
    }

    /// The number of live elements.
    pub fn len(&self) -> (n: usize)
        ensures
            n == self@.len(),
    {
        self.len
    }

    /// The current capacity of the backing buffer.
    pub fn capacity(&self) -> (c: usize)
        ensures
            c == self.spec_capacity(),
    {
        self.buf.slots.len()
    }

    /// Appends `elem` after the last live element, growing the buffer first
    /// if it is full.
    pub fn push(&mut self, elem: T)
        requires
            old(self).well_formed(),
            old(self)@.len() < usize::MAX / 2,
        ensures
            final(self).well_formed(),
            final(self)@ == old(self)@.push(elem),
            old(self)@.len() < old(self).spec_capacity() ==> final(self).spec_capacity() == old(
                self,
            ).spec_capacity(),
    {
        if self.len == self.buf.slots.len() {
            self.buf.grow();
        }
        let mut incoming: Option<T> = Some(elem);
        self.buf.slots.set_and_swap(self.len, &mut incoming);
        self.len = self.len + 1;
        proof {
            assert(self.well_formed());
            assert(self@ =~= old(self)@.push(elem));
        }
    }

    /// Removes and returns the last live element, or reports the empty
    /// signal; the buffer is left untouched.
    pub fn pop(&mut self) -> (r: Option<T>)
        requires
            old(self).well_formed(),
        ensures
            final(self).well_formed(),
            final(self).spec_capacity() == old(self).spec_capacity(),
            old(self)@.len() == 0 ==> r is None && final(self)@ == old(self)@,
            old(self)@.len() > 0 ==> r == Some(old(self)@.last()) && final(self)@ == old(
                self,
            )@.drop_last(),
    {
        if self.len == 0 {
            None
        } else {
            self.len = self.len - 1;
            let mut outgoing: Option<T> = None;
            self.buf.slots.set_and_swap(self.len, &mut outgoing);
            proof {
                assert(self.well_formed());
                assert(self@ =~= old(self)@.drop_last());
            }
            outgoing
        }
    }

    /// Splices `elem` in at position `index`, shifting the elements at and
    /// after it one slot to the right; rejects an index beyond the length.
    pub fn insert(&mut self, index: usize, elem: T) -> (r: Result<(), BoundsError>)
        requires
            old(self).well_formed(),
            old(self)@.len() < usize::MAX / 2,
        ensures
            final(self).well_formed(),
            index <= old(self)@.len() ==> r is Ok && final(self)@ == old(self)@.insert(
                index as int,
                elem,
            ),
            index > old(self)@.len() ==> r is Err && final(self)@ == old(self)@,
    {
        if index > self.len {
            return Err(BoundsError);
        }
        if self.len == self.buf.slots.len() {
            self.buf.grow();
        }
        let ghost mid = self.buf.slots@;
        let old_len: usize = self.len;
        let mut j: usize = self.len;
        while j > index
            invariant
                index <= j <= old_len,
                old_len < self.buf.slots@.len(),
                self.len == old_len,
                forall|i: int| 0 <= i < j ==> (#[trigger] self.buf.slots@[i]) == mid[i],
                self.buf.slots@[j as int] is None,
                forall|i: int|
                    j < i <= old_len ==> (#[trigger] self.buf.slots@[i]) == mid[i - 1],
                forall|i: int|
                    old_len < i < self.buf.slots@.len() ==> (#[trigger] self.buf.slots@[i]) is None,
                self.buf.slots@.len() == mid.len(),
            decreases j,
        {
            let mut moved: Option<T> = None;
            self.buf.slots.set_and_swap(j - 1, &mut moved);
            self.buf.slots.set(j, moved);
            j = j - 1;
        }
        self.buf.slots.set(index, Some(elem));
        self.len = self.len + 1;
        proof {
            assert(self.well_formed());
            assert(self@ =~= old(self)@.insert(index as int, elem));
        }
        Ok(())
    }

    /// Removes and returns the element at `index`, shifting the elements
    /// after it one slot to the left; rejects an index at or beyond the
    /// length.
    pub fn remove(&mut self, index: usize) -> (r: Result<T, BoundsError>)
        requires
            old(self).well_formed(),
        ensures
            final(self).well_formed(),
            final(self).spec_capacity() == old(self).spec_capacity(),
            index < old(self)@.len() ==> (r matches Ok(v) && v == old(self)@[index as int])
                && final(self)@ == old(self)@.remove(index as int),
            index >= old(self)@.len() ==> r is Err && final(self)@ == old(self)@,
    {
        if index >= self.len {
            return Err(BoundsError);
        }
        let mut outgoing: Option<T> = None;
        self.buf.slots.set_and_swap(index, &mut outgoing);
        let ghost mid = self.buf.slots@;
        let old_len: usize = self.len;
        let mut j: usize = index;
        while j + 1 < old_len
            invariant
                index <= j < old_len,
                old_len <= self.buf.slots@.len(),
                self.len == old_len,
                forall|i: int| 0 <= i < index ==> (#[trigger] self.buf.slots@[i]) == mid[i],
                forall|i: int| index <= i < j ==> (#[trigger] self.buf.slots@[i]) == mid[i + 1],
                self.buf.slots@[j as int] is None,
                forall|i: int|
                    j < i < self.buf.slots@.len() ==> (#[trigger] self.buf.slots@[i]) == mid[i],
                self.buf.slots@.len() == mid.len(),
            decreases old_len - j,
        {
            let mut moved: Option<T> = None;
            self.buf.slots.set_and_swap(j + 1, &mut moved);
            self.buf.slots.set(j, moved);
            j = j + 1;
        }
        self.len = self.len - 1;
        proof {
            assert(self.well_formed());
            assert(self@ =~= old(self)@.remove(index as int));
        }
        match outgoing {
            Some(v) => Ok(v),
            None => Err(BoundsError),
        }
    }

    /// A borrowed view of the live element at `index`.
    pub fn get(&self, index: usize) -> (r: &T)
        requires
            self.well_formed(),
            index < self@.len(),
        ensures
            *r == self@[index as int],
    {
        self.buf.slots[index].as_ref().unwrap()
    }

    /// Overwrites the live element at `index`, dropping the old value.
    pub fn set(&mut self, index: usize, elem: T)
        requires
            old(self).well_formed(),
            index < old(self)@.len(),
        ensures
            final(self).well_formed(),
            final(self)@ == old(self)@.update(index as int, elem),
            final(self).spec_capacity() == old(self).spec_capacity(),
    {
        self.buf.slots.set(index, Some(elem));
        proof {
            assert(self.well_formed());
            assert(self@ =~= old(self)@.update(index as int, elem));
        }
    }

    /// Empties the array in place, handing every live element to a
    /// [`Drain`] that yields them in order; the buffer keeps its capacity.
    pub fn drain(&mut self) -> (d: Drain<T>)
        requires
            old(self).well_formed(),
        ensures
            final(self).well_formed(),
            final(self)@ == Seq::<T>::empty(),
            final(self).spec_capacity() == old(self).spec_capacity(),
            d.well_formed(),
            d@ == old(self)@,
    {
        let mut taken: Vec<Option<T>> = Vec::new();
        let mut i: usize = 0;
        while i < self.len
            invariant
                i <= self.len,
                self.len <= self.buf.slots@.len(),
                self.buf.slots@.len() == old(self).buf.slots@.len(),
                taken@.len() == i,
                forall|k: int| 0 <= k < i ==> (#[trigger] taken@[k]) == old(self).buf.slots@[k],
                forall|k: int| 0 <= k < i ==> (#[trigger] self.buf.slots@[k]) is None,
                forall|k: int|
                    i <= k < self.buf.slots@.len() ==> (#[trigger] self.buf.slots@[k]) == old(
                        self,
                    ).buf.slots@[k],
                self.len == old(self).len,
                old(self).well_formed(),
            decreases self.len - i,
        {
            let mut moved: Option<T> = None;
            self.buf.slots.set_and_swap(i, &mut moved);
            taken.push(moved);
            i = i + 1;
        }
        let end = self.len;
        self.len = 0;
        let d = Drain { iter: ValueIterator { slots: taken, start: 0, end } };
        proof {
            assert(self.well_formed());
            assert(self@ =~= Seq::<T>::empty());
            assert(d@ =~= old(self)@);
        }
        d
    }

    /// Consumes the array, transferring its buffer into an [`IntoIter`]
    /// that owns the allocation and yields the live elements in order.
    pub fn into_iter(self) -> (it: IntoIter<T>)
        requires
            self.well_formed(),
        ensures
            it.well_formed(),
            it@ == self@,
    {
        let DynamicArray { buf, len } = self;
        let RawBuffer { slots } = buf;
        let it = IntoIter { iter: ValueIterator { slots, start: 0, end: len } };
        proof {
            assert(it@ =~= self@);
        }
        it
    }
}

/// A cursor over the slots `[start, end)` of a buffer, consumed from either
/// end; every slot in the range holds a live value and is yielded exactly
/// once.
pub struct ValueIterator<T> {
    slots: Vec<Option<T>>,
    start: usize,
    end: usize,
}

impl<T> View for ValueIterator<T> {
    type V = Seq<T>;

    closed spec fn view(&self) -> Seq<T> {
        Seq::new((self.end - self.start) as nat, |i: int| self.slots@[self.start + i]->0)
    }
}

impl<T> ValueIterator<T> {
    /// The live range lies inside the buffer and is fully initialized.
    pub closed spec fn well_formed(self) -> bool {
        &&& self.start <= self.end <= self.slots@.len()
        &&& forall|i: int|
            self.start <= i < self.end ==> (#[trigger] self.slots@[i]) is Some
    }

    /// Takes the front element of the remaining range, or reports the empty
    /// signal once the range has been consumed.
    pub fn next(&mut self) -> (r: Option<T>)
        requires
            old(self).well_formed(),
        ensures
            final(self).well_formed(),
            old(self)@.len() == 0 ==> r is None && final(self)@ == old(self)@,
            old(self)@.len() > 0 ==> r == Some(old(self)@.first()) && final(self)@ == old(
                self,
            )@.drop_first(),
    {
        if self.start == self.end {
            None
        } else {
            let mut outgoing: Option<T> = None;
            self.slots.set_and_swap(self.start, &mut outgoing);
            self.start = self.start + 1;
            proof {
                assert(self.well_formed());
                assert(self@ =~= old(self)@.drop_first());
            }
            outgoing
        }
    }

    /// Takes the back element of the remaining range, or reports the empty
    /// signal once the range has been consumed.
    pub fn next_back(&mut self) -> (r: Option<T>)
        requires
            old(self).well_formed(),
        ensures
            final(self).well_formed(),
            old(self)@.len() == 0 ==> r is None && final(self)@ == old(self)@,
            old(self)@.len() > 0 ==> r == Some(old(self)@.last()) && final(self)@ == old(
                self,
            )@.drop_last(),
    {
        if self.start == self.end {
            None
        } else {
            let mut outgoing: Option<T> = None;
            self.slots.set_and_swap(self.end - 1, &mut outgoing);
            self.end = self.end - 1;
            proof {
                assert(self.well_formed());
                assert(self@ =~= old(self)@.drop_last());
            }
            outgoing
        }
    }
}

/// Owns the array's buffer after a full transfer and yields the elements
/// that were live at the moment of the transfer, front or back first.
pub struct IntoIter<T> {
    iter: ValueIterator<T>,
}

impl<T> View for IntoIter<T> {
    type V = Seq<T>;

    closed spec fn view(&self) -> Seq<T> {
        self.iter@
    }
}

impl<T> IntoIter<T> {
    /// The internal cursor covers a fully initialized range.
    pub closed spec fn well_formed(self) -> bool {
        self.iter.well_formed()
    }

    /// Yields the next element from the front, or the empty signal.
    pub fn next(&mut self) -> (r: Option<T>)
        requires
            old(self).well_formed(),
        ensures
            final(self).well_formed(),
            old(self)@.len() == 0 ==> r is None && final(self)@ == old(self)@,
            old(self)@.len() > 0 ==> r == Some(old(self)@.first()) && final(self)@ == old(
                self,
            )@.drop_first(),
    {
        self.iter.next()
    }

    /// Yields the next element from the back, or the empty signal.
    pub fn next_back(&mut self) -> (r: Option<T>)
        requires
            old(self).well_formed(),
        ensures
            final(self).well_formed(),
            old(self)@.len() == 0 ==> r is None && final(self)@ == old(self)@,
            old(self)@.len() > 0 ==> r == Some(old(self)@.last()) && final(self)@ == old(
                self,
            )@.drop_last(),
    {
        self.iter.next_back()
    }
}

/// Yields the elements that were live in a drained array, front or back
/// first; elements never pulled are dropped with the iterator itself.
pub struct Drain<T> {
    iter: ValueIterator<T>,
}

impl<T> View for Drain<T> {
    type V = Seq<T>;

    closed spec fn view(&self) -> Seq<T> {
        self.iter@
    }
}

impl<T> Drain<T> {
    /// The internal cursor covers a fully initialized range.
    pub closed spec fn well_formed(self) -> bool {
        self.iter.well_formed()
    }

    /// Yields the next drained element from the front, or the empty signal.
    pub fn next(&mut self) -> (r: Option<T>)
        requires
            old(self).well_formed(),
        ensures
            final(self).well_formed(),
            old(self)@.len() == 0 ==> r is None && final(self)@ == old(self)@,
            old(self)@.len() > 0 ==> r == Some(old(self)@.first()) && final(self)@ == old(
                self,
            )@.drop_first(),
    {
        self.iter.next()
    }

    /// Yields the next drained element from the back, or the empty signal.
    pub fn next_back(&mut self) -> (r: Option<T>)
        requires
            old(self).well_formed(),
        ensures
            final(self).well_formed(),
            old(self)@.len() == 0 ==> r is None && final(self)@ == old(self)@,
            old(self)@.len() > 0 ==> r == Some(old(self)@.last()) && final(self)@ == old(
                self,
            )@.drop_last(),
    {
        self.iter.next_back()
    }
}

} // verus!
