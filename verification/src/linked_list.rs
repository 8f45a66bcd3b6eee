//! A singly linked list: a chain of nodes with tracked head and tail links,
//! the nodes held in an arena of slots addressed by index and recycled
//! through a free list, so that every node has exactly one owner.

use vstd::prelude::*;

verus! {

use crate::BoundsError;

/// One node of the chain: the owned value plus the link to the following
/// node, with `None` as the terminal marker.
pub struct Node<T> {
    elem: T,
    next: Option<usize>,
}

/// Every free-list entry names an unoccupied arena slot, no slot twice.
spec fn arena_ok<T>(nodes: Seq<Option<Node<T>>>, free: Seq<usize>) -> bool {
    &&& forall|k: int| 0 <= k < free.len() ==> (#[trigger] free[k]) < nodes.len()
    &&& forall|k: int| 0 <= k < free.len() ==> (#[trigger] nodes[free[k] as int]) is None
    &&& forall|k1: int, k2: int| 0 <= k1 < k2 < free.len() ==> free[k1] != free[k2]
}

/// The singly linked list. `order` is the ghost witness for the chain: the
/// arena index of each element in list order.
pub struct LinkedList<T> {
    nodes: Vec<Option<Node<T>>>,
    start: Option<usize>,
    end: Option<usize>,
    len: usize,
    free: Vec<usize>,
    order: Ghost<Seq<usize>>,
}

impl<T> View for LinkedList<T> {
    type V = Seq<T>;

    closed spec fn view(&self) -> Seq<T> {
        Seq::new(self.len as nat, |k: int| self.nodes@[self.order@[k] as int]->0.elem)
    }
}

impl<T> LinkedList<T> {
    /// The chain witnessed by `order` runs from `start` to `end` through
    /// occupied, pairwise distinct arena slots, linked in order and closed
    /// by the terminal marker; the free list is sound.
    pub closed spec fn well_formed(self) -> bool {
        let ord = self.order@;
        &&& ord.len() == self.len
        &&& forall|k: int| 0 <= k < ord.len() ==> (#[trigger] ord[k]) < self.nodes@.len()
        &&& forall|k: int| 0 <= k < ord.len() ==> (#[trigger] self.nodes@[ord[k] as int]) is Some
        &&& forall|k1: int, k2: int| 0 <= k1 < k2 < ord.len() ==> ord[k1] != ord[k2]
        &&& forall|k: int|
            0 <= k < ord.len() - 1 ==> (#[trigger] self.nodes@[ord[k] as int])->0.next == Some(
                ord[k + 1],
            )
        &&& (self.len == 0 ==> self.start is None && self.end is None)
        &&& (self.len > 0 ==> self.start == Some(ord[0]) && self.end == Some(ord[ord.len() - 1])
            && self.nodes@[ord[ord.len() - 1] as int]->0.next is None)
        &&& arena_ok(self.nodes@, self.free@)
    }

    /// An empty list: both links terminal, no nodes.
    pub fn new() -> (list: Self)
        ensures
            list.well_formed(),
            list@ == Seq::<T>::empty(),
    {
        let list = LinkedList {
            nodes: Vec::new(),
            start: None,
            end: None,
            len: 0,
            free: Vec::new(),
            order: Ghost(Seq::empty()),
        };
        proof {
            assert(list@ =~= Seq::<T>::empty());
        }
        list
    }

    /// The number of elements in the chain.
    pub fn len(&self) -> (n: usize)
        ensures
            n == self@.len(),
    {
        self.len
    }

    /// Places `node` in a recycled or fresh arena slot, touching nothing
    /// else; the chosen slot held no node before.
    fn alloc_node(&mut self, node: Node<T>) -> (idx: usize)
        requires
            arena_ok(old(self).nodes@, old(self).free@),
        ensures
            arena_ok(final(self).nodes@, final(self).free@),
            idx < final(self).nodes@.len(),
            old(self).nodes@.len() <= final(self).nodes@.len(),
            idx < old(self).nodes@.len() ==> old(self).nodes@[idx as int] is None
                && final(self).nodes@ == old(self).nodes@.update(idx as int, Some(node)),
            idx >= old(self).nodes@.len() ==> final(self).nodes@ == old(self).nodes@.push(
                Some(node),
            ) && idx == old(self).nodes@.len(),
            final(self).start == old(self).start,
            final(self).end == old(self).end,
            final(self).len == old(self).len,
            final(self).order == old(self).order,
    {
        match self.free.pop() {
            Some(idx) => {
                self.nodes.set(idx, Some(node));
                idx
            },
            None => {
                let idx = self.nodes.len();
                self.nodes.push(Some(node));
                idx
            },
        }
    }

    /// Walks `k` links from the head and returns the arena index of the
    /// node at position `k`.
    fn node_at(&self, k: usize) -> (idx: usize)
        requires
            self.well_formed(),
            k < self@.len(),
        ensures
            idx == self.order@[k as int],
    {
        let mut cur: usize = match self.start {
            Some(h) => h,
            None => 0,
        };
        let mut step: usize = 0;
        while step < k
            invariant
                self.well_formed(),
                k < self@.len(),
                step <= k,
                cur == self.order@[step as int],
            decreases k - step,
        {
            let next = match &self.nodes[cur] {
                Some(node) => node.next,
                None => None,
            };
            cur = next.unwrap();
            step = step + 1;
        }
        cur
    }

    /// Appends `elem` after the tracked tail in constant time.
    pub fn push(&mut self, elem: T)
        requires
            old(self).well_formed(),
            old(self)@.len() < usize::MAX,
        ensures
            final(self).well_formed(),
            final(self)@ == old(self)@.push(elem),
    {
        let idx = self.alloc_node(Node { elem, next: None });
        if self.len == 0 {
            self.start = Some(idx);
            self.end = Some(idx);
        } else {
            let t = self.end.unwrap();
            let mut slot: Option<Node<T>> = None;
            self.nodes.set_and_swap(t, &mut slot);
            let tail_node = slot.unwrap();
            self.nodes.set(t, Some(Node { elem: tail_node.elem, next: Some(idx) }));
            self.end = Some(idx);
        }
        self.len = self.len + 1;
        self.order = Ghost(self.order@.push(idx));
        proof {
            assert(self.well_formed());
            assert(self@ =~= old(self)@.push(elem));
        }
    }

    /// Removes and returns the tail element, or reports the empty signal.
    /// Finding the new tail takes a full rescan from the head, since no
    /// backward links exist.
    pub fn pop(&mut self) -> (r: Option<T>)
        requires
            old(self).well_formed(),
        ensures
            final(self).well_formed(),
            old(self)@.len() == 0 ==> r is None && final(self)@ == old(self)@,
            old(self)@.len() > 0 ==> r == Some(old(self)@.last()) && final(self)@ == old(
                self,
            )@.drop_last(),
    {
        if self.len == 0 {
            return None;
        }
        let t = self.end.unwrap();
        if self.len == 1 {
            let mut slot: Option<Node<T>> = None;
            self.nodes.set_and_swap(t, &mut slot);
            self.free.push(t);
            self.start = None;
            self.end = None;
            self.len = 0;
            self.order = Ghost(Seq::empty());
            let node = slot.unwrap();
            proof {
                assert(self.well_formed());
                assert(self@ =~= old(self)@.drop_last());
            }
            Some(node.elem)
        } else {
            let p = self.node_at(self.len - 2);
            let mut slot: Option<Node<T>> = None;
            self.nodes.set_and_swap(t, &mut slot);
            self.free.push(t);
            let mut tail_slot: Option<Node<T>> = None;
            self.nodes.set_and_swap(p, &mut tail_slot);
            let new_tail = tail_slot.unwrap();
            self.nodes.set(p, Some(Node { elem: new_tail.elem, next: None }));
            self.end = Some(p);
            self.len = self.len - 1;
            self.order = Ghost(self.order@.drop_last());
            let node = slot.unwrap();
            proof {
                assert(self.well_formed());
                assert(self@ =~= old(self)@.drop_last());
            }
            Some(node.elem)
        }
    }

    /// Splices `elem` in at position `pos`: at the head for `pos == 0`,
    /// otherwise after the node at `pos - 1`, updating the tracked tail
    /// when the splice lands at the end; rejects a position beyond the
    /// length.
    #[verifier::rlimit(60)]
    pub fn insert(&mut self, pos: usize, elem: T) -> (r: Result<(), BoundsError>)
        requires
            old(self).well_formed(),
            old(self)@.len() < usize::MAX,
        ensures
            final(self).well_formed(),
            pos <= old(self)@.len() ==> r is Ok && final(self)@ == old(self)@.insert(
                pos as int,
                elem,
            ),
            pos > old(self)@.len() ==> r is Err && final(self)@ == old(self)@,
    {
        if pos > self.len {
            return Err(BoundsError);
        }
        if pos == 0 {
            let idx = self.alloc_node(Node { elem, next: self.start });
            if self.len == 0 {
                self.end = Some(idx);
            }
            self.start = Some(idx);
            self.len = self.len + 1;
            self.order = Ghost(self.order@.insert(0, idx));
            proof {
                assert(self.well_formed());
                assert(self@ =~= old(self)@.insert(0, elem));
            }
        } else {
            let p = self.node_at(pos - 1);
            let succ = match &self.nodes[p] {
                Some(node) => node.next,
                None => None,
            };
            let idx = self.alloc_node(Node { elem, next: succ });
            let mut prev_slot: Option<Node<T>> = None;
            self.nodes.set_and_swap(p, &mut prev_slot);
            let prev_node = prev_slot.unwrap();
            self.nodes.set(p, Some(Node { elem: prev_node.elem, next: Some(idx) }));
            if pos == self.len {
                self.end = Some(idx);
            }
            self.len = self.len + 1;
            self.order = Ghost(self.order@.insert(pos as int, idx));
            proof {
                assert(self.well_formed());
                assert(self@ =~= old(self)@.insert(pos as int, elem));
            }
        }
        Ok(())
    }

    /// Unlinks the head node and returns its value, or reports the empty
    /// signal; the freed slot goes back to the arena.
    fn take_front(&mut self) -> (r: Option<T>)
        requires
            old(self).well_formed(),
        ensures
            final(self).well_formed(),
            old(self)@.len() == 0 ==> r is None && final(self)@ == old(self)@,
            old(self)@.len() > 0 ==> r == Some(old(self)@.first()) && final(self)@ == old(
                self,
            )@.drop_first(),
    {
        if self.len == 0 {
            return None;
        }
        let h = self.start.unwrap();
        let mut slot: Option<Node<T>> = None;
        self.nodes.set_and_swap(h, &mut slot);
        self.free.push(h);
        let node = slot.unwrap();
        self.start = node.next;
        self.len = self.len - 1;
        if self.len == 0 {
            self.end = None;
        }
        self.order = Ghost(self.order@.drop_first());
        proof {
            assert(self.well_formed());
            assert(self@ =~= old(self)@.drop_first());
        }
        Some(node.elem)
    }

    /// Advances the head past the first node and frees it; a no-op on an
    /// empty list.
    pub fn remove_front(&mut self)
        requires
            old(self).well_formed(),
        ensures
            final(self).well_formed(),
            old(self)@.len() == 0 ==> final(self)@ == old(self)@,
            old(self)@.len() > 0 ==> final(self)@ == old(self)@.drop_first(),
    {
        let _front = self.take_front();
    }

    /// A borrowed view of the tail element, or the empty signal.
    pub fn last(&self) -> (r: Option<&T>)
        requires
            self.well_formed(),
        ensures
            self@.len() == 0 ==> r is None,
            self@.len() > 0 ==> (r matches Some(e) && *e == self@.last()),
    {
        match self.end {
            None => None,
            Some(t) => match &self.nodes[t] {
                Some(node) => Some(&node.elem),
                None => None,
            },
        }
    }

    /// Consumes the list, handing the whole chain to a [`IntoIter`]
    /// that yields the elements in insertion order.
    pub fn into_iter(self) -> (it: IntoIter<T>)
        requires
            self.well_formed(),
        ensures
            it.well_formed(),
            it@ == self@,
    {
        IntoIter { list: self }
    }
}

/// A consuming cursor over a [`LinkedList`]: owns the remaining chain and
/// yields each element by value, in insertion order, exactly once.
pub struct IntoIter<T> {
    list: LinkedList<T>,
}

impl<T> View for IntoIter<T> {
    type V = Seq<T>;

    closed spec fn view(&self) -> Seq<T> {
        self.list@
    }
}

impl<T> IntoIter<T> {
    /// The remaining chain is a well-formed list.
    pub closed spec fn well_formed(self) -> bool {
        self.list.well_formed()
    }

    /// Yields the next element of the chain, or the empty signal once the
    /// terminal marker is reached.
    pub fn next(&mut self) -> (r: Option<T>)
        requires
            old(self).well_formed(),
        ensures
            final(self).well_formed(),
            old(self)@.len() == 0 ==> r is None && final(self)@ == old(self)@,
            old(self)@.len() > 0 ==> r == Some(old(self)@.first()) && final(self)@ == old(
                self,
            )@.drop_first(),
    {
        self.list.take_front()
    }
}

} // verus!
