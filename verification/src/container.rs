//! The sequence container and its consuming iterator. The container owns
//! exactly one raw buffer plus a logical length: slots below the length
//! boundary hold live elements, slots above it are uninitialized. The
//! consuming iterator takes the buffer over and drains the live region from
//! either end.
//!
//! Destruction needs no code of its own here: dropping a container or a
//! partially drained iterator destructs exactly the elements still held in
//! filled slots and then releases the buffer once, because every element
//! lives in exactly one slot and the buffer is owned by exactly one of the
//! two at any time.

use vstd::prelude::*;

use crate::buffer::RawBuf;
use crate::growth::grow_limit;
use crate::growth::next_cap;

verus! {

/// A growable, contiguously stored sequence of elements. The view is the
/// sequence of live elements, in index order.
pub struct Vec<T> {
    buf: RawBuf<T>,
    len: usize,
}

impl<T> View for Vec<T> {
    type V = Seq<T>;

    closed spec fn view(&self) -> Seq<T> {
        Seq::new(self.len as nat, |i: int| self.buf@[i].unwrap())
    }
}

impl<T> Vec<T> {
    /// The number of allocated slots, occupied or not.
    pub closed spec fn spec_cap(&self) -> nat {
        self.buf.spec_cap()
    }

    /// The container's invariant: the length never exceeds the capacity,
    /// every slot below the length boundary holds a live element, and every
    /// slot at or above it is uninitialized.
    pub closed spec fn wf(&self) -> bool {
        &&& self.len <= self.buf.spec_cap()
        &&& forall|i: int| 0 <= i < self.len ==> (#[trigger] self.buf@[i]) is Some
        &&& forall|i: int|
            self.len <= i < self.buf@.len() ==> (#[trigger] self.buf@[i]) is None
    }

    /// An operation that may have to grow a full buffer stays under the
    /// doubling limit; with spare capacity nothing is demanded.
    pub open spec fn can_grow(&self) -> bool {
        self@.len() == self.spec_cap() ==> self.spec_cap() <= grow_limit()
    }

    /// Length law: in a well-formed container the number of live elements
    /// never exceeds the number of allocated slots.
    pub proof fn lemma_len_le_cap(&self)
        requires
            self.wf(),
        ensures
            self@.len() <= self.spec_cap(),
    {
    }

    /// An empty container with no allocation at all.
    pub fn new() -> (v: Self)
        ensures
            v.wf(),
            v@ =~= Seq::<T>::empty(),
            v.spec_cap() == 0,
    {
        Vec { buf: RawBuf::new(), len: 0 }
    }

    /// The number of live elements.
    pub fn len(&self) -> (n: usize)
        ensures
            n == self@.len(),
    {
        self.len
    }

    /// The number of allocated slots.
    pub fn capacity(&self) -> (c: usize)
        ensures
            c == self.spec_cap(),
    {
        self.buf.cap()
    }

    /// Appends `elem` after the last live element, growing the buffer first
    /// when it is full. The capacity is untouched unless the container was
    /// full, in which case it takes exactly the next step of the doubling
    /// policy.
    pub fn push(&mut self, elem: T)
        requires
            old(self).wf(),
            old(self).can_grow(),
        ensures
            final(self).wf(),
            final(self)@ =~= old(self)@.push(elem),
            final(self).spec_cap() == if old(self)@.len() == old(self).spec_cap() {
                next_cap(old(self).spec_cap())
            } else {
                old(self).spec_cap()
            },
    {
        if self.len == self.buf.cap() {
            let ghost before: Seq<Option<T>> = self.buf@;
            self.buf.grow();
            proof {
                assert forall|i: int| 0 <= i < before.len() implies self.buf@[i] == before[i] by {
                    assert(self.buf@.subrange(0, before.len() as int)[i] == before[i]);
                }
            }
        }
        self.buf.put(self.len, elem);
        self.len = self.len + 1;
        proof {
            assert forall|i: int| 0 <= i < self.len implies (#[trigger] self.buf@[i]) is Some by {
                if i < self.len - 1 {
                    assert(old(self).buf@[i] is Some);
                }
            }
        }
        assert(self@ =~= old(self)@.push(elem));
    }

    /// Removes and returns the last live element, or nothing when the
    /// container is empty. The capacity never shrinks.
    pub fn pop(&mut self) -> (r: Option<T>)
        requires
            old(self).wf(),
        ensures
            final(self).wf(),
            final(self).spec_cap() == old(self).spec_cap(),
            old(self)@.len() == 0 ==> r is None && final(self)@ =~= old(self)@,
            old(self)@.len() > 0 ==> r == Some(old(self)@.last()) && final(self)@ =~= old(
                self,
            )@.drop_last(),
    {
        if self.len == 0 {
            None
        } else {
            self.len = self.len - 1;
            let v = self.buf.take(self.len);
            assert(self@ =~= old(self)@.drop_last());
            Some(v)
        }
    }

    /// Places `elem` at position `index`, growing a full buffer first and
    /// then shifting the elements from `index` on one slot to the right to
    /// open a hole. Inserting at the length boundary degrades to a pure
    /// append.
    pub fn insert(&mut self, index: usize, elem: T)
        requires
            old(self).wf(),
            index <= old(self)@.len(),
            old(self).can_grow(),
        ensures
            final(self).wf(),
            final(self)@ =~= old(self)@.insert(index as int, elem),
            final(self).spec_cap() == if old(self)@.len() == old(self).spec_cap() {
                next_cap(old(self).spec_cap())
            } else {
                old(self).spec_cap()
            },
    {
        if self.len == self.buf.cap() {
            let ghost before: Seq<Option<T>> = self.buf@;
            self.buf.grow();
            proof {
                assert forall|i: int| 0 <= i < before.len() implies self.buf@[i] == before[i] by {
                    assert(self.buf@.subrange(0, before.len() as int)[i] == before[i]);
                }
            }
        }
        let ghost live: Seq<T> = old(self)@;
        let ghost cap1: nat = self.buf.spec_cap();
        let mut j: usize = self.len;
        while j > index
            invariant
                index <= j <= self.len,
                self.len < cap1,
                live.len() == self.len,
                self.buf.spec_cap() == cap1,
                forall|i: int| 0 <= i < j ==> (#[trigger] self.buf@[i]) == Some(live[i]),
                self.buf@[j as int] is None,
                forall|i: int| j < i <= self.len ==> (#[trigger] self.buf@[i]) == Some(live[i - 1]),
                forall|i: int| self.len < i < cap1 ==> (#[trigger] self.buf@[i]) is None,
            decreases j,
        {
            let v = self.buf.take(j - 1);
            self.buf.put(j, v);
            j = j - 1;
        }
        self.buf.put(index, elem);
        self.len = self.len + 1;
        assert(self@ =~= live.insert(index as int, elem));
    }

    /// Moves the element at position `index` out and returns it, shifting
    /// the elements after it one slot to the left to close the hole.
    /// Removing the last element degrades to a pure pop.
    pub fn remove(&mut self, index: usize) -> (r: T)
        requires
            old(self).wf(),
            index < old(self)@.len(),
        ensures
            final(self).wf(),
            final(self).spec_cap() == old(self).spec_cap(),
            r == old(self)@[index as int],
            final(self)@ =~= old(self)@.remove(index as int),
    {
        let ghost live: Seq<T> = old(self)@;
        let ghost cap0: nat = self.buf.spec_cap();
        let result = self.buf.take(index);
        let mut j: usize = index;
        while j + 1 < self.len
            invariant
                index <= j < self.len,
                live.len() == self.len,
                self.buf.spec_cap() == cap0,
                self.len <= cap0,
                forall|i: int| 0 <= i < index ==> (#[trigger] self.buf@[i]) == Some(live[i]),
                forall|i: int| index <= i < j ==> (#[trigger] self.buf@[i]) == Some(live[i + 1]),
                self.buf@[j as int] is None,
                forall|i: int| j < i < self.len ==> (#[trigger] self.buf@[i]) == Some(live[i]),
                forall|i: int| self.len <= i < cap0 ==> (#[trigger] self.buf@[i]) is None,
            decreases self.len - j,
        {
            let v = self.buf.take(j + 1);
            self.buf.put(j, v);
            j = j + 1;
        }
        self.len = self.len - 1;
        assert(self@ =~= live.remove(index as int));
        result
    }

    /// Borrows the live element at position `index`: the read half of the
    /// container's view of its occupied region.
    pub fn get(&self, index: usize) -> (r: &T)
        requires
            self.wf(),
            index < self@.len(),
        ensures
            *r == self@[index as int],
    {
        self.buf.read(index)
    }

    /// Replaces the live element at position `index`, destructing the old
    /// one: the write half of the container's view of its occupied region.
    pub fn set(&mut self, index: usize, elem: T)
        requires
            old(self).wf(),
            index < old(self)@.len(),
        ensures
            final(self).wf(),
            final(self).spec_cap() == old(self).spec_cap(),
            final(self)@ =~= old(self)@.update(index as int, elem),
    {
        self.buf.write(index, elem);
        assert(self@ =~= old(self)@.update(index as int, elem));
    }

    /// Consumes the container and hands its buffer and live region to a
    /// one-shot draining iterator. The container is moved out of, so it can
    /// be neither used again nor separately destroyed.
    pub fn into_iter(self) -> (it: IntoIter<T>)
        requires
            self.wf(),
        ensures
            it.wf(),
            it.elems() == self@,
            it@ =~= self@,
            it.spec_taken_front() == 0,
            it.spec_taken_back() == 0,
    {
        let ghost contents: Seq<T> = self@;
        let Vec { buf, len } = self;
        let it = IntoIter { buf, start: 0, end: len, all: Ghost(contents) };
        assert(it@ =~= contents);
        it
    }
}

/// A one-shot consuming iterator over a container's elements. Two cursors
/// delimit the not-yet-yielded range and narrow toward each other; the view
/// is the remaining range, in original order.
pub struct IntoIter<T> {
    buf: RawBuf<T>,
    start: usize,
    end: usize,
    all: Ghost<Seq<T>>,
}

impl<T> View for IntoIter<T> {
    type V = Seq<T>;

    closed spec fn view(&self) -> Seq<T> {
        if self.start <= self.end {
            Seq::new((self.end - self.start) as nat, |i: int| self.buf@[self.start + i].unwrap())
        } else {
            Seq::empty()
        }
    }
}

impl<T> IntoIter<T> {
    /// The full sequence the iterator was created over, before any takes.
    pub closed spec fn elems(&self) -> Seq<T> {
        self.all@
    }

    /// How many elements forward takes have yielded so far.
    pub closed spec fn spec_taken_front(&self) -> nat {
        self.start as nat
    }

    /// How many elements backward takes have yielded so far.
    pub closed spec fn spec_taken_back(&self) -> nat {
        if self.end <= self.all@.len() {
            (self.all@.len() - self.end) as nat
        } else {
            0
        }
    }

    /// The iterator's invariant: the cursors delimit a range inside the
    /// transferred buffer, and every slot in that range still holds the
    /// element the original sequence had at the same position.
    pub closed spec fn wf(&self) -> bool {
        &&& self.start <= self.end <= self.all@.len() <= self.buf@.len()
        &&& forall|i: int|
            self.start <= i < self.end ==> (#[trigger] self.buf@[i]) == Some(self.all@[i])
    }

    /// The remaining range is exactly the original sequence with the
    /// forward-taken prefix and the backward-taken suffix cut off.
    pub proof fn lemma_remaining_is_infix(&self)
        requires
            self.wf(),
        ensures
            self@ =~= self.elems().subrange(
                self.spec_taken_front() as int,
                self.elems().len() - self.spec_taken_back(),
            ),
    {
    }

    /// The original sequence splits into the forward-taken prefix, the
    /// remaining range, and the backward-taken suffix: forward and backward
    /// takes partition it with no gaps and no duplicates.
    pub proof fn lemma_partition(&self)
        requires
            self.wf(),
        ensures
            self.elems() =~= self.elems().subrange(0, self.spec_taken_front() as int) + self@
                + self.elems().subrange(
                self.elems().len() - self.spec_taken_back(),
                self.elems().len() as int,
            ),
    {
        self.lemma_remaining_is_infix();
    }

    /// Takes the first remaining element, or nothing once the cursors have
    /// met. A yielded element is always the original element at the position
    /// right after the forward-taken prefix.
    pub fn next(&mut self) -> (r: Option<T>)
        requires
            old(self).wf(),
        ensures
            final(self).wf(),
            final(self).elems() == old(self).elems(),
            old(self)@.len() == 0 ==> r is None && *final(self) == *old(self),
            old(self)@.len() > 0 ==> r == Some(old(self)@.first()),
            old(self)@.len() > 0 ==> r == Some(
                old(self).elems()[old(self).spec_taken_front() as int],
            ),
            old(self)@.len() > 0 ==> final(self)@ =~= old(self)@.drop_first(),
            old(self)@.len() > 0 ==> final(self).spec_taken_front() == old(
                self,
            ).spec_taken_front() + 1,
            final(self).spec_taken_back() == old(self).spec_taken_back(),
    {
        if self.start == self.end {
            None
        } else {
            let v = self.buf.take(self.start);
            self.start = self.start + 1;
            assert(self@ =~= old(self)@.drop_first());
            Some(v)
        }
    }

    /// Takes the last remaining element, or nothing once the cursors have
    /// met. A yielded element is always the original element at the position
    /// right before the backward-taken suffix.
    pub fn next_back(&mut self) -> (r: Option<T>)
        requires
            old(self).wf(),
        ensures
            final(self).wf(),
            final(self).elems() == old(self).elems(),
            old(self)@.len() == 0 ==> r is None && *final(self) == *old(self),
            old(self)@.len() > 0 ==> r == Some(old(self)@.last()),
            old(self)@.len() > 0 ==> r == Some(
                old(self).elems()[old(self).elems().len() - 1 - old(self).spec_taken_back()],
            ),
            old(self)@.len() > 0 ==> final(self)@ =~= old(self)@.drop_last(),
            old(self)@.len() > 0 ==> final(self).spec_taken_back() == old(
                self,
            ).spec_taken_back() + 1,
            final(self).spec_taken_front() == old(self).spec_taken_front(),
    {
        if self.start == self.end {
            None
        } else {
            self.end = self.end - 1;
            let v = self.buf.take(self.end);
            assert(self@ =~= old(self)@.drop_last());
            Some(v)
        }
    }

    /// Reports the exact number of elements still to be yielded, as both
    /// the lower and the upper bound.
    pub fn size_hint(&self) -> (r: (usize, Option<usize>))
        requires
            self.wf(),
        ensures
            r.0 == self@.len(),
            r.1 == Some(r.0),
    {
        let n = self.end - self.start;
        (n, Some(n))
    }
}

} // verus!
