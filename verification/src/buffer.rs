//! The raw buffer manager: owns `cap` slots of element storage and nothing
//! else. A slot is either filled or uninitialized; the buffer itself has no
//! notion of which slots its owner considers occupied. It knows only how to
//! double its capacity on demand and how to move single elements into and
//! out of slots its owner points at.

use vstd::prelude::*;

use crate::growth::grow_limit;
use crate::growth::next_cap;

verus! {

/// A contiguous region of `cap` element slots. Uninitialized slots are
/// modelled as `None`: the owner may never read one as an element, and the
/// methods below enforce that with their contracts.
pub struct RawBuf<T> {
    slots: std::vec::Vec<Option<T>>,
}

impl<T> View for RawBuf<T> {
    type V = Seq<Option<T>>;

    closed spec fn view(&self) -> Seq<Option<T>> {
        self.slots@
    }
}

impl<T> RawBuf<T> {
    /// The number of allocated slots, occupied or not.
    pub open spec fn spec_cap(&self) -> nat {
        self@.len()
    }

    /// A fresh buffer owns no slots at all.
    pub fn new() -> (b: Self)
        ensures
            b@ =~= Seq::<Option<T>>::empty(),
    {
        RawBuf { slots: std::vec::Vec::new() }
    }

    /// The number of allocated slots, occupied or not.
    pub fn cap(&self) -> (c: usize)
        ensures
            c == self.spec_cap(),
    {
        self.slots.len()
    }

    /// Grows from no slots to one slot, and otherwise doubles the slot
    /// count. The contents of every existing slot are preserved and every
    /// new slot starts uninitialized. The caller must stay under the
    /// doubling limit; allocation failure itself aborts the process rather
    /// than report an error.
    pub fn grow(&mut self)
        requires
            old(self).spec_cap() <= grow_limit(),
        ensures
            final(self).spec_cap() == next_cap(old(self).spec_cap()),
            final(self)@.subrange(0, old(self)@.len() as int) =~= old(self)@,
            forall|i: int|
                old(self)@.len() <= i < final(self)@.len() ==> final(self)@[i] is None,
    {
        if self.slots.len() == 0 {
            self.slots.push(None);
            assert(self@.subrange(0, 0) =~= old(self)@);
        } else {
            let ghost orig: Seq<Option<T>> = self.slots@;
            let target: usize = self.slots.len() * 2;
            while self.slots.len() < target
                invariant
                    orig.len() >= 1,
                    target == 2 * orig.len(),
                    orig.len() <= self.slots@.len() <= target,
                    self.slots@.subrange(0, orig.len() as int) =~= orig,
                    forall|i: int|
                        orig.len() <= i < self.slots@.len() ==> self.slots@[i] is None,
                decreases target - self.slots.len(),
            {
                let ghost before: Seq<Option<T>> = self.slots@;
                self.slots.push(None);
                assert(self.slots@.subrange(0, orig.len() as int) =~= before.subrange(
                    0,
                    orig.len() as int,
                ));
            }
        }
    }

    /// Moves `v` into slot `i`, which must be uninitialized: nothing is
    /// overwritten or destructed by a put.
    pub fn put(&mut self, i: usize, v: T)
        requires
            i < old(self)@.len(),
            old(self)@[i as int] is None,
        ensures
            final(self)@ =~= old(self)@.update(i as int, Some(v)),
    {
        self.slots[i] = Some(v);
    }

    /// Moves the element out of slot `i`, which must be occupied; the slot
    /// is uninitialized afterwards.
    pub fn take(&mut self, i: usize) -> (r: T)
        requires
            i < old(self)@.len(),
            old(self)@[i as int] is Some,
        ensures
            r == old(self)@[i as int].unwrap(),
            final(self)@ =~= old(self)@.update(i as int, None),
    {
        let slot = &mut self.slots[i];
        let mut hole: Option<T> = None;
        core::mem::swap(slot, &mut hole);
        hole.unwrap()
    }

    /// Borrows the element in slot `i`, which must be occupied.
    pub fn read(&self, i: usize) -> (r: &T)
        requires
            i < self@.len(),
            self@[i as int] is Some,
        ensures
            *r == self@[i as int].unwrap(),
    {
        self.slots[i].as_ref().unwrap()
    }

    /// Replaces the element in slot `i`, which must be occupied; the old
    /// element is destructed.
    pub fn write(&mut self, i: usize, v: T)
        requires
            i < old(self)@.len(),
            old(self)@[i as int] is Some,
        ensures
            final(self)@ =~= old(self)@.update(i as int, Some(v)),
    {
        self.slots[i] = Some(v);
    }
}

} // verus!
