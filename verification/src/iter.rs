use vstd::prelude::*;

verus! {

/// An owned buffer with two walks of its own: one that lends each element for change,
/// and one that hands out clones.
pub struct MyVec<T>(pub Vec<T>);

impl<T> MyVec<T> {
    /// Walks the buffer from its first element, lending each element for change.
    ///
    /// The walk starts with all elements unlent. When it has ended, the buffer holds
    /// what the walk and the borrowers have left in its elements.
    pub fn iter_mut<'a>(&'a mut self) -> (it: IterMut<'a, T>)
        ensures
            it.remaining() == old(self).0@,
            final(self).0@ == final(it.rest)@,
    {
        IterMut { rest: self.0.as_mut_slice() }
    }
}

/// A walk that lends the elements of a buffer for change, one after the other, each
/// element once.
pub struct IterMut<'a, T> {
    /// The part of the buffer that has not been lent yet.
    pub rest: &'a mut [T],
}

impl<'a, T> IterMut<'a, T> {
    /// The elements not lent yet, as they are now.
    pub open spec fn remaining(&self) -> Seq<T> {
        self.rest@
    }

    /// Lends the first element that has not been lent yet, or returns `None` when all
    /// have been.
    ///
    /// The element lent holds what it held in the buffer. In the end the part that was
    /// unlent before the call holds what the borrower leaves in that element, followed
    /// by what becomes of the part that is unlent after the call.
    pub fn next(&mut self) -> (r: Option<&'a mut T>)
        ensures
            old(self).remaining().len() == 0 ==> r is None && final(self).remaining() == old(
                self,
            ).remaining() && final(old(self).rest)@ == old(self).remaining(),
            old(self).remaining().len() > 0 ==> r is Some && *r.unwrap() == old(
                self,
            ).remaining().first() && final(self).remaining() == old(self).remaining().drop_first()
                && final(old(self).rest)@ == seq![*final(r.unwrap())] + final(final(self).rest)@,
    {
        let mut slice: &'a mut [T] = &mut [];
        core::mem::swap(&mut self.rest, &mut slice);
        if slice.len() == 0 {
            return None;
        }
        let (head, tail) = slice.split_at_mut(1);
        self.rest = tail;
        head.first_mut()
    }
}

impl<T: Clone> MyVec<T> {
    /// Walks a copy of the buffer from its first element, handing out a clone of each
    /// element in turn. The copy holds a clone of each element of the buffer.
    pub fn into_iter(self) -> (it: MyIntoIter<T>)
        ensures
            it.index() == 0,
            it.items().len() == self.0@.len(),
            forall|i: int| 0 <= i < self.0@.len() ==> cloned(self.0@[i], #[trigger] it.items()[i]),
    {
        MyIntoIter { inner: self.0.clone(), index: 0 }
    }
}

/// A walk over an owned buffer by index. It hands out clones; the buffer itself is
/// never changed.
pub struct MyIntoIter<T> where T: Clone {
    inner: Vec<T>,
    index: usize,
}

impl<T: Clone> MyIntoIter<T> {
    /// The elements of the buffer, walked or not.
    pub closed spec fn items(&self) -> Seq<T> {
        self.inner@
    }

    /// How many elements the walk has handed out.
    pub closed spec fn index(&self) -> nat {
        self.index as nat
    }

    #[verifier::type_invariant]
    spec fn within(&self) -> bool {
        self.index <= self.inner@.len()
    }

    /// Hands out a clone of the element at the walk's position and moves on, or `None`
    /// at the end of the buffer.
    pub fn next(&mut self) -> (r: Option<T>)
        ensures
            final(self).items() == old(self).items(),
            old(self).index() >= old(self).items().len() ==> r is None && final(self).index()
                == old(self).index(),
            old(self).index() < old(self).items().len() ==> r is Some && cloned(
                old(self).items()[old(self).index() as int],
                r.unwrap(),
            ) && final(self).index() == old(self).index() + 1,
    {
        proof {
            use_type_invariant(&*self);
        }
        if self.index >= self.inner.len() {
            None
        } else {
            self.index += 1;
            Some(self.inner[self.index - 1].clone())
        }
    }
}

} // verus!
