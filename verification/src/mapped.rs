use crate::producer::{BackProducer, Producer};
use crate::transform::{callable_all, computes_all, image_of};
use vstd::prelude::*;

verus! {

/// A producer whose items are those of another, each passed through a function at the
/// moment it is pulled.
#[verifier::reject_recursive_types(P)]
#[verifier::reject_recursive_types(B)]
pub struct Mapped<P, B, F> where P: Producer, F: FnMut(P::Item) -> B {
    iter: P,
    f: F,
    model: Ghost<spec_fn(P::Item) -> B>,
}

impl<P, B, F> Mapped<P, B, F> where P: Producer, F: FnMut(P::Item) -> B {
    /// The items of the underlying producer that have not been pulled yet.
    pub closed spec fn source(&self) -> Seq<P::Item> {
        self.iter.remaining()
    }

    /// The function that is applied to each item.
    pub closed spec fn transform(&self) -> F {
        self.f
    }

    /// What the function is taken to return for each argument. It says what the
    /// producer yields as far as the function computes it; see `settled`.
    pub closed spec fn model(&self) -> spec_fn(P::Item) -> B {
        self.model@
    }

    /// The producer can be pulled from: the function may be called on every item that
    /// is left.
    pub closed spec fn ready(&self) -> bool {
        &&& self.iter.inv()
        &&& callable_all(self.f, self.iter.remaining())
    }

    /// Whatever the function returns for an item that is left is what the model gives
    /// for it.
    pub open spec fn settled(&self) -> bool {
        computes_all(self.transform(), self.model(), self.source())
    }

    /// Maps with `f`. The model gives, for each item, a result that the contract of `f`
    /// allows for it.
    pub fn new(iter: P, f: F) -> (mapped: Self)
        requires
            iter.inv(),
            callable_all(f, iter.remaining()),
        ensures
            mapped.ready(),
            mapped.source() == iter.remaining(),
            mapped.transform() == f,
            mapped.model() == image_of(f),
            mapped.inv() <==> mapped.settled(),
            mapped.remaining() == mapped.source().map_values(mapped.model()),
    {
        Mapped { iter, f, model: Ghost(image_of(f)) }
    }

    /// Maps with a function that is known to compute `model`.
    pub fn with_model(iter: P, f: F, model: Ghost<spec_fn(P::Item) -> B>) -> (mapped: Self)
        requires
            iter.inv(),
            callable_all(f, iter.remaining()),
            computes_all(f, model@, iter.remaining()),
        ensures
            mapped.ready(),
            mapped.inv(),
            mapped.source() == iter.remaining(),
            mapped.transform() == f,
            mapped.model() == model@,
            mapped.remaining() == mapped.source().map_values(mapped.model()),
    {
        Mapped { iter, f, model }
    }

    /// Pulls the next item of the underlying producer and returns what the function
    /// makes of it. The function is called once, on that item, and not at all where
    /// no item is left.
    pub fn next(&mut self) -> (r: Option<B>)
        requires
            old(self).ready(),
        ensures
            final(self).ready(),
            final(self).transform() == old(self).transform(),
            final(self).model() == old(self).model(),
            old(self).source().len() == 0 ==> r is None && final(self).source() == old(
                self,
            ).source(),
            old(self).source().len() > 0 ==> r is Some && final(self).source() == old(
                self,
            ).source().drop_first() && call_ensures(
                old(self).transform(),
                (old(self).source().first(),),
                r.unwrap(),
            ),
            old(self).settled() ==> final(self).settled() && (r matches Some(b) ==> b == (old(
                self,
            ).model())(old(self).source().first())),
            final(self).inv() <==> final(self).settled(),
            final(self).remaining() == final(self).source().map_values(final(self).model()),
    {
        match self.iter.next() {
            Some(x) => {
                Some((self.f)(x))
            },
            None => None,
        }
    }
}

impl<P, B, F> Mapped<P, B, F> where P: BackProducer, F: FnMut(P::Item) -> B {
    /// Pulls the last item of the underlying producer and returns what the function
    /// makes of it. The function is called once, on that item, and not at all where
    /// no item is left.
    pub fn next_back(&mut self) -> (r: Option<B>)
        requires
            old(self).ready(),
        ensures
            final(self).ready(),
            final(self).transform() == old(self).transform(),
            final(self).model() == old(self).model(),
            old(self).source().len() == 0 ==> r is None && final(self).source() == old(
                self,
            ).source(),
            old(self).source().len() > 0 ==> r is Some && final(self).source() == old(
                self,
            ).source().drop_last() && call_ensures(
                old(self).transform(),
                (old(self).source().last(),),
                r.unwrap(),
            ),
            old(self).settled() ==> final(self).settled() && (r matches Some(b) ==> b == (old(
                self,
            ).model())(old(self).source().last())),
            final(self).inv() <==> final(self).settled(),
            final(self).remaining() == final(self).source().map_values(final(self).model()),
    {
        match self.iter.next_back() {
            Some(x) => {
                Some((self.f)(x))
            },
            None => None,
        }
    }
}

impl<P, B, F> Producer for Mapped<P, B, F> where P: Producer, F: FnMut(P::Item) -> B {
    type Item = B;

    open spec fn inv(&self) -> bool {
        self.ready() && self.settled()
    }

    open spec fn remaining(&self) -> Seq<B> {
        self.source().map_values(self.model())
    }

    fn next(&mut self) -> (r: Option<B>) {
        Mapped::next(self)
    }
}

impl<P, B, F> BackProducer for Mapped<P, B, F> where P: BackProducer, F: FnMut(P::Item) -> B {
    fn next_back(&mut self) -> (r: Option<B>) {
        Mapped::next_back(self)
    }
}

} // verus!
