use std::collections::VecDeque;
use vstd::prelude::*;

verus! {

/// A lazy sequence that is pulled from its front, one item at a time.
pub trait Producer: Sized {
    type Item;

    /// What the producer's own state must satisfy for it to be pulled from.
    spec fn inv(&self) -> bool;

    /// The items that are still to come, in the order in which `next` yields them.
    spec fn remaining(&self) -> Seq<Self::Item>;

    /// Yields the first remaining item, or `None` once nothing remains.
    fn next(&mut self) -> (r: Option<Self::Item>)
        requires
            old(self).inv(),
        ensures
            final(self).inv(),
            old(self).remaining().len() == 0 ==> r is None && final(self).remaining()
                == old(self).remaining(),
            old(self).remaining().len() > 0 ==> r == Some(old(self).remaining().first())
                && final(self).remaining() == old(self).remaining().drop_first(),
    ;
}

/// A lazy sequence that can also be pulled from its back.
pub trait BackProducer: Producer {
    /// Yields the last remaining item, or `None` once nothing remains.
    fn next_back(&mut self) -> (r: Option<Self::Item>)
        requires
            old(self).inv(),
        ensures
            final(self).inv(),
            old(self).remaining().len() == 0 ==> r is None && final(self).remaining()
                == old(self).remaining(),
            old(self).remaining().len() > 0 ==> r == Some(old(self).remaining().last())
                && final(self).remaining() == old(self).remaining().drop_last(),
    ;
}

/// A value that can be turned into a producer of its items.
pub trait IntoProducer: Sized {
    type Prod: Producer;

    /// What the value must satisfy for a producer to be made from it.
    spec fn valid(self) -> bool;

    /// The items that the producer made from this value yields, in order.
    spec fn items(self) -> Seq<<Self::Prod as Producer>::Item>;

    /// Makes the producer. Nothing has been pulled from it yet.
    fn into_producer(self) -> (p: Self::Prod)
        requires
            self.valid(),
        ensures
            p.inv(),
            p.remaining() == self.items(),
    ;
}

/// Every producer is the producer of its own remaining items.
impl<P: Producer> IntoProducer for P {
    type Prod = P;

    open spec fn valid(self) -> bool {
        self.inv()
    }

    open spec fn items(self) -> Seq<P::Item> {
        self.remaining()
    }

    fn into_producer(self) -> (p: P) {
        self
    }
}

/// An optional value yields the value that it holds, if any, and nothing after it.
impl<T> Producer for Option<T> {
    type Item = T;

    open spec fn inv(&self) -> bool {
        true
    }

    open spec fn remaining(&self) -> Seq<T> {
        match *self {
            Some(x) => seq![x],
            None => Seq::empty(),
        }
    }

    fn next(&mut self) -> (r: Option<T>) {
        self.take()
    }
}

impl<T> BackProducer for Option<T> {
    fn next_back(&mut self) -> (r: Option<T>) {
        self.take()
    }
}

/// A producer over an owned buffer. The items leave it by move, from either end, in
/// the order in which the buffer held them.
pub struct Buffered<T> {
    items: VecDeque<T>,
}

impl<T> Producer for Buffered<T> {
    type Item = T;

    open spec fn inv(&self) -> bool {
        true
    }

    closed spec fn remaining(&self) -> Seq<T> {
        self.items@
    }

    fn next(&mut self) -> (r: Option<T>) {
        self.items.pop_front()
    }
}

impl<T> BackProducer for Buffered<T> {
    fn next_back(&mut self) -> (r: Option<T>) {
        self.items.pop_back()
    }
}

/// A vector yields its elements from the first to the last.
impl<T> IntoProducer for Vec<T> {
    type Prod = Buffered<T>;

    open spec fn valid(self) -> bool {
        true
    }

    open spec fn items(self) -> Seq<T> {
        self@
    }

    fn into_producer(self) -> (p: Buffered<T>) {
        let mut v = self;
        let mut items: VecDeque<T> = VecDeque::new();
        while v.len() > 0
            invariant
                v@ + items@ == self@,
            decreases v.len(),
        {
            let x = v.pop().unwrap();
            items.push_front(x);
        }
        Buffered { items }
    }
}

} // verus!
