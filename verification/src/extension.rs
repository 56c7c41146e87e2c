use crate::model::Pending;
use crate::producer::{IntoProducer, Producer};
use crate::{group_items, groups_valid, Flatten};
use vstd::prelude::*;

verus! {

/// Method syntax for flattening: `outer.flat_it()` is `Flatten::new(outer)`.
pub trait IteratorExt: Producer {
    fn flat_it(self) -> (flat: Flatten<Self>) where Self: Sized, Self::Item: IntoProducer
        requires
            self.inv(),
            groups_valid(self.remaining()),
        ensures
            flat.inv(),
            flat.pending() == Pending::fresh(group_items(self.remaining())),
            flat.remaining() == group_items(self.remaining()).flatten(),
    ;
}

impl<T> IteratorExt for T where T: Producer + Sized {
    fn flat_it(self) -> (flat: Flatten<Self>) where Self::Item: IntoProducer {
        Flatten::new(self)
    }
}

} // verus!
