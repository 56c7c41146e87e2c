use vstd::prelude::*;

pub mod consume;
pub mod extension;
pub mod flat_map;
pub mod iter;
pub mod laws;
pub mod mapped;
pub mod model;
pub mod producer;
pub mod range;
pub mod transform;

use crate::model::{lemma_pull_back_pops, lemma_pull_front_pops, Pending};
use crate::producer::{BackProducer, IntoProducer, Producer};

verus! {

/// The item sequences of the groups that an outer producer has still to yield.
pub open spec fn group_items<G: IntoProducer>(groups: Seq<G>) -> Seq<
    Seq<<G::Prod as Producer>::Item>,
> {
    groups.map_values(|g: G| g.items())
}

/// Every group of `groups` can be turned into a producer.
pub open spec fn groups_valid<G: IntoProducer>(groups: Seq<G>) -> bool {
    forall|i: int| 0 <= i < groups.len() ==> (#[trigger] groups[i]).valid()
}

/// Flattens anything that can be turned into a producer of groups: the result yields
/// the items of the first group in their order, then those of the second, and so on.
/// No group is opened before the result is pulled from.
pub fn flatten<I>(iter: I) -> (flat: Flatten<I::Prod>) where
    I: IntoProducer,
    <I::Prod as Producer>::Item: IntoProducer,

    requires
        iter.valid(),
        groups_valid(iter.items()),
    ensures
        flat.inv(),
        flat.pending() == Pending::fresh(group_items(iter.items())),
        flat.remaining() == group_items(iter.items()).flatten(),
{
    Flatten::new(iter.into_producer())
}

/// Yields the items of every group of an outer producer, in order, from either end.
///
/// Nothing is stored but the outer producer and the two groups that are open at the
/// moment, one at each end.
pub struct Flatten<O> where O: Producer, O::Item: IntoProducer {
    outer: O,
    inner: Option<<O::Item as IntoProducer>::Prod>,
    inner_back: Option<<O::Item as IntoProducer>::Prod>,
}

impl<O> Flatten<O> where O: Producer, O::Item: IntoProducer {
    /// What the traversal has still to yield.
    pub closed spec fn pending(&self) -> Pending<
        <<O::Item as IntoProducer>::Prod as Producer>::Item,
    > {
        Pending {
            front: match self.inner {
                Some(p) => p.remaining(),
                None => Seq::empty(),
            },
            groups: group_items(self.outer.remaining()),
            back: match self.inner_back {
                Some(p) => p.remaining(),
                None => Seq::empty(),
            },
        }
    }

    /// A traversal of the groups of `outer` that has opened no group yet.
    pub fn new(outer: O) -> (flat: Self)
        requires
            outer.inv(),
            groups_valid(outer.remaining()),
        ensures
            flat.inv(),
            flat.pending() == Pending::fresh(group_items(outer.remaining())),
            flat.remaining() == group_items(outer.remaining()).flatten(),
    {
        let flat = Self { outer, inner: None, inner_back: None };
        flat
    }
}

impl<O> Producer for Flatten<O> where O: Producer, O::Item: IntoProducer {
    type Item = <<O::Item as IntoProducer>::Prod as Producer>::Item;

    closed spec fn inv(&self) -> bool {
        &&& self.outer.inv()
        &&& groups_valid(self.outer.remaining())
        &&& self.inner matches Some(p) ==> p.inv()
        &&& self.inner_back matches Some(p) ==> p.inv()
    }

    open spec fn remaining(&self) -> Seq<Self::Item> {
        self.pending().flat()
    }

    /// Yields the next item in forward order, or `None` when none is left.
    ///
    /// The group open at the front is drained first. After it, groups are pulled from
    /// the front of the outer producer and opened, one at a time, until one yields an
    /// item. When the outer producer has none left, the item comes from the front of
    /// the group open at the back.
    fn next(&mut self) -> (r: Option<Self::Item>)
        ensures
            (r, final(self).pending()) == old(self).pending().pull_front(),
    {
        loop
            invariant
                self.inv(),
                self.pending().pull_front() == old(self).pending().pull_front(),
            decreases self.outer.remaining().len(),
        {
            let ghost start = self.pending();
            if let Some(inner) = &mut self.inner {
                if let Some(v) = inner.next() {
                    proof {
                        lemma_pull_front_pops(old(self).pending());
                    }
                    return Some(v);
                }
                self.inner = None;
            }
            assert(self.pending().front =~= start.front);
            let ghost groups = self.outer.remaining();
            match self.outer.next() {
                Some(group) => {
                    assert(group_items(groups).drop_first() =~= group_items(
                        self.outer.remaining(),
                    ));
                    self.inner = Some(group.into_producer());
                },
                None => {
                    proof {
                        lemma_pull_front_pops(old(self).pending());
                    }
                    return match &mut self.inner_back {
                        Some(back) => back.next(),
                        None => None,
                    };
                },
            }
        }
    }
}

impl<O> BackProducer for Flatten<O> where
    O: BackProducer,
    O::Item: IntoProducer,
    <O::Item as IntoProducer>::Prod: BackProducer,
 {
    /// Yields the next item in backward order, or `None` when none is left.
    ///
    /// The group open at the back is drained first, from its back. After it, groups are
    /// pulled from the back of the outer producer and opened, one at a time, until one
    /// yields an item. When the outer producer has none left, the item comes from the
    /// back of the group open at the front.
    fn next_back(&mut self) -> (r: Option<Self::Item>)
        ensures
            (r, final(self).pending()) == old(self).pending().pull_back(),
    {
        loop
            invariant
                self.inv(),
                self.pending().pull_back() == old(self).pending().pull_back(),
            decreases self.outer.remaining().len(),
        {
            let ghost start = self.pending();
            if let Some(inner) = &mut self.inner_back {
                if let Some(v) = inner.next_back() {
                    proof {
                        lemma_pull_back_pops(old(self).pending());
                    }
                    return Some(v);
                }
                self.inner_back = None;
            }
            assert(self.pending().back =~= start.back);
            let ghost groups = self.outer.remaining();
            match self.outer.next_back() {
                Some(group) => {
                    assert(group_items(groups).drop_last() =~= group_items(
                        self.outer.remaining(),
                    ));
                    self.inner_back = Some(group.into_producer());
                },
                None => {
                    proof {
                        lemma_pull_back_pops(old(self).pending());
                    }
                    return match &mut self.inner {
                        Some(front) => front.next_back(),
                        None => None,
                    };
                },
            }
        }
    }
}

} // verus!
