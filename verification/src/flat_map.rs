use crate::group_items;
use crate::model::{lemma_pull_front_pops, Pending};
use crate::producer::{IntoProducer, Producer};
use crate::transform::image;
use vstd::prelude::*;

verus! {

/// `f` may be called on `x`, and every group that it may return can be turned into a
/// producer.
pub open spec fn accepts<X, U: IntoProducer, F: FnMut(X) -> U>(f: F, x: X) -> bool {
    &&& call_requires(f, (x,))
    &&& forall|u: U| #[trigger] call_ensures(f, (x,), u) ==> u.valid()
}

/// `f` accepts every value of `xs`.
pub open spec fn accepts_all<X, U: IntoProducer, F: FnMut(X) -> U>(f: F, xs: Seq<X>) -> bool {
    forall|i: int| 0 <= i < xs.len() ==> accepts(f, #[trigger] xs[i])
}

/// Every group that `f` may return for `x` holds the items `g(x)`.
pub open spec fn yields<X, U: IntoProducer, F: FnMut(X) -> U>(
    f: F,
    g: spec_fn(X) -> Seq<<U::Prod as Producer>::Item>,
    x: X,
) -> bool {
    forall|u: U| #[trigger] call_ensures(f, (x,), u) ==> u.items() == g(x)
}

/// `f` yields `g` on every value of `xs`.
pub open spec fn yields_all<X, U: IntoProducer, F: FnMut(X) -> U>(
    f: F,
    g: spec_fn(X) -> Seq<<U::Prod as Producer>::Item>,
    xs: Seq<X>,
) -> bool {
    forall|i: int| 0 <= i < xs.len() ==> yields(f, g, #[trigger] xs[i])
}

/// The items of the group that the contract of `f` allows for each argument.
pub open spec fn image_items<X, U: IntoProducer, F: FnMut(X) -> U>(f: F) -> spec_fn(X) -> Seq<
    <U::Prod as Producer>::Item,
> {
    |x: X| image(f, x).items()
}

/// `opened` holds, in order, a group that `f` may return for each of the first values
/// of `xs`.
pub open spec fn returned_for<X, U, F: FnMut(X) -> U>(f: F, xs: Seq<X>, opened: Seq<U>) -> bool {
    &&& opened.len() <= xs.len()
    &&& forall|i: int| 0 <= i < opened.len() ==> call_ensures(f, (xs[i],), #[trigger] opened[i])
}

/// Flattens the groups that `f` makes of the items of `iter`.
pub fn flatmap<I, U, F>(iter: I, f: F) -> (flat: FlatMap<I, U, F>) where
    I: Producer,
    U: IntoProducer,
    F: FnMut(I::Item) -> U,

    requires
        iter.inv(),
        accepts_all(f, iter.remaining()),
    ensures
        flat.ready(),
        flat.front() == Seq::<<U::Prod as Producer>::Item>::empty(),
        flat.source() == iter.remaining(),
        flat.transform() == f,
        flat.model() == image_items(f),
        flat.inv() <==> flat.settled(),
        flat.remaining() == flat.pending().flat(),
{
    FlatMap::new(iter, f)
}

/// Yields the items of the groups that a function makes of the items of an outer
/// producer, in order. The function is applied to an outer item when its group is about
/// to be traversed, and not before.
#[verifier::reject_recursive_types(O)]
#[verifier::reject_recursive_types(U)]
pub struct FlatMap<O, U, F> where O: Producer, U: IntoProducer, F: FnMut(O::Item) -> U {
    iter: O,
    f: F,
    inner: Option<U::Prod>,
    model: Ghost<spec_fn(O::Item) -> Seq<<U::Prod as Producer>::Item>>,
}

impl<O, U, F> FlatMap<O, U, F> where O: Producer, U: IntoProducer, F: FnMut(O::Item) -> U {
    /// What is left of the group that is open.
    pub closed spec fn front(&self) -> Seq<<U::Prod as Producer>::Item> {
        match self.inner {
            Some(p) => p.remaining(),
            None => Seq::empty(),
        }
    }

    /// The items of the outer producer that have not been pulled yet.
    pub closed spec fn source(&self) -> Seq<O::Item> {
        self.iter.remaining()
    }

    /// The function that makes a group of each outer item.
    pub closed spec fn transform(&self) -> F {
        self.f
    }

    /// The items that the group of each outer item is taken to hold. It says what the
    /// traversal yields as far as the function yields it; see `settled`.
    pub closed spec fn model(&self) -> spec_fn(O::Item) -> Seq<<U::Prod as Producer>::Item> {
        self.model@
    }

    /// The traversal can be pulled from: the function accepts every outer item that is
    /// left.
    pub closed spec fn ready(&self) -> bool {
        &&& self.iter.inv()
        &&& accepts_all(self.f, self.iter.remaining())
        &&& self.inner matches Some(p) ==> p.inv()
    }

    /// Whatever the function returns for an outer item that is left holds the items
    /// that the model gives for it.
    pub open spec fn settled(&self) -> bool {
        yields_all(self.transform(), self.model(), self.source())
    }

    /// What the traversal has still to yield, going by the model.
    pub open spec fn pending(&self) -> Pending<<U::Prod as Producer>::Item> {
        Pending::forward(self.front(), self.source().map_values(self.model()))
    }

    /// A traversal that has opened no group yet. Its model gives, for each outer item,
    /// the items of a group that the contract of `f` allows for it.
    pub fn new(iter: O, f: F) -> (flat: Self)
        requires
            iter.inv(),
            accepts_all(f, iter.remaining()),
        ensures
            flat.ready(),
            flat.front() == Seq::<<U::Prod as Producer>::Item>::empty(),
            flat.source() == iter.remaining(),
            flat.transform() == f,
            flat.model() == image_items(f),
            flat.inv() <==> flat.settled(),
            flat.remaining() == flat.pending().flat(),
    {
        Self { iter, f, inner: None, model: Ghost(image_items(f)) }
    }

    /// A traversal that has opened no group yet, with a function that is known to yield
    /// the groups that `model` describes.
    pub fn with_model(
        iter: O,
        f: F,
        model: Ghost<spec_fn(O::Item) -> Seq<<U::Prod as Producer>::Item>>,
    ) -> (flat: Self)
        requires
            iter.inv(),
            accepts_all(f, iter.remaining()),
            yields_all(f, model@, iter.remaining()),
        ensures
            flat.ready(),
            flat.inv(),
            flat.front() == Seq::<<U::Prod as Producer>::Item>::empty(),
            flat.source() == iter.remaining(),
            flat.transform() == f,
            flat.model() == model@,
            flat.remaining() == flat.pending().flat(),
    {
        Self { iter, f, inner: None, model }
    }

    /// Yields the next item in forward order, or `None` when none is left.
    ///
    /// The open group is drained first. After it, outer items are pulled one at a time,
    /// each is handed to the function once, and the group that comes back is opened,
    /// until a group yields an item or the outer producer is exhausted. So the call
    /// yields what a pull yields from the open group followed by the groups `opened`
    /// that the function returned, and it has opened all of these. Where the function
    /// yields the model, this is what a pull yields from `pending`.
    pub fn next(&mut self) -> (r: Option<<U::Prod as Producer>::Item>)
        requires
            old(self).ready(),
        ensures
            final(self).ready(),
            final(self).transform() == old(self).transform(),
            final(self).model() == old(self).model(),
            final(self).source().len() <= old(self).source().len(),
            final(self).source() == old(self).source().skip(
                old(self).source().len() - final(self).source().len(),
            ),
            exists|opened: Seq<U>|
                {
                    &&& opened.len() == old(self).source().len() - final(self).source().len()
                    &&& #[trigger] returned_for(old(self).transform(), old(self).source(), opened)
                    &&& (r, Pending::forward(final(self).front(), Seq::empty()))
                        == Pending::forward(old(self).front(), group_items(opened)).pull_front()
                },
            r is None ==> final(self).source().len() == 0,
            old(self).settled() ==> final(self).settled() && (r, final(self).pending()) == old(
                self,
            ).pending().pull_front(),
            final(self).inv() <==> final(self).settled(),
            final(self).remaining() == final(self).pending().flat(),
    {
        let ghost mut opened: Seq<U> = Seq::empty();
        assert(group_items(opened) =~= Seq::empty());
        loop
            invariant
                self.ready(),
                self.transform() == old(self).transform(),
                self.model() == old(self).model(),
                self.source().len() <= old(self).source().len(),
                self.source() == old(self).source().skip(
                    old(self).source().len() - self.source().len(),
                ),
                opened.len() == old(self).source().len() - self.source().len(),
                returned_for(old(self).transform(), old(self).source(), opened),
                Pending::forward(old(self).front(), group_items(opened)).pull_front()
                    == Pending::forward(self.front(), Seq::empty()).pull_front(),
                old(self).settled() ==> self.settled() && self.pending().pull_front() == old(
                    self,
                ).pending().pull_front(),
            decreases self.iter.remaining().len(),
        {
            let ghost start = self.front();
            if let Some(inner) = &mut self.inner {
                if let Some(v) = inner.next() {
                    return Some(v);
                }
                self.inner = None;
            }
            assert(self.front() =~= start);
            let ghost xs = self.iter.remaining();
            match self.iter.next() {
                Some(x) => {
                    let group = (self.f)(x);
                    proof {
                        assert(xs.map_values(self.model()).drop_first()
                            =~= self.source().map_values(self.model()));
                        let before = opened;
                        opened = opened.push(group);
                        assert(group_items(opened) =~= group_items(before).push(group.items()));
                        lemma_opened_one_more(
                            old(self).front(),
                            group_items(before),
                            start,
                            group.items(),
                        );
                    }
                    self.inner = Some(group.into_producer());
                },
                None => {
                    return None;
                },
            }
        }
    }
}

/// Where a pull from `front` and then `groups` yields what a pull from the exhausted
/// group `open` yields, a pull from `front`, `groups` and one group more yields what a
/// pull from that group yields.
proof fn lemma_opened_one_more<T>(front: Seq<T>, groups: Seq<Seq<T>>, open: Seq<T>, more: Seq<T>)
    requires
        open.len() == 0,
        Pending::forward(front, groups).pull_front() == Pending::forward(
            open,
            Seq::empty(),
        ).pull_front(),
    ensures
        Pending::forward(front, groups.push(more)).pull_front() == Pending::forward(
            more,
            Seq::empty(),
        ).pull_front(),
    decreases groups.len(),
{
    if front.len() == 0 {
        if groups.len() > 0 {
            assert(groups.push(more).drop_first() =~= groups.drop_first().push(more));
            lemma_opened_one_more(groups.first(), groups.drop_first(), open, more);
        } else {
            assert(groups.push(more).drop_first() =~= Seq::empty());
        }
    }
}

impl<O, U, F> Producer for FlatMap<O, U, F> where
    O: Producer,
    U: IntoProducer,
    F: FnMut(O::Item) -> U,
 {
    type Item = <U::Prod as Producer>::Item;

    open spec fn inv(&self) -> bool {
        self.ready() && self.settled()
    }

    open spec fn remaining(&self) -> Seq<Self::Item> {
        self.pending().flat()
    }

    fn next(&mut self) -> (r: Option<Self::Item>) {
        proof {
            lemma_pull_front_pops(self.pending());
        }
        FlatMap::next(self)
    }
}

} // verus!
