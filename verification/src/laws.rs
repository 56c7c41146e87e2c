use crate::flat_map::{accepts, accepts_all, image_items, yields, yields_all};
use crate::model::{lemma_pull_back_pops, lemma_pull_front_pops, Pending};
use crate::producer::{IntoProducer, Producer};
use crate::transform::image;
use crate::{group_items, groups_valid};
use vstd::prelude::*;
use vstd::seq_lib::lemma_flatten_concat;

verus! {

/// A traversal that has opened no group yet has the concatenation of the groups to
/// yield.
pub proof fn lemma_fresh_flat<T>(groups: Seq<Seq<T>>)
    ensures
        Pending::fresh(groups).flat() == groups.flatten(),
{
}

/// Whatever the directions of a run of pulls: the items pulled from the front in call
/// order, then what is left, then the items pulled from the back in reverse call order,
/// make up what there was to yield, each item once. While something is left, every
/// pull yields an item.
pub proof fn lemma_pulls_partition<T>(p: Pending<T>, from_front: Seq<bool>)
    ensures
        ({
            let t = p.pulls(from_front);
            &&& t.fronts + t.rest.flat() + t.backs.reverse() == p.flat()
            &&& from_front.len() <= p.flat().len() ==> t.fronts.len() + t.backs.len()
                == from_front.len()
            &&& from_front.len() >= p.flat().len() ==> t.rest.flat().len() == 0
        }),
    decreases from_front.len(),
{
    if from_front.len() > 0 {
        lemma_pull_front_pops(p);
        lemma_pull_back_pops(p);
        let step = if from_front.first() {
            p.pull_front()
        } else {
            p.pull_back()
        };
        lemma_pulls_partition(step.1, from_front.drop_first());
        if let Some(item) = step.0 {
            if from_front.first() {
                assert(p.flat() =~= seq![item] + p.flat().drop_first());
            } else {
                assert(p.flat() =~= p.flat().drop_last() + seq![item]);
            }
        }
    }
}

/// A run of pulls from one end only yields nothing from the other end.
pub proof fn lemma_pulls_one_sided<T>(p: Pending<T>, from_front: Seq<bool>)
    ensures
        (forall|i: int| 0 <= i < from_front.len() ==> from_front[i]) ==> p.pulls(
            from_front,
        ).backs.len() == 0,
        (forall|i: int| 0 <= i < from_front.len() ==> !from_front[i]) ==> p.pulls(
            from_front,
        ).fronts.len() == 0,
    decreases from_front.len(),
{
    if from_front.len() > 0 {
        let step = if from_front.first() {
            p.pull_front()
        } else {
            p.pull_back()
        };
        lemma_pulls_one_sided(step.1, from_front.drop_first());
    }
}

/// Pulling from the front of a fresh traversal, once for each item, yields the items of
/// the first group in their order, then those of the second, and so on to the last.
pub proof fn lemma_forward_order<T>(groups: Seq<Seq<T>>)
    ensures
        Pending::fresh(groups).pulls(Seq::new(groups.flatten().len(), |i: int| true)).fronts
            == groups.flatten(),
{
    let p = Pending::fresh(groups);
    let dirs = Seq::new(groups.flatten().len(), |i: int| true);
    lemma_fresh_flat(groups);
    lemma_pulls_partition(p, dirs);
    lemma_pulls_one_sided(p, dirs);
}

/// Pulling from the back of a fresh traversal, once for each item, yields the forward
/// concatenation of the groups in reverse.
pub proof fn lemma_backward_order<T>(groups: Seq<Seq<T>>)
    ensures
        Pending::fresh(groups).pulls(Seq::new(groups.flatten().len(), |i: int| false)).backs
            == groups.flatten().reverse(),
{
    let p = Pending::fresh(groups);
    let dirs = Seq::new(groups.flatten().len(), |i: int| false);
    lemma_fresh_flat(groups);
    lemma_pulls_partition(p, dirs);
    lemma_pulls_one_sided(p, dirs);
}

/// A run of as many pulls as there are items, from the two ends in any order, yields
/// every item exactly once: the items pulled from the front in call order, followed by
/// the items pulled from the back in reverse call order, are the forward concatenation.
/// No pull of such a run comes back empty.
pub proof fn lemma_interleave_converges<T>(p: Pending<T>, from_front: Seq<bool>)
    requires
        from_front.len() == p.flat().len(),
    ensures
        p.pulls(from_front).fronts + p.pulls(from_front).backs.reverse() == p.flat(),
        p.pulls(from_front).fronts.len() + p.pulls(from_front).backs.len() == from_front.len(),
{
    lemma_pulls_partition(p, from_front);
}

/// A group without items, wherever it stands among the others, adds nothing to what is
/// yielded.
pub proof fn lemma_empty_group_skipped<T>(before: Seq<Seq<T>>, after: Seq<Seq<T>>)
    ensures
        Pending::fresh(before + seq![Seq::<T>::empty()] + after).flat() == Pending::fresh(
            before + after,
        ).flat(),
{
    let hole = seq![Seq::<T>::empty()];
    lemma_flatten_concat(before + hole, after);
    lemma_flatten_concat(before, hole);
    lemma_flatten_concat(before, after);
    hole.lemma_flatten_one_element();
    lemma_fresh_flat(before + hole + after);
    lemma_fresh_flat(before + after);
}

/// With no group at all there is nothing to yield, and the first pull from either end
/// comes back empty and leaves the traversal as it was.
pub proof fn lemma_empty_outer<T>()
    ensures
        Pending::fresh(Seq::<Seq<T>>::empty()).flat() == Seq::<T>::empty(),
        Pending::fresh(Seq::<Seq<T>>::empty()).pull_front() == (
            None::<T>,
            Pending::fresh(Seq::<Seq<T>>::empty()),
        ),
        Pending::fresh(Seq::<Seq<T>>::empty()).pull_back() == (
            None::<T>,
            Pending::fresh(Seq::<Seq<T>>::empty()),
        ),
{
    lemma_fresh_flat(Seq::<Seq<T>>::empty());
}

/// A pull from the front opens unopened groups only once the open group is empty, takes
/// them in order from the front, and opens another only if all that it has opened so far
/// were empty. The first group with an item yields it and stays open; what the pull has
/// not opened stays unopened. Only when every group has been opened and found empty
/// does the pull turn to the group open at the back.
pub proof fn lemma_pull_front_lazy<T>(p: Pending<T>)
    ensures
        ({
            let (item, q) = p.pull_front();
            let opened = p.groups.len() - q.groups.len();
            &&& 0 <= opened
            &&& q.groups == p.groups.skip(opened)
            &&& p.front.len() > 0 ==> opened == 0 && q.back == p.back
            &&& p.front.len() == 0 && p.groups.len() > 0 ==> opened > 0
            &&& forall|i: int| 0 <= i < opened - 1 ==> (#[trigger] p.groups[i]).len() == 0
            &&& opened > 0 && p.groups[opened - 1].len() > 0 ==> item == Some(
                p.groups[opened - 1].first(),
            ) && q.front == p.groups[opened - 1].drop_first() && q.back == p.back
            &&& opened > 0 && p.groups[opened - 1].len() == 0 ==> q.groups.len() == 0
                && q.front.len() == 0
        }),
    decreases p.groups.len(),
{
    if p.front.len() == 0 && p.groups.len() > 0 {
        let next = Pending { front: p.groups.first(), groups: p.groups.drop_first(), back: p.back };
        lemma_pull_front_lazy(next);
        let opened_later = next.groups.len() - p.pull_front().1.groups.len();
        assert forall|i: int| 0 <= i < opened_later implies (#[trigger] p.groups[i]).len()
            == 0 by {
            if i > 0 {
                assert(p.groups[i] == next.groups[i - 1]);
            }
        }
    }
}

/// Seen from the other end twice, a traversal is as it was.
pub proof fn lemma_mirror_twice<T>(p: Pending<T>)
    ensures
        p.mirror().mirror() == p,
{
    let twice = p.mirror().mirror();
    assert(twice.front =~= p.front);
    assert(twice.back =~= p.back);
    assert(twice.groups =~~= p.groups);
}

/// A pull from the back is the exact mirror of a pull from the front: it yields what
/// a pull from the front yields on the traversal seen from the other end, and leaves
/// what that pull leaves, seen from this end again.
pub proof fn lemma_pull_back_mirrors<T>(p: Pending<T>)
    ensures
        p.pull_back().0 == p.mirror().pull_front().0,
        p.pull_back().1 == p.mirror().pull_front().1.mirror(),
    decreases p.groups.len(),
{
    let m = p.mirror();
    lemma_mirror_twice(p);
    if p.back.len() > 0 {
        assert(m.pull_front().1.mirror().back =~= p.back.drop_last());
    } else if p.groups.len() > 0 {
        let shorter = Pending {
            front: p.front,
            groups: p.groups.drop_last(),
            back: p.groups.last(),
        };
        lemma_pull_back_mirrors(shorter);
        assert(m.groups.drop_first() =~~= shorter.mirror().groups);
    } else if p.front.len() > 0 {
        assert(m.pull_front().1.mirror().front =~= p.front.drop_last());
    }
}

/// Flattening a sequence of groups whose items are groups themselves, and flattening
/// the result again, yields the same as flattening each group on its own first and
/// concatenating what comes of that.
pub proof fn lemma_two_levels<G>(groups: Seq<G>) where
    G: IntoProducer,
    <G::Prod as Producer>::Item: IntoProducer,

    ensures
        group_items(group_items(groups).flatten()).flatten() == groups.map_values(
            |g: G| group_items(g.items()).flatten(),
        ).flatten(),
    decreases groups.len(),
{
    if groups.len() > 0 {
        let each = |g: G| group_items(g.items()).flatten();
        let rest = groups.drop_first();
        let once = group_items(groups).flatten();
        let once_rest = group_items(rest).flatten();
        lemma_two_levels(rest);
        assert(group_items(groups).drop_first() =~= group_items(rest));
        assert(group_items(once) =~= group_items(groups.first().items()) + group_items(once_rest));
        lemma_flatten_concat(group_items(groups.first().items()), group_items(once_rest));
        assert(groups.map_values(each).drop_first() =~= rest.map_values(each));
    }
}

/// Where the transform hands back each group as it got it, the flattening of the
/// transformed groups may take, as its model, the items of each group itself; it then
/// has the same items to yield, in the same three parts, as the plain flattening of the
/// groups. The model made of the transform's own contract agrees with that on every
/// group on which the transform has returned.
pub proof fn lemma_identity_transform<G, F>(f: F, groups: Seq<G>) where
    G: IntoProducer,
    F: FnMut(G) -> G,

    requires
        groups_valid(groups),
        forall|i: int| 0 <= i < groups.len() ==> call_requires(f, (#[trigger] groups[i],)),
        forall|i: int, g: G|
            0 <= i < groups.len() && #[trigger] call_ensures(f, (groups[i],), g) ==> g
                == groups[i],
    ensures
        accepts_all(f, groups),
        yields_all(f, |g: G| g.items(), groups),
        Pending::forward(Seq::empty(), groups.map_values(|g: G| g.items())) == Pending::fresh(
            group_items(groups),
        ),
        forall|i: int|
            0 <= i < groups.len() && call_ensures(f, (groups[i],), image(f, groups[i]))
                ==> #[trigger] image_items(f)(groups[i]) == groups[i].items(),
{
    let model = |g: G| g.items();
    assert forall|i: int| 0 <= i < groups.len() implies accepts(f, #[trigger] groups[i])
        && yields(f, model, groups[i]) by {}
}

} // verus!
