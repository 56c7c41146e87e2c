use vstd::prelude::*;

verus! {

/// What a flattening traversal has still to yield, in forward order: the rest of the
/// group that is open at the front, the groups that nobody has opened yet, and the rest
/// of the group that is open at the back.
pub struct Pending<T> {
    /// What is left of the group that is open at the front; empty where none is open.
    pub front: Seq<T>,
    /// The items of each group that has not been opened, in outer order.
    pub groups: Seq<Seq<T>>,
    /// What is left of the group that is open at the back; empty where none is open.
    pub back: Seq<T>,
}

impl<T> Pending<T> {
    /// Nothing opened yet: every group is still whole.
    pub open spec fn fresh(groups: Seq<Seq<T>>) -> Self {
        Pending { front: Seq::empty(), groups, back: Seq::empty() }
    }

    /// A traversal that is pulled from the front only: the open group `front`, then the
    /// unopened `groups`, and nothing open at the back.
    pub open spec fn forward(front: Seq<T>, groups: Seq<Seq<T>>) -> Self {
        Pending { front, groups, back: Seq::empty() }
    }

    /// All items that are left, in forward order.
    pub open spec fn flat(self) -> Seq<T> {
        self.front + self.groups.flatten() + self.back
    }

    /// One pull from the front: the item it yields and what is left afterwards.
    ///
    /// The open front group is drained first. Once it is empty, unopened groups are
    /// opened from the front, one at a time, until one yields an item. When no unopened
    /// group is left, the item comes from the front of the group open at the back.
    pub open spec fn pull_front(self) -> (Option<T>, Self)
        decreases self.groups.len(),
    {
        if self.front.len() > 0 {
            (
                Some(self.front.first()),
                Pending { front: self.front.drop_first(), groups: self.groups, back: self.back },
            )
        } else if self.groups.len() > 0 {
            Pending {
                front: self.groups.first(),
                groups: self.groups.drop_first(),
                back: self.back,
            }.pull_front()
        } else if self.back.len() > 0 {
            (
                Some(self.back.first()),
                Pending { front: self.front, groups: self.groups, back: self.back.drop_first() },
            )
        } else {
            (None, self)
        }
    }

    /// One pull from the back; the mirror image of `pull_front`.
    pub open spec fn pull_back(self) -> (Option<T>, Self)
        decreases self.groups.len(),
    {
        if self.back.len() > 0 {
            (
                Some(self.back.last()),
                Pending { front: self.front, groups: self.groups, back: self.back.drop_last() },
            )
        } else if self.groups.len() > 0 {
            Pending {
                front: self.front,
                groups: self.groups.drop_last(),
                back: self.groups.last(),
            }.pull_back()
        } else if self.front.len() > 0 {
            (
                Some(self.front.last()),
                Pending { front: self.front.drop_last(), groups: self.groups, back: self.back },
            )
        } else {
            (None, self)
        }
    }

    /// The same traversal seen from the other end: the groups in reverse order, each
    /// with its items in reverse order, and the two open groups exchanged.
    pub open spec fn mirror(self) -> Self {
        Pending {
            front: self.back.reverse(),
            groups: self.groups.reverse().map_values(|g: Seq<T>| g.reverse()),
            back: self.front.reverse(),
        }
    }
}

/// What a run of pulls has yielded, and what it has left.
pub struct Trace<T> {
    /// The items pulled from the front, in the order of the calls.
    pub fronts: Seq<T>,
    /// The items pulled from the back, in the order of the calls.
    pub backs: Seq<T>,
    /// What the traversal has still to yield after the run.
    pub rest: Pending<T>,
}

impl<T> Pending<T> {
    /// A run of pulls, one for each entry of `from_front`: from the front where the
    /// entry is `true`, from the back where it is `false`. A pull that finds nothing
    /// left adds nothing to the trace.
    pub open spec fn pulls(self, from_front: Seq<bool>) -> Trace<T>
        decreases from_front.len(),
    {
        if from_front.len() == 0 {
            Trace { fronts: Seq::empty(), backs: Seq::empty(), rest: self }
        } else {
            let step = if from_front.first() {
                self.pull_front()
            } else {
                self.pull_back()
            };
            let later = step.1.pulls(from_front.drop_first());
            match step.0 {
                Some(item) => if from_front.first() {
                    Trace {
                        fronts: seq![item] + later.fronts,
                        backs: later.backs,
                        rest: later.rest,
                    }
                } else {
                    Trace {
                        fronts: later.fronts,
                        backs: seq![item] + later.backs,
                        rest: later.rest,
                    }
                },
                None => later,
            }
        }
    }
}

/// A pull from the front yields the first item of what is left and removes exactly that
/// item; on an empty traversal it yields nothing and leaves nothing.
pub proof fn lemma_pull_front_pops<T>(p: Pending<T>)
    ensures
        p.flat().len() == 0 ==> p.pull_front().0 is None && p.pull_front().1.flat() == p.flat(),
        p.flat().len() > 0 ==> p.pull_front().0 == Some(p.flat().first())
            && p.pull_front().1.flat() == p.flat().drop_first(),
    decreases p.groups.len(),
{
    if p.front.len() == 0 && p.groups.len() > 0 {
        lemma_pull_front_pops(
            Pending { front: p.groups.first(), groups: p.groups.drop_first(), back: p.back },
        );
    }
}

/// A pull from the back yields the last item of what is left and removes exactly that
/// item; on an empty traversal it yields nothing and leaves nothing.
pub proof fn lemma_pull_back_pops<T>(p: Pending<T>)
    ensures
        p.flat().len() == 0 ==> p.pull_back().0 is None && p.pull_back().1.flat() == p.flat(),
        p.flat().len() > 0 ==> p.pull_back().0 == Some(p.flat().last())
            && p.pull_back().1.flat() == p.flat().drop_last(),
    decreases p.groups.len(),
{
    if p.back.len() == 0 && p.groups.len() > 0 {
        lemma_pull_back_pops(
            Pending { front: p.front, groups: p.groups.drop_last(), back: p.groups.last() },
        );
        assert(p.groups =~= p.groups.drop_last().push(p.groups.last()));
        p.groups.drop_last().lemma_flatten_push(p.groups.last());
    }
}

} // verus!
