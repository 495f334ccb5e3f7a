//! The queue of nodes that a search has yet to look at: a binary heap in
//! which the entry that is looked at next stands first.

use vstd::prelude::*;

verus! {

/// An entry of the queue of nodes that are still to be looked at.
#[derive(Clone, Copy, Debug, PartialEq, Eq, Hash, Structural)]
pub struct SmallestCostHolder {
    /// The cost of the way to the node plus the estimate of what is left.
    pub estimated_cost: u64,
    /// The cost of the way to the node.
    pub cost: u64,
    /// The place of the node in the table.
    pub index: usize,
}

/// Whether `a` is looked at before `b`: it has the smaller estimated cost,
/// or the same with the smaller cost.
pub open spec fn before(a: SmallestCostHolder, b: SmallestCostHolder) -> bool {
    a.estimated_cost < b.estimated_cost || (a.estimated_cost == b.estimated_cost && a.cost
        < b.cost)
}

fn comes_before(a: &SmallestCostHolder, b: &SmallestCostHolder) -> (r: bool)
    ensures
        r == before(*a, *b),
{
    a.estimated_cost < b.estimated_cost || (a.estimated_cost == b.estimated_cost && a.cost
        < b.cost)
}

/// The place of the parent of the entry at place `i` of a heap.
pub open spec fn parent(i: int) -> int {
    (i - 1) / 2
}

/// No entry is looked at before its parent, but perhaps the entry at place
/// `except`.
pub open spec fn ordered_but(items: Seq<SmallestCostHolder>, except: int) -> bool {
    forall|i: int|
        0 < i < items.len() && i != except ==> !before(#[trigger] items[i], items[parent(i)])
}

/// No entry is looked at before its parent, but perhaps the children of
/// the entry at place `except`.
pub open spec fn ordered_below(items: Seq<SmallestCostHolder>, except: int) -> bool {
    forall|i: int|
        0 < i < items.len() && parent(i) != except ==> !before(#[trigger] items[i], items[parent(i)])
}

/// Two sequences hold the same entries.
pub open spec fn same_entries(a: Seq<SmallestCostHolder>, b: Seq<SmallestCostHolder>) -> bool {
    forall|h: SmallestCostHolder| a.contains(h) <==> b.contains(h)
}

/// The queue. Its entries stand as a binary heap: the parent of the entry
/// at place `i` stands at place `(i - 1) / 2`.
pub struct OpenQueue {
    pub items: Vec<SmallestCostHolder>,
}

impl View for OpenQueue {
    type V = Seq<SmallestCostHolder>;

    open spec fn view(&self) -> Seq<SmallestCostHolder> {
        self.items@
    }
}

/// In a heap the first entry is looked at before all others.
pub proof fn lemma_first_is_smallest(items: Seq<SmallestCostHolder>, i: int)
    requires
        ordered_but(items, -1),
        0 <= i < items.len(),
    ensures
        !before(items[i], items[0]),
    decreases i,
{
    if i > 0 {
        lemma_first_is_smallest(items, parent(i));
    }
}

/// Two entries that change places leave the same entries.
pub proof fn lemma_swapped(items: Seq<SmallestCostHolder>, i: int, j: int)
    requires
        0 <= i < items.len(),
        0 <= j < items.len(),
    ensures
        same_entries(items.update(i, items[j]).update(j, items[i]), items),
{
    let swapped = items.update(i, items[j]).update(j, items[i]);
    assert forall|h: SmallestCostHolder| swapped.contains(h) <==> items.contains(h) by {
        if swapped.contains(h) {
            let k = choose|k: int| 0 <= k < swapped.len() && swapped[k] == h;
            if k == i {
                assert(items[j] == h);
            } else if k == j {
                assert(items[i] == h);
            } else {
                assert(items[k] == h);
            }
        }
        if items.contains(h) {
            let k = choose|k: int| 0 <= k < items.len() && items[k] == h;
            if k == i {
                assert(swapped[j] == h);
            } else if k == j {
                assert(swapped[i] == h);
            } else {
                assert(swapped[k] == h);
            }
        }
    }
}

impl OpenQueue {
    /// The entries stand as a heap.
    pub open spec fn wf(&self) -> bool {
        ordered_but(self.items@, -1)
    }

    pub fn new() -> (r: OpenQueue)
        ensures
            r@.len() == 0,
            r.wf(),
    {
        OpenQueue { items: Vec::new() }
    }

    pub fn len(&self) -> (r: usize)
        ensures
            r == self@.len(),
    {
        self.items.len()
    }

    fn swap(&mut self, i: usize, j: usize)
        requires
            i < old(self).items@.len(),
            j < old(self).items@.len(),
        ensures
            final(self).items@ == old(self).items@.update(i as int, old(self).items@[j as int]).update(
                j as int,
                old(self).items@[i as int],
            ),
            same_entries(final(self).items@, old(self).items@),
    {
        let a = self.items[i];
        let b = self.items[j];
        self.items.set(i, b);
        self.items.set(j, a);
        proof {
            lemma_swapped(old(self).items@, i as int, j as int);
        }
    }

    /// Puts an entry into the queue.
    pub fn push(&mut self, entry: SmallestCostHolder)
        requires
            old(self).wf(),
        ensures
            final(self).wf(),
            final(self)@.len() == old(self)@.len() + 1,
            forall|h: SmallestCostHolder|
                final(self)@.contains(h) <==> old(self)@.contains(h) || h == entry,
    {
        self.items.push(entry);
        let ghost pushed = self.items@;
        proof {
            assert(pushed[pushed.len() - 1] == entry);
            assert forall|h: SmallestCostHolder|
                pushed.contains(h) <==> old(self)@.contains(h) || h == entry by {
                if pushed.contains(h) {
                    let k = choose|k: int| 0 <= k < pushed.len() && pushed[k] == h;
                    if k < old(self)@.len() {
                        assert(old(self)@[k] == h);
                    }
                }
                if old(self)@.contains(h) {
                    let k = choose|k: int| 0 <= k < old(self)@.len() && old(self)@[k] == h;
                    assert(pushed[k] == h);
                }
            }
            assert forall|i: int| 0 < i < pushed.len() && i != pushed.len() - 1 implies !before(
                #[trigger] pushed[i],
                pushed[parent(i)],
            ) by {
                assert(!before(old(self)@[i], old(self)@[parent(i)]));
            }
        }
        let mut i: usize = self.items.len() - 1;
        while i > 0
            invariant
                i < self.items@.len(),
                self.items@.len() == pushed.len(),
                same_entries(self.items@, pushed),
                ordered_but(self.items@, i as int),
                forall|j: int|
                    0 < j < self.items@.len() && parent(j) == i && i > 0 ==> !before(
                        #[trigger] self.items@[j],
                        self.items@[parent(i as int)],
                    ),
            ensures
                self.items@.len() == pushed.len(),
                same_entries(self.items@, pushed),
                ordered_but(self.items@, -1),
            decreases i,
        {
            let up: usize = (i - 1) / 2;
            if !comes_before(&self.items[i], &self.items[up]) {
                break ;
            }
            let ghost here = self.items@;
            self.swap(i, up);
            proof {
                let now = self.items@;
                assert forall|j: int| 0 < j < now.len() && j != up implies !before(
                    #[trigger] now[j],
                    now[parent(j)],
                ) by {
                    if j == i {
                    } else if parent(j) == i {
                        assert(!before(here[j], here[parent(i as int)]));
                    } else if parent(j) == up {
                        assert(!before(here[j], here[up as int]));
                    } else {
                        assert(!before(here[j], here[parent(j)]));
                    }
                }
                assert forall|j: int|
                    0 < j < now.len() && parent(j) == up && up > 0 implies !before(
                    #[trigger] now[j],
                    now[parent(up as int)],
                ) by {
                    assert(!before(here[up as int], here[parent(up as int)]));
                    if j != i {
                        assert(!before(here[j], here[up as int]));
                    }
                }
            }
            i = up;
        }
    }

    /// Takes the entry out of the queue that is looked at before all
    /// others, if the queue holds any.
    pub fn pop(&mut self) -> (r: Option<SmallestCostHolder>)
        requires
            old(self).wf(),
        ensures
            final(self).wf(),
            match r {
                Some(entry) => {
                    &&& old(self)@.contains(entry)
                    &&& final(self)@.len() == old(self)@.len() - 1
                    &&& forall|other: SmallestCostHolder|
                        old(self)@.contains(other) ==> !before(other, entry)
                    &&& forall|other: SmallestCostHolder|
                        old(self)@.contains(other) && other != entry ==> final(self)@.contains(
                            other,
                        )
                    &&& forall|other: SmallestCostHolder|
                        final(self)@.contains(other) ==> old(self)@.contains(other)
                },
                None => old(self)@.len() == 0 && final(self)@ == old(self)@,
            },
    {
        let count: usize = self.items.len();
        if count == 0 {
            return None;
        }
        let ghost full = self.items@;
        proof {
            assert forall|other: SmallestCostHolder| full.contains(other) implies !before(
                other,
                full[0],
            ) by {
                let k = choose|k: int| 0 <= k < full.len() && full[k] == other;
                lemma_first_is_smallest(full, k);
            }
        }
        self.swap(0, count - 1);
        let ghost turned = self.items@;
        let entry = self.items.pop().unwrap();
        let ghost cut = self.items@;
        proof {
            assert(entry == full[0]);
            assert(full.contains(entry));
            assert forall|other: SmallestCostHolder|
                full.contains(other) && other != entry implies cut.contains(other) by {
                assert(turned.contains(other));
                let k = choose|k: int| 0 <= k < turned.len() && turned[k] == other;
                assert(cut[k] == other);
            }
            assert forall|other: SmallestCostHolder| cut.contains(other) implies full.contains(
                other,
            ) by {
                let k = choose|k: int| 0 <= k < cut.len() && cut[k] == other;
                assert(turned[k] == other);
                assert(turned.contains(other));
            }
            assert forall|j: int| 0 < j < cut.len() && parent(j) != 0 implies !before(
                #[trigger] cut[j],
                cut[parent(j)],
            ) by {
                assert(!before(full[j], full[parent(j)]));
            }
        }
        let rest: usize = self.items.len();
        let mut i: usize = 0;
        while i < rest
            invariant
                rest == self.items@.len(),
                rest == cut.len(),
                i <= rest,
                same_entries(self.items@, cut),
                ordered_below(self.items@, i as int),
                forall|j: int|
                    0 < j < self.items@.len() && parent(j) == i && i > 0 ==> !before(
                        #[trigger] self.items@[j],
                        self.items@[parent(i as int)],
                    ),
            ensures
                rest == self.items@.len(),
                same_entries(self.items@, cut),
                ordered_but(self.items@, -1),
            decreases rest - i,
        {
            if i >= rest / 2 {
                break ;
            }
            let left: usize = 2 * i + 1;
            let right: usize = left + 1;
            let mut least: usize = left;
            if right < rest && comes_before(&self.items[right], &self.items[left]) {
                least = right;
            }
            if !comes_before(&self.items[least], &self.items[i]) {
                proof {
                    let now = self.items@;
                    assert forall|j: int| 0 < j < now.len() implies !before(
                        #[trigger] now[j],
                        now[parent(j)],
                    ) by {
                        if parent(j) == i {
                            assert(j == left || j == right);
                        }
                    }
                }
                i = rest;
            } else {
                let ghost here = self.items@;
                self.swap(i, least);
                proof {
                    let now = self.items@;
                    assert forall|j: int| 0 < j < now.len() && parent(j) != least implies !before(
                        #[trigger] now[j],
                        now[parent(j)],
                    ) by {
                        if j == i {
                            if i > 0 {
                                assert(!before(here[least as int], here[parent(i as int)]));
                            }
                        } else if parent(j) == i {
                            assert(j == left || j == right);
                        } else {
                            assert(!before(here[j], here[parent(j)]));
                        }
                    }
                    assert forall|j: int|
                        0 < j < now.len() && parent(j) == least && least > 0 implies !before(
                        #[trigger] now[j],
                        now[parent(least as int)],
                    ) by {
                        assert(!before(here[j], here[least as int]));
                    }
                }
                i = least;
            }
        }
        Some(entry)
    }
}

} // verus!
