//! The parent/child relation of a scene, apart from any placement.
//!
//! A `Shape` is the mathematical picture of the relation: which slots are
//! live, which parent each one names, which children each one lists. That
//! the relation is a forest is witnessed by a rank that grows from every
//! child to its parent.

use vstd::prelude::*;
use nalgebra_glm::Vec3;
use crate::linear::vec3_sum;

verus! {

pub struct Shape {
    /// Whether the slot holds a node that has not been destroyed.
    pub live: Seq<bool>,
    /// The slot each node names as its parent. The slot may be dead.
    pub parent: Seq<Option<usize>>,
    /// The nodes each node lists as its children, in order.
    pub children: Seq<Seq<usize>>,
    /// A number that is larger on a live parent than on its child.
    pub rank: Seq<nat>,
    /// A bound on every rank.
    pub top: nat,
}

impl Shape {
    pub open spec fn len(self) -> nat {
        self.live.len()
    }

    pub open spec fn is_live(self, i: int) -> bool {
        0 <= i < self.len() && self.live[i]
    }

    /// The parent of `i`, if `i` is live, names one and that one is live.
    pub open spec fn live_parent(self, i: int) -> Option<int> {
        if self.is_live(i) && 0 <= i < self.parent.len() && self.parent[i] is Some
            && self.is_live(self.parent[i]->0 as int) {
            Some(self.parent[i]->0 as int)
        } else {
            None
        }
    }

    /// The relation is a forest, and the lists of children say the same
    /// as the parents do.
    pub open spec fn wf(self) -> bool {
        &&& self.parent.len() == self.len()
        &&& self.children.len() == self.len()
        &&& self.rank.len() == self.len()
        &&& forall|i: int| 0 <= i < self.len() ==> #[trigger] self.rank[i] <= self.top
        &&& forall|i: int|
            0 <= i < self.len() && (#[trigger] self.parent[i]) is Some ==> self.parent[i]->0
                < self.len()
        &&& forall|i: int| (#[trigger] self.live_parent(i)) is Some ==> self.rank[i] < self.rank[self.live_parent(i)->0]
        &&& forall|p: int, k: int|
            self.is_live(p) && 0 <= k < self.children[p].len() ==> self.live_parent(
                #[trigger] self.children[p][k] as int,
            ) == Some(p)
        &&& forall|p: int, j: int, k: int|
            self.is_live(p) && 0 <= j < k < self.children[p].len() ==> #[trigger] self.children[p][j]
                != #[trigger] self.children[p][k]
        &&& forall|i: int| (#[trigger] self.live_parent(i)) is Some ==> self.lists(self.live_parent(i)->0, i)
    }

    /// `p` has `i` among its children.
    pub open spec fn lists(self, p: int, i: int) -> bool {
        exists|k: int| 0 <= k < self.children[p].len() && #[trigger] self.children[p][k] as int == i
    }

    /// `i` is `a` or a descendant of `a`, through live parents.
    pub open spec fn in_subtree(self, a: int, i: int) -> bool
        decreases self.top - self.rank[i],
    {
        i == a || (self.wf() && self.live_parent(i) is Some && self.in_subtree(
            a,
            self.live_parent(i)->0,
        ))
    }

    /// The sum of `values` from the root above `i` down to `i`.
    pub open spec fn chain_sum(self, values: Seq<Vec3>, i: int) -> Vec3
        decreases self.top - self.rank[i],
    {
        if self.wf() && self.live_parent(i) is Some {
            vec3_sum(self.chain_sum(values, self.live_parent(i)->0), values[i])
        } else {
            values[i]
        }
    }

    /// A node lies in the subtree of its parent's every ancestor.
    pub proof fn lemma_subtree_of_child(self, n: int, c: int, i: int)
        requires
            self.wf(),
            self.live_parent(c) == Some(n),
            self.in_subtree(c, i),
        ensures
            self.in_subtree(n, i),
        decreases self.top - self.rank[i],
    {
        if i == c {
            assert(self.in_subtree(n, n));
        } else {
            self.lemma_subtree_of_child(n, c, self.live_parent(i)->0);
        }
    }

    /// A proper descendant of `n` lies under one of the children of `n`.
    pub proof fn lemma_under_some_child(self, n: int, i: int)
        requires
            self.wf(),
            self.in_subtree(n, i),
            i != n,
        ensures
            self.is_live(n),
            exists|k: int|
                0 <= k < self.children[n].len() && self.in_subtree(
                    #[trigger] self.children[n][k] as int,
                    i,
                ),
        decreases self.top - self.rank[i],
    {
        let p = self.live_parent(i)->0;
        if p == n {
            assert(self.lists(n, i));
            let k = choose|k: int|
                0 <= k < self.children[n].len() && #[trigger] self.children[n][k] as int == i;
            assert(self.in_subtree(self.children[n][k] as int, i));
        } else {
            self.lemma_under_some_child(n, p);
            let k = choose|k: int|
                0 <= k < self.children[n].len() && self.in_subtree(
                    #[trigger] self.children[n][k] as int,
                    p,
                );
            assert(self.in_subtree(self.children[n][k] as int, i));
        }
    }

    /// The rank falls from a node to each of its proper descendants.
    pub proof fn lemma_rank_in_subtree(self, a: int, i: int)
        requires
            self.wf(),
            self.in_subtree(a, i),
            0 <= a < self.len(),
        ensures
            self.rank[i] <= self.rank[a],
            i != a ==> self.rank[i] < self.rank[a],
        decreases self.top - self.rank[i],
    {
        if i != a {
            self.lemma_rank_in_subtree(a, self.live_parent(i)->0);
        }
    }

    /// The relation has no cycle: of two different nodes, not each is
    /// below the other.
    pub proof fn lemma_no_cycle(self, a: int, b: int)
        requires
            self.wf(),
            0 <= a < self.len(),
            0 <= b < self.len(),
            self.in_subtree(a, b),
            self.in_subtree(b, a),
        ensures
            a == b,
    {
        self.lemma_rank_in_subtree(a, b);
        self.lemma_rank_in_subtree(b, a);
    }

    /// The parent of an ancestor of `t` is an ancestor of `t`.
    pub proof fn lemma_parent_is_ancestor(self, i: int, t: int)
        requires
            self.wf(),
            self.in_subtree(i, t),
            self.live_parent(i) is Some,
        ensures
            self.in_subtree(self.live_parent(i)->0, t),
        decreases self.top - self.rank[t],
    {
        let p = self.live_parent(i)->0;
        if t == i {
            assert(self.in_subtree(p, p));
        } else {
            self.lemma_parent_is_ancestor(i, self.live_parent(t)->0);
        }
    }
    /// `c` may become a child of `p`: both are live, `c` is a root, and `p`
    /// is neither `c` nor below it.
    pub open spec fn attachable(self, p: int, c: int) -> bool {
        &&& self.is_live(p)
        &&& self.is_live(c)
        &&& self.live_parent(c) is None
        &&& !self.in_subtree(c, p)
    }

    /// The shape after `c` became the last child of `p`. The ranks of `p`
    /// and of its ancestors rise above that of `c`.
    pub open spec fn attached(self, p: usize, c: usize) -> Shape {
        Shape {
            live: self.live,
            parent: self.parent.update(c as int, Some(p)),
            children: self.children.update(p as int, self.children[p as int].push(c)),
            rank: Seq::new(
                self.rank.len(),
                |x: int|
                    if self.in_subtree(x, p as int) {
                        self.rank[x] + self.rank[c as int] + 1
                    } else {
                        self.rank[x]
                    },
            ),
            top: self.top + self.rank[c as int] + 1,
        }
    }

    /// Attaching keeps the forest a forest.
    pub proof fn lemma_attached_wf(self, p: usize, c: usize)
        requires
            self.wf(),
            self.attachable(p as int, c as int),
        ensures
            self.attached(p, c).wf(),
            self.attached(p, c).live_parent(c as int) == Some(p as int),
            forall|i: int| i != c ==> self.attached(p, c).live_parent(i) == self.live_parent(i),
    {
        let after = self.attached(p, c);
        assert forall|i: int| i != c implies after.live_parent(i) == self.live_parent(i) by {}
        assert(after.live_parent(c as int) == Some(p as int));
        assert(self.in_subtree(p as int, p as int));
        assert forall|i: int| (#[trigger] after.live_parent(i)) is Some implies after.rank[i]
            < after.rank[after.live_parent(i)->0] by {
            if i != c {
                if self.in_subtree(i, p as int) {
                    self.lemma_parent_is_ancestor(i, p as int);
                }
            }
        }
        assert forall|q: int, k: int|
            after.is_live(q) && 0 <= k < after.children[q].len() implies after.live_parent(
            #[trigger] after.children[q][k] as int,
        ) == Some(q) by {
            if q == p && k == self.children[q].len() {
            } else {
                let x = self.children[q][k];
                assert(self.live_parent(x as int) == Some(q));
            }
        }
        assert forall|q: int, j: int, k: int|
            after.is_live(q) && 0 <= j < k < after.children[q].len() implies #[trigger] after.children[q][j]
            != #[trigger] after.children[q][k] by {
            if q == p && k == self.children[q].len() {
                let x = self.children[q][j];
                assert(self.live_parent(x as int) == Some(q));
            } else {
                assert(self.children[q][j] != self.children[q][k]);
            }
        }
        assert forall|i: int| (#[trigger] after.live_parent(i)) is Some implies after.lists(
            after.live_parent(i)->0,
            i,
        ) by {
            let q = after.live_parent(i)->0;
            if i == c {
                let k = self.children[p as int].len() as int;
                assert(after.children[q][k] as int == i);
            } else {
                assert(self.lists(q, i));
                let k = choose|k: int|
                    0 <= k < self.children[q].len() && #[trigger] self.children[q][k] as int == i;
                assert(after.children[q][k] as int == i);
            }
        }
    }

    /// Attaching `c` under `p` adds nothing to the subtree of `c`.
    pub proof fn lemma_attached_subtree(self, p: usize, c: usize, i: int)
        requires
            self.wf(),
            self.attachable(p as int, c as int),
            self.attached(p, c).in_subtree(c as int, i),
        ensures
            self.in_subtree(c as int, i),
        decreases self.attached(p, c).top - self.attached(p, c).rank[i],
    {
        self.lemma_attached_wf(p, c);
        if i != c {
            let q = self.attached(p, c).live_parent(i)->0;
            self.lemma_attached_subtree(p, c, q);
        }
    }
    /// Attaching `c` under `p` leaves the sums along every chain that does
    /// not pass through `c` as they were, whatever becomes of the value
    /// at `c`.
    pub proof fn lemma_attached_chain_sum(
        self,
        p: usize,
        c: usize,
        values: Seq<Vec3>,
        moved: Seq<Vec3>,
        t: int,
    )
        requires
            self.wf(),
            self.attachable(p as int, c as int),
            !self.in_subtree(c as int, t),
            0 <= t < self.len(),
            forall|i: int| 0 <= i < self.len() && i != c ==> moved[i] == values[i],
        ensures
            self.attached(p, c).chain_sum(moved, t) == self.chain_sum(values, t),
        decreases self.top - self.rank[t],
    {
        self.lemma_attached_wf(p, c);
        assert(self.in_subtree(c as int, c as int));
        if self.live_parent(t) is Some {
            self.lemma_attached_chain_sum(p, c, values, moved, self.live_parent(t)->0);
        }
    }

    /// The shape after `n` was destroyed: `n` is dead, and its live parent,
    /// if it had one, lists it no more. The children of `n` keep naming
    /// it, and so have no live parent.
    pub open spec fn destroyed(self, n: usize) -> Shape {
        Shape {
            live: self.live.update(n as int, false),
            parent: self.parent,
            children: match self.live_parent(n as int) {
                Some(q) => self.children.update(
                    q,
                    self.children[q].remove(self.children[q].index_of(n)),
                ),
                None => self.children,
            },
            rank: self.rank,
            top: self.top,
        }
    }

    /// Where a live parent lists `n`, it does so once, at `index_of`.
    pub proof fn lemma_listed_once(self, q: int, n: usize, k: int)
        requires
            self.wf(),
            self.is_live(q),
            0 <= k < self.children[q].len(),
            self.children[q][k] == n,
        ensures
            self.children[q].index_of(n) == k,
    {
        let k0 = self.children[q].index_of(n);
        assert(0 <= k0 < self.children[q].len() && self.children[q][k0] == n);
        if k0 < k {
            assert(self.children[q][k0] != self.children[q][k]);
        } else if k < k0 {
            assert(self.children[q][k] != self.children[q][k0]);
        }
    }

    /// Destroying a node keeps the forest a forest, and makes roots of
    /// its children.
    pub proof fn lemma_destroyed_wf(self, n: usize)
        requires
            self.wf(),
            self.is_live(n as int),
        ensures
            self.destroyed(n).wf(),
            forall|i: int|
                self.destroyed(n).live_parent(i) == if i == n || self.live_parent(i) == Some(
                    n as int,
                ) {
                    None
                } else {
                    self.live_parent(i)
                },
    {
        let after = self.destroyed(n);
        assert forall|i: int|
            after.live_parent(i) == if i == n || self.live_parent(i) == Some(n as int) {
                None
            } else {
                self.live_parent(i)
            } by {}
        match self.live_parent(n as int) {
            Some(q) => {
                assert(self.lists(q, n as int));
                let k0 = choose|k: int|
                    0 <= k < self.children[q].len() && #[trigger] self.children[q][k] as int == n;
                self.lemma_listed_once(q, n, k0);
                let kept = self.children[q].remove(k0);
                assert(after.children[q] == kept);
                assert forall|k: int| 0 <= k < kept.len() implies #[trigger] kept[k] == self.children[q][if k
                    < k0 {
                    k
                } else {
                    k + 1
                }] by {}
                assert forall|p: int, k: int|
                    after.is_live(p) && 0 <= k < after.children[p].len() implies after.live_parent(
                    #[trigger] after.children[p][k] as int,
                ) == Some(p) by {
                    if p == q {
                        let k1 = if k < k0 {
                            k
                        } else {
                            k + 1
                        };
                        assert(kept[k] == self.children[q][k1]);
                        assert(self.live_parent(self.children[q][k1] as int) == Some(q));
                        if k1 < k0 {
                            assert(self.children[q][k1] != self.children[q][k0]);
                        } else {
                            assert(self.children[q][k0] != self.children[q][k1]);
                        }
                    } else {
                        let x = self.children[p][k];
                        assert(self.live_parent(x as int) == Some(p));
                    }
                }
                assert forall|p: int, j: int, k: int|
                    after.is_live(p) && 0 <= j < k < after.children[p].len() implies #[trigger] after.children[p][j]
                    != #[trigger] after.children[p][k] by {
                    if p == q {
                        let j1 = if j < k0 {
                            j
                        } else {
                            j + 1
                        };
                        let k1 = if k < k0 {
                            k
                        } else {
                            k + 1
                        };
                        assert(kept[j] == self.children[q][j1]);
                        assert(kept[k] == self.children[q][k1]);
                        assert(self.children[q][j1] != self.children[q][k1]);
                    } else {
                        assert(self.children[p][j] != self.children[p][k]);
                    }
                }
                assert forall|i: int| (#[trigger] after.live_parent(i)) is Some implies after.lists(
                    after.live_parent(i)->0,
                    i,
                ) by {
                    let p = after.live_parent(i)->0;
                    assert(self.lists(p, i));
                    let k = choose|k: int|
                        0 <= k < self.children[p].len() && #[trigger] self.children[p][k] as int
                            == i;
                    if p == q {
                        let k2 = if k < k0 {
                            k
                        } else {
                            k - 1
                        };
                        assert(kept[k2] == self.children[q][k]);
                        assert(after.children[p][k2] as int == i);
                    } else {
                        assert(after.children[p][k] as int == i);
                    }
                }
            },
            None => {
                assert forall|p: int, k: int|
                    after.is_live(p) && 0 <= k < after.children[p].len() implies after.live_parent(
                    #[trigger] after.children[p][k] as int,
                ) == Some(p) by {
                    let x = self.children[p][k];
                    assert(self.live_parent(x as int) == Some(p));
                }
                assert forall|i: int| (#[trigger] after.live_parent(i)) is Some implies after.lists(
                    after.live_parent(i)->0,
                    i,
                ) by {
                    let p = after.live_parent(i)->0;
                    assert(self.lists(p, i));
                    let k = choose|k: int|
                        0 <= k < self.children[p].len() && #[trigger] self.children[p][k] as int
                            == i;
                    assert(after.children[p][k] as int == i);
                }
            },
        }
    }

    /// After `n` was destroyed, the subtree of one of its children holds
    /// only what was below `n` before.
    pub proof fn lemma_destroyed_subtree(self, n: usize, c: int, i: int)
        requires
            self.wf(),
            self.is_live(n as int),
            self.live_parent(c) == Some(n as int),
            self.destroyed(n).in_subtree(c, i),
        ensures
            self.in_subtree(n as int, i),
        decreases self.top - self.rank[i],
    {
        self.lemma_destroyed_wf(n);
        if i == c {
            assert(self.in_subtree(n as int, n as int));
        } else {
            let q = self.destroyed(n).live_parent(i)->0;
            self.lemma_destroyed_subtree(n, c, q);
        }
    }
}

} // verus!
