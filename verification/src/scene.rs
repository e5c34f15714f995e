//! The scene: the owner of the entities, and the keeper of their world
//! matrices.
//!
//! Entities live in numbered slots. A slot's number is handed out when the
//! entity is added, never given to another entity, and stays harmless to
//! hold after the entity is destroyed: whoever names a destroyed parent
//! has no parent.

use vstd::prelude::*;
use nalgebra_glm::{Mat4, Vec3};
use crate::hierarchy::Shape;
use crate::linear::{
    mat4_mul, mat4_product, vec3_add, vec3_difference, vec3_div, vec3_quotient, vec3_sub, vec3_sum,
};
use crate::transform::{is_model_matrix, Transform};

verus! {

struct Slot {
    node: Transform,
    local: Mat4,
    parent: Option<usize>,
    children: Vec<usize>,
    alive: bool,
}

pub struct Scene {
    slots: Vec<Slot>,
    rank: Ghost<Seq<nat>>,
    top: Ghost<nat>,
}

impl Scene {
    /// The parent/child relation of the scene.
    pub closed spec fn shape(&self) -> Shape {
        Shape {
            live: Seq::new(self.slots@.len(), |i: int| self.slots@[i].alive),
            parent: Seq::new(self.slots@.len(), |i: int| self.slots@[i].parent),
            children: Seq::new(self.slots@.len(), |i: int| self.slots@[i].children@),
            rank: self.rank@,
            top: self.top@,
        }
    }

    /// The entity in slot `i`.
    pub closed spec fn node(&self, i: int) -> Transform {
        self.slots@[i].node
    }

    /// The local matrix of the entity in slot `i`, as last computed.
    pub closed spec fn local(&self, i: int) -> Mat4 {
        self.slots@[i].local
    }

    /// The number of slots, live or not.
    pub open spec fn len(&self) -> nat {
        self.shape().len()
    }

    pub open spec fn is_live(&self, i: int) -> bool {
        self.shape().is_live(i)
    }

    /// The world matrix of `i` is its live parent's world matrix times its
    /// own local matrix, or its local matrix where it has no live parent.
    pub open spec fn composed(&self, i: int) -> bool {
        match self.shape().live_parent(i) {
            Some(p) => self.node(i).matrix == mat4_product(self.node(p).matrix, self.local(i)),
            None => self.node(i).matrix == self.local(i),
        }
    }

    /// The local matrix of `i` comes of its position, its rotation and
    /// its scale.
    pub open spec fn modelled(&self, i: int) -> bool {
        is_model_matrix(
            self.local(i),
            self.node(i).position,
            self.node(i).rotation,
            self.node(i).scale,
        )
    }

    /// The entities form a forest, and every live one has its matrices in
    /// step with its placement and its parent.
    pub open spec fn wf(&self) -> bool {
        &&& self.shape().wf()
        &&& forall|i: int| self.is_live(i) ==> #[trigger] self.composed(i)
        &&& forall|i: int| self.is_live(i) ==> #[trigger] self.modelled(i)
    }

    /// Nothing but world matrices sets `self` apart from `old`.
    pub open spec fn same_but_worlds(&self, old: &Scene) -> bool {
        &&& self.shape() == old.shape()
        &&& forall|i: int|
            0 <= i < self.len() ==> self.local(i) == old.local(i) && (#[trigger] self.node(
                i,
            )).same_payload(&old.node(i))
    }

    proof fn lemma_same_shape(&self, old: &Scene)
        requires
            self.slots@.len() == old.slots@.len(),
            self.rank@ == old.rank@,
            self.top@ == old.top@,
            forall|i: int|
                0 <= i < self.slots@.len() ==> {
                    let a = #[trigger] self.slots@[i];
                    let b = old.slots@[i];
                    &&& a.parent == b.parent
                    &&& a.children@ == b.children@
                    &&& a.alive == b.alive
                },
        ensures
            self.shape() == old.shape(),
    {
        assert(self.shape().live =~= old.shape().live);
        assert(self.shape().parent =~= old.shape().parent);
        assert(self.shape().children =~= old.shape().children);
    }

    /// The positions of all entities, by slot.
    pub open spec fn positions(&self) -> Seq<Vec3> {
        Seq::new(self.len(), |i: int| self.node(i).position)
    }

    /// The rotations of all entities, by slot.
    pub open spec fn rotations(&self) -> Seq<Vec3> {
        Seq::new(self.len(), |i: int| self.node(i).rotation)
    }

    /// The positions of `i` and of its live ancestors, summed from the
    /// root down.
    pub open spec fn global_position_of(&self, i: int) -> Vec3 {
        self.shape().chain_sum(self.positions(), i)
    }

    /// The rotations of `i` and of its live ancestors, summed from the
    /// root down.
    pub open spec fn global_rotation_of(&self, i: int) -> Vec3 {
        self.shape().chain_sum(self.rotations(), i)
    }

    /// Outside the subtree of `node`, nothing sets `self` apart from `old`.
    pub open spec fn untouched_outside(&self, old: &Scene, node: int) -> bool {
        forall|i: int|
            0 <= i < old.len() && !old.shape().in_subtree(node, i) ==> #[trigger] self.node(i)
                == old.node(i) && self.local(i) == old.local(i)
    }

    /// The local matrix of every entity but `node` is as in `old`.
    pub open spec fn locals_kept_except(&self, old: &Scene, node: int) -> bool {
        forall|i: int| 0 <= i < old.len() && i != node ==> #[trigger] self.local(i) == old.local(i)
    }

    /// Label, placement, sprite and flip of every entity but `node` are as
    /// in `old`.
    pub open spec fn payload_kept_except(&self, old: &Scene, node: int) -> bool {
        forall|i: int|
            0 <= i < old.len() && i != node ==> (#[trigger] self.node(i)).same_payload(
                &old.node(i),
            )
    }

    /// A scene without entities.
    pub fn new() -> (scene: Scene)
        ensures
            scene.wf(),
            scene.len() == 0,
    {
        Scene { slots: Vec::new(), rank: Ghost(Seq::empty()), top: Ghost(0) }
    }

    /// The number of slots handed out so far.
    pub fn slot_count(&self) -> (n: usize)
        ensures
            n == self.len(),
    {
        self.slots.len()
    }

    /// Whether `id` names an entity that has not been destroyed.
    pub fn is_alive(&self, id: usize) -> (r: bool)
        ensures
            r == self.is_live(id as int),
    {
        id < self.slots.len() && self.slots[id].alive
    }

    /// The entity in slot `id`, unless it was destroyed or never was.
    pub fn get(&self, id: usize) -> (r: Option<&Transform>)
        ensures
            r is Some <==> self.is_live(id as int),
            r is Some ==> *r->0 == self.node(id as int),
    {
        if id < self.slots.len() && self.slots[id].alive {
            Some(&self.slots[id].node)
        } else {
            None
        }
    }

    /// The entity in slot `id`, which is live.
    pub fn entity(&self, id: usize) -> (t: &Transform)
        requires
            self.is_live(id as int),
        ensures
            *t == self.node(id as int),
    {
        &self.slots[id].node
    }

    /// `self` is `old` with more entities added: what was there is as it
    /// was, and every new entity is a live root without children.
    pub open spec fn extends(&self, old: &Scene) -> bool {
        &&& old.len() <= self.len()
        &&& forall|i: int|
            0 <= i < old.len() ==> {
                &&& #[trigger] self.node(i) == old.node(i)
                &&& self.local(i) == old.local(i)
                &&& self.shape().live[i] == old.shape().live[i]
                &&& self.shape().parent[i] == old.shape().parent[i]
                &&& self.shape().children[i] == old.shape().children[i]
            }
        &&& forall|i: int|
            old.len() <= i < self.len() ==> {
                &&& #[trigger] self.shape().live[i]
                &&& self.shape().parent[i] is None
                &&& self.shape().children[i].len() == 0
            }
    }

    /// Adding more to a scene that was added to extends the first scene.
    pub proof fn lemma_extends_twice(&self, mid: &Scene, old: &Scene)
        requires
            self.extends(mid),
            mid.extends(old),
        ensures
            self.extends(old),
    {
        assert forall|i: int| 0 <= i < old.len() implies {
            &&& #[trigger] self.node(i) == old.node(i)
            &&& self.local(i) == old.local(i)
            &&& self.shape().live[i] == old.shape().live[i]
            &&& self.shape().parent[i] == old.shape().parent[i]
            &&& self.shape().children[i] == old.shape().children[i]
        } by {
            assert(mid.node(i) == old.node(i));
        }
        assert forall|i: int| old.len() <= i < self.len() implies {
            &&& #[trigger] self.shape().live[i]
            &&& self.shape().parent[i] is None
            &&& self.shape().children[i].len() == 0
        } by {
            if i < mid.len() {
                assert(mid.shape().live[i]);
                assert(self.node(i) == mid.node(i));
            }
        }
    }

    /// Takes `t` into the scene as a root and computes its matrices from
    /// its placement. Returns its slot.
    pub fn add(&mut self, t: Transform) -> (id: usize)
        requires
            old(self).wf(),
        ensures
            final(self).wf(),
            id == old(self).len(),
            final(self).shape().live == old(self).shape().live.push(true),
            final(self).shape().parent == old(self).shape().parent.push(None),
            final(self).shape().children == old(self).shape().children.push(Seq::empty()),
            final(self).node(id as int).same_payload(&t),
            forall|i: int|
                0 <= i < old(self).len() ==> #[trigger] final(self).node(i) == old(self).node(i)
                    && final(self).local(i) == old(self).local(i),
            final(self).extends(old(self)),
    {
        let id = self.slots.len();
        let local = t.get_local_model_matrix();
        let mut node = t;
        node.matrix = local;
        let slot = Slot { node, local, parent: None, children: Vec::new(), alive: true };
        self.slots.push(slot);
        self.rank = Ghost(self.rank@.push(0));
        proof {
            let before = old(self).shape();
            let after = self.shape();
            assert(after.live =~= before.live.push(true));
            assert(after.parent =~= before.parent.push(None));
            assert(after.children =~= before.children.push(Seq::empty()));
            assert forall|i: int| 0 <= i < before.len() implies after.live_parent(i)
                == before.live_parent(i) by {
                assert(before.parent[i] is Some ==> before.parent[i]->0 < before.len());
            }
            assert(after.live_parent(id as int) is None);
            assert forall|i: int| (#[trigger] after.live_parent(i)) is Some implies after.lists(
                after.live_parent(i)->0,
                i,
            ) by {
                let p = before.live_parent(i)->0;
                assert(before.lists(p, i));
                let k = choose|k: int|
                    0 <= k < before.children[p].len() && #[trigger] before.children[p][k] as int
                        == i;
                assert(after.children[p][k] as int == i);
            }
            assert forall|i: int| self.is_live(i) implies #[trigger] self.composed(i) by {
                if i < before.len() {
                    assert(old(self).composed(i));
                }
            }
            assert forall|i: int| self.is_live(i) implies #[trigger] self.modelled(i) by {
                if i < before.len() {
                    assert(old(self).modelled(i));
                }
            }
        }
        id
    }

    /// Sets the sprite of the entity in slot `node`.
    pub fn set_index(&mut self, node: usize, index: i32)
        requires
            old(self).is_live(node as int),
        ensures
            final(self).shape() == old(self).shape(),
            old(self).wf() ==> final(self).wf(),
            final(self).node(node as int) == (Transform { index, ..old(self).node(node as int) }),
            forall|i: int| 0 <= i < old(self).len() ==> final(self).local(i) == old(self).local(i),
            forall|i: int|
                0 <= i < old(self).len() && i != node ==> #[trigger] final(self).node(i) == old(
                    self,
                ).node(i),
    {
        self.slots[node].node.index = index;
        proof {
            self.lemma_same_shape(old(self));
            self.lemma_matrices_kept(old(self));
        }
    }

    /// Sets the horizontal flip of the entity in slot `node`.
    pub fn set_flip_x(&mut self, node: usize, flip_x: i32)
        requires
            old(self).is_live(node as int),
        ensures
            final(self).shape() == old(self).shape(),
            old(self).wf() ==> final(self).wf(),
            final(self).node(node as int) == (Transform { flip_x, ..old(self).node(node as int) }),
            forall|i: int| 0 <= i < old(self).len() ==> final(self).local(i) == old(self).local(i),
            forall|i: int|
                0 <= i < old(self).len() && i != node ==> #[trigger] final(self).node(i) == old(
                    self,
                ).node(i),
    {
        self.slots[node].node.flip_x = flip_x;
        proof {
            self.lemma_same_shape(old(self));
            self.lemma_matrices_kept(old(self));
        }
    }

    /// Sets the label of the entity in slot `node`.
    pub fn set_label(&mut self, node: usize, label: Option<String>)
        requires
            old(self).is_live(node as int),
        ensures
            final(self).shape() == old(self).shape(),
            old(self).wf() ==> final(self).wf(),
            final(self).node(node as int) == (Transform { label, ..old(self).node(node as int) }),
            forall|i: int| 0 <= i < old(self).len() ==> final(self).local(i) == old(self).local(i),
            forall|i: int|
                0 <= i < old(self).len() && i != node ==> #[trigger] final(self).node(i) == old(
                    self,
                ).node(i),
    {
        self.slots[node].node.label = label;
        proof {
            self.lemma_same_shape(old(self));
            self.lemma_matrices_kept(old(self));
        }
    }

    /// Where shape, matrices and placements are as in `old`, the matrices
    /// are in step as they were in `old`.
    proof fn lemma_matrices_kept(&self, old: &Scene)
        requires
            self.shape() == old.shape(),
            forall|i: int|
                0 <= i < old.len() ==> {
                    &&& self.local(i) == old.local(i)
                    &&& (#[trigger] self.node(i)).matrix == old.node(i).matrix
                    &&& self.node(i).position == old.node(i).position
                    &&& self.node(i).rotation == old.node(i).rotation
                    &&& self.node(i).scale == old.node(i).scale
                },
        ensures
            old.wf() ==> self.wf(),
    {
        if old.wf() {
            assert forall|i: int| self.is_live(i) implies #[trigger] self.composed(i) by {
                assert(old.composed(i));
            }
            assert forall|i: int| self.is_live(i) implies #[trigger] self.modelled(i) by {
                assert(old.modelled(i));
            }
        }
    }

    /// A scene that was in step stays so when one entity is placed anew
    /// and its subtree refreshed.
    proof fn lemma_wf_after_placement(&self, old: &Scene, node: int)
        requires
            old.wf(),
            old.is_live(node),
            self.shape() == old.shape(),
            self.payload_kept_except(old, node),
            forall|i: int| 0 <= i < old.len() && i != node ==> self.local(i) == old.local(i),
            self.modelled(node),
            forall|i: int| old.shape().in_subtree(node, i) ==> self.composed(i),
            forall|i: int| old.is_live(i) && old.composed(i) ==> self.composed(i),
        ensures
            self.wf(),
    {
        assert forall|i: int| self.is_live(i) implies #[trigger] self.composed(i) by {
            assert(old.composed(i));
        }
        assert forall|i: int| self.is_live(i) implies #[trigger] self.modelled(i) by {
            if i != node {
                assert(old.modelled(i));
                assert(self.node(i).same_payload(&old.node(i)));
            }
        }
    }

    /// Gives `node` a new placement, recomputes its local matrix, and
    /// brings the world matrices of its subtree in step.
    fn set_placement(&mut self, node: usize, position: Vec3, rotation: Vec3, scale: Vec3)
        requires
            old(self).shape().wf(),
            old(self).is_live(node as int),
        ensures
            final(self).shape() == old(self).shape(),
            final(self).node(node as int).position == position,
            final(self).node(node as int).rotation == rotation,
            final(self).node(node as int).scale == scale,
            final(self).node(node as int).label == old(self).node(node as int).label,
            final(self).node(node as int).index == old(self).node(node as int).index,
            final(self).node(node as int).flip_x == old(self).node(node as int).flip_x,
            final(self).payload_kept_except(old(self), node as int),
            final(self).untouched_outside(old(self), node as int),
            forall|i: int|
                0 <= i < old(self).len() && i != node ==> final(self).local(i) == old(self).local(
                    i,
                ),
            final(self).modelled(node as int),
            forall|i: int|
                old(self).shape().in_subtree(node as int, i) ==> final(self).composed(i),
            forall|i: int|
                old(self).is_live(i) && old(self).composed(i) ==> final(self).composed(i),
    {
        self.slots[node].node.position = position;
        self.slots[node].node.rotation = rotation;
        self.slots[node].node.scale = scale;
        let local = self.slots[node].node.get_local_model_matrix();
        self.slots[node].local = local;
        let ghost before = *self;
        proof {
            self.lemma_same_shape(old(self));
        }
        self.refresh(node);
        proof {
            let shape = old(self).shape();
            assert(shape.in_subtree(node as int, node as int));
            assert forall|i: int| 0 <= i < old(self).len() && i != node implies self.local(i)
                == old(self).local(i) by {
                assert(self.node(i).same_payload(&before.node(i)));
            }
            assert forall|i: int|
                0 <= i < old(self).len() && !shape.in_subtree(node as int, i) implies #[trigger] self.node(i)
                == old(self).node(i) && self.local(i) == old(self).local(i) by {
                assert(self.node(i).same_payload(&before.node(i)));
                assert(before.node(i) == old(self).node(i));
            }
            assert forall|i: int| old(self).is_live(i) && old(self).composed(i) implies self.composed(
                i,
            ) by {
                if !shape.in_subtree(node as int, i) {
                    if shape.live_parent(i) == Some(node as int) {
                        assert(shape.in_subtree(node as int, node as int));
                    }
                    assert(before.composed(i));
                }
            }
        }
    }

    /// Destroys the entity in slot `node`. Its parent lists it no more.
    /// Its children stay, each as a root: their world matrices, and those
    /// of their descendants, are brought in step.
    pub fn destroy(&mut self, node: usize)
        requires
            old(self).wf(),
            old(self).is_live(node as int),
        ensures
            final(self).wf(),
            final(self).shape() == old(self).shape().destroyed(node),
            forall|i: int|
                0 <= i < old(self).len() ==> (#[trigger] final(self).node(i)).same_payload(
                    &old(self).node(i),
                ) && final(self).local(i) == old(self).local(i),
            final(self).untouched_outside(old(self), node as int),
    {
        let ghost before = old(self).shape();
        match self.slots[node].parent {
            Some(q) => {
                assert(before.parent[node as int] == Some(q));
                if self.slots[q].alive {
                    proof {
                        assert(before.live_parent(node as int) == Some(q as int));
                        assert(before.lists(q as int, node as int));
                        assert(before.children[q as int] == self.slots@[q as int].children@);
                    }
                    let ghost at = choose|k: int|
                        0 <= k < before.children[q as int].len()
                            && #[trigger] before.children[q as int][k] as int == node;
                    let count = self.slots[q].children.len();
                    let mut k: usize = 0;
                    while self.slots[q].children[k] != node
                        invariant
                            at < count,
                            *self == *old(self),
                            q < self.slots@.len(),
                            before.children.len() == self.slots@.len(),
                            before.children[q as int] == self.slots@[q as int].children@,
                            0 <= k <= at < before.children[q as int].len(),
                            before.children[q as int][at] == node,
                        decreases at - k,
                    {
                        assert(k != at);
                        k += 1;
                    }
                    proof {
                        before.lemma_listed_once(q as int, node, k as int);
                    }
                    self.slots[q].children.remove(k);
                }
            },
            None => {},
        }
        self.slots[node].alive = false;
        proof {
            before.lemma_destroyed_wf(node);
            let after = before.destroyed(node);
            assert(self.shape().live =~= after.live);
            assert(self.shape().parent =~= after.parent);
            assert(self.shape().children =~= after.children);
            assert(self.shape() == after);
            assert forall|i: int|
                self.is_live(i) && before.live_parent(i) != Some(
                    node as int,
                ) implies self.composed(i) by {
                assert(old(self).composed(i));
            }
            assert(self.shape().children[node as int] == self.slots@[node as int].children@);
        }
        let ghost marked = *self;
        let n = self.slots[node].children.len();
        let mut k: usize = 0;
        while k < n
            invariant
                k <= n,
                n == before.children[node as int].len(),
                before == old(self).shape(),
                old(self).wf(),
                old(self).is_live(node as int),
                marked.shape() == before.destroyed(node),
                marked.shape().wf(),
                self.same_but_worlds(&marked),
                forall|i: int|
                    0 <= i < old(self).len() ==> marked.local(i) == old(self).local(i) && (
                    #[trigger] marked.node(i)) == old(self).node(i),
                forall|i: int|
                    0 <= i < old(self).len() && !before.in_subtree(node as int, i)
                        ==> self.node(i).matrix == old(self).node(i).matrix,
                forall|i: int|
                    self.is_live(i) && before.live_parent(i) != Some(node as int)
                        ==> self.composed(i),
                forall|j: int| 0 <= j < k ==> self.composed(before.children[node as int][j] as int),
            decreases n - k,
        {
            proof {
                assert(self.shape().children[node as int] == self.slots@[node as int].children@);
                assert(before.live_parent(node as int) != Some(node as int));
            }
            let c = self.slots[node].children[k];
            let ghost earlier = *self;
            proof {
                assert(c == before.children[node as int][k as int]);
                assert(before.live_parent(c as int) == Some(node as int));
                assert(marked.shape().in_subtree(c as int, c as int));
            }
            self.refresh(c);
            proof {
                assert forall|i: int|
                    0 <= i < old(self).len() && !before.in_subtree(
                        node as int,
                        i,
                    ) implies self.node(i).matrix == old(self).node(i).matrix by {
                    if marked.shape().in_subtree(c as int, i) {
                        before.lemma_destroyed_subtree(node, c as int, i);
                    }
                }
                assert forall|i: int|
                    self.is_live(i) && before.live_parent(i) != Some(
                        node as int,
                    ) implies self.composed(i) by {
                    assert(earlier.composed(i));
                }
                assert forall|j: int| 0 <= j < k + 1 implies self.composed(
                    before.children[node as int][j] as int,
                ) by {
                    if j < k {
                        let x = before.children[node as int][j] as int;
                        assert(before.live_parent(x) == Some(node as int));
                        assert(earlier.composed(x));
                    }
                }
            }
            k += 1;
        }
        proof {
            assert forall|i: int| self.is_live(i) implies #[trigger] self.composed(i) by {
                if before.live_parent(i) == Some(node as int) {
                    assert(before.lists(node as int, i));
                }
            }
            assert forall|i: int| self.is_live(i) implies #[trigger] self.modelled(i) by {
                assert(old(self).modelled(i));
                assert(self.node(i).same_payload(&marked.node(i)));
            }
            assert forall|i: int| 0 <= i < old(self).len() implies (#[trigger] self.node(
                i,
            )).same_payload(&old(self).node(i)) && self.local(i) == old(self).local(i) by {
                assert(self.node(i).same_payload(&marked.node(i)));
            }
            assert forall|i: int|
                0 <= i < old(self).len() && !before.in_subtree(
                    node as int,
                    i,
                ) implies #[trigger] self.node(i) == old(self).node(i) && self.local(i) == old(
                self,
            ).local(i) by {
                assert(self.node(i).same_payload(&marked.node(i)));
            }
        }
    }

    /// The live parent of `node`, if it has one.
    pub fn parent_of(&self, node: usize) -> (r: Option<usize>)
        requires
            self.shape().wf(),
        ensures
            match r {
                Some(p) => self.shape().live_parent(node as int) == Some(p as int),
                None => self.shape().live_parent(node as int) is None,
            },
    {
        if node < self.slots.len() && self.slots[node].alive {
            match self.slots[node].parent {
                Some(p) => {
                    assert(self.shape().parent[node as int] == Some(p));
                    if self.slots[p].alive {
                        Some(p)
                    } else {
                        None
                    }
                },
                None => None,
            }
        } else {
            None
        }
    }

    /// The children of `node`, in the order in which they were attached;
    /// none where `node` is not live.
    pub fn children_of(&self, node: usize) -> (r: Vec<usize>)
        ensures
            r@ == if self.is_live(node as int) {
                self.shape().children[node as int]
            } else {
                Seq::empty()
            },
    {
        if node < self.slots.len() && self.slots[node].alive {
            self.slots[node].children.clone()
        } else {
            Vec::new()
        }
    }

    /// The local matrix of `node`, as last computed.
    pub fn local_matrix(&self, node: usize) -> (r: Option<Mat4>)
        ensures
            r == if self.is_live(node as int) {
                Some(self.local(node as int))
            } else {
                None
            },
    {
        if node < self.slots.len() && self.slots[node].alive {
            Some(self.slots[node].local)
        } else {
            None
        }
    }

    /// World matrices follow parents: in a scene that is in step, the
    /// world matrix of an entity with a live parent is the parent's world
    /// matrix times the entity's local matrix. Every operation on a scene
    /// leaves it in step, so this holds after any change to the parent or
    /// to one of its ancestors.
    pub proof fn lemma_world_follows_parent(&self, n: int, p: int)
        requires
            self.wf(),
            self.shape().live_parent(n) == Some(p),
        ensures
            self.node(n).matrix == mat4_product(self.node(p).matrix, self.local(n)),
    {
        assert(self.composed(n));
    }

    /// In a scene that is in step, the world matrix of a live entity
    /// without a live parent is its local matrix.
    pub proof fn lemma_world_of_root(&self, n: int)
        requires
            self.wf(),
            self.is_live(n),
            self.shape().live_parent(n) is None,
        ensures
            self.node(n).matrix == self.local(n),
    {
        assert(self.composed(n));
    }

    /// What attaching does to the global position of the child: it
    /// becomes the global position of the parent plus what was left of
    /// the child's position when the parent's global position was taken
    /// off it. Likewise for the global rotation.
    pub proof fn lemma_attached_globals(&self, before: &Scene, parent: usize, child: usize)
        requires
            before.shape().wf(),
            before.shape().attachable(parent as int, child as int),
            self.shape() == before.shape().attached(parent, child),
            self.payload_kept_except(before, child as int),
            self.node(child as int).position == vec3_difference(
                before.node(child as int).position,
                before.global_position_of(parent as int),
            ),
            self.node(child as int).rotation == vec3_difference(
                before.node(child as int).rotation,
                before.global_rotation_of(parent as int),
            ),
        ensures
            self.global_position_of(child as int) == vec3_sum(
                before.global_position_of(parent as int),
                vec3_difference(
                    before.node(child as int).position,
                    before.global_position_of(parent as int),
                ),
            ),
            self.global_rotation_of(child as int) == vec3_sum(
                before.global_rotation_of(parent as int),
                vec3_difference(
                    before.node(child as int).rotation,
                    before.global_rotation_of(parent as int),
                ),
            ),
    {
        let shape = before.shape();
        shape.lemma_attached_wf(parent, child);
        assert forall|i: int| 0 <= i < shape.len() && i != child implies self.positions()[i]
            == before.positions()[i] && self.rotations()[i] == before.rotations()[i] by {
            assert(self.node(i).same_payload(&before.node(i)));
        }
        shape.lemma_attached_chain_sum(
            parent,
            child,
            before.positions(),
            self.positions(),
            parent as int,
        );
        shape.lemma_attached_chain_sum(
            parent,
            child,
            before.rotations(),
            self.rotations(),
            parent as int,
        );
    }

    /// Once its parent is destroyed, an entity is a root: its global
    /// position is its own position, and its global rotation its own
    /// rotation.
    pub proof fn lemma_destroyed_parent_leaves_root(&self, before: &Scene, parent: usize, child: int)
        requires
            before.shape().wf(),
            before.shape().live_parent(child) == Some(parent as int),
            self.shape() == before.shape().destroyed(parent),
        ensures
            self.is_live(child),
            self.shape().live_parent(child) is None,
            self.global_position_of(child) == self.node(child).position,
            self.global_rotation_of(child) == self.node(child).rotation,
    {
        before.shape().lemma_destroyed_wf(parent);
    }

    /// Recomputes the world matrix of `node` from its parent's, then those
    /// of its descendants, depth first.
    fn refresh(&mut self, node: usize)
        requires
            old(self).shape().wf(),
            old(self).is_live(node as int),
        ensures
            final(self).same_but_worlds(old(self)),
            forall|i: int|
                0 <= i < old(self).len() && !old(self).shape().in_subtree(node as int, i)
                    ==> final(self).node(i).matrix == old(self).node(i).matrix,
            forall|i: int|
                old(self).shape().in_subtree(node as int, i) ==> final(self).composed(i),
            forall|i: int|
                old(self).is_live(i) && old(self).composed(i) ==> final(self).composed(i),
        decreases old(self).shape().rank[node as int],
    {
        let local = self.slots[node].local;
        let world = match self.slots[node].parent {
            Some(p) => {
                assert(old(self).shape().parent[node as int] is Some);
                if self.slots[p].alive {
                    mat4_mul(&self.slots[p].node.matrix, &local)
                } else {
                    local
                }
            },
            None => local,
        };
        self.slots[node].node.matrix = world;
        proof {
            self.lemma_same_shape(old(self));
            assert(self.composed(node as int));
            let shape = old(self).shape();
            assert forall|i: int|
                old(self).is_live(i) && old(self).composed(i) && !shape.in_subtree(
                    node as int,
                    i,
                ) implies self.composed(i) by {
                if shape.live_parent(i) == Some(node as int) {
                    assert(shape.in_subtree(node as int, node as int));
                }
            }
            assert(self.shape().children[node as int] == self.slots@[node as int].children@);
        }
        let n = self.slots[node].children.len();
        let mut k: usize = 0;
        while k < n
            invariant
                k <= n,
                n == old(self).shape().children[node as int].len(),
                old(self).shape().wf(),
                old(self).is_live(node as int),
                self.same_but_worlds(old(self)),
                forall|i: int|
                    0 <= i < old(self).len() && !old(self).shape().in_subtree(node as int, i)
                        ==> self.node(i).matrix == old(self).node(i).matrix,
                self.composed(node as int),
                forall|i: int, j: int|
                    0 <= j < k && old(self).shape().in_subtree(
                        old(self).shape().children[node as int][j] as int,
                        i,
                    ) ==> self.composed(i),
                forall|i: int|
                    old(self).is_live(i) && old(self).composed(i) && !old(self).shape().in_subtree(
                        node as int,
                        i,
                    ) ==> self.composed(i),
            decreases n - k,
        {
            proof {
                assert(self.shape().children[node as int] == self.slots@[node as int].children@);
            }
            let c = self.slots[node].children[k];
            let ghost before = *self;
            proof {
                assert(c == old(self).shape().children[node as int][k as int]);
                assert(old(self).shape().live_parent(c as int) == Some(node as int));
            }
            self.refresh(c);
            proof {
                let shape = old(self).shape();
                assert forall|i: int| 0 <= i < old(self).len() && !shape.in_subtree(node as int, i)
                    implies self.node(i).matrix == old(self).node(i).matrix by {
                    if shape.in_subtree(c as int, i) {
                        shape.lemma_subtree_of_child(node as int, c as int, i);
                    }
                }
                assert forall|i: int, j: int|
                    0 <= j < k + 1 && shape.in_subtree(shape.children[node as int][j] as int, i)
                    implies self.composed(i) by {
                    if j < k {
                        assert(before.composed(i));
                    }
                }
                assert forall|i: int|
                    old(self).is_live(i) && old(self).composed(i) && !shape.in_subtree(
                        node as int,
                        i,
                    ) implies self.composed(i) by {
                    assert(before.composed(i));
                }
            }
            k += 1;
        }
        proof {
            let shape = old(self).shape();
            assert forall|i: int| shape.in_subtree(node as int, i) implies self.composed(i) by {
                if i != node as int {
                    shape.lemma_under_some_child(node as int, i);
                }
            }
        }
    }
}

impl Transform {
    /// Recomputes the local matrix of `node` from its placement, its
    /// world matrix from its parent's, and the world matrices of all its
    /// descendants, depth first. Whatever the matrices were before, those
    /// of `node` and of everything below it are in step afterwards; what
    /// was in step elsewhere stays so.
    pub fn update_self_and_child(scene: &mut Scene, node: usize)
        requires
            old(scene).shape().wf(),
            old(scene).is_live(node as int),
        ensures
            final(scene).shape() == old(scene).shape(),
            forall|i: int|
                0 <= i < old(scene).len() ==> (#[trigger] final(scene).node(i)).same_payload(
                    &old(scene).node(i),
                ),
            forall|i: int|
                0 <= i < old(scene).len() && i != node ==> final(scene).local(i) == old(
                    scene,
                ).local(i),
            final(scene).untouched_outside(old(scene), node as int),
            final(scene).modelled(node as int),
            forall|i: int|
                old(scene).shape().in_subtree(node as int, i) ==> final(scene).composed(i),
            forall|i: int|
                old(scene).is_live(i) && old(scene).composed(i) ==> final(scene).composed(i),
            old(scene).wf() ==> final(scene).wf(),
    {
        let position = scene.slots[node].node.position;
        let rotation = scene.slots[node].node.rotation;
        let scale = scene.slots[node].node.scale;
        scene.set_placement(node, position, rotation, scale);
        proof {
            assert forall|i: int| 0 <= i < old(scene).len() implies (#[trigger] scene.node(
                i,
            )).same_payload(&old(scene).node(i)) by {}
            if old(scene).wf() {
                scene.lemma_wf_after_placement(old(scene), node as int);
            }
        }
    }

    /// Moves `node` to `position` and brings its subtree in step.
    pub fn translate(scene: &mut Scene, node: usize, position: &Vec3)
        requires
            old(scene).wf(),
            old(scene).is_live(node as int),
        ensures
            final(scene).wf(),
            final(scene).shape() == old(scene).shape(),
            final(scene).node(node as int).position == *position,
            final(scene).node(node as int).rotation == old(scene).node(node as int).rotation,
            final(scene).node(node as int).scale == old(scene).node(node as int).scale,
            final(scene).node(node as int).label == old(scene).node(node as int).label,
            final(scene).node(node as int).index == old(scene).node(node as int).index,
            final(scene).node(node as int).flip_x == old(scene).node(node as int).flip_x,
            final(scene).payload_kept_except(old(scene), node as int),
            final(scene).locals_kept_except(old(scene), node as int),
            final(scene).untouched_outside(old(scene), node as int),
    {
        let rotation = scene.slots[node].node.rotation;
        let scale = scene.slots[node].node.scale;
        scene.set_placement(node, *position, rotation, scale);
        proof {
            scene.lemma_wf_after_placement(old(scene), node as int);
        }
    }

    /// Turns `node` to `rotation`, in degrees, and brings its subtree in
    /// step.
    pub fn rotate(scene: &mut Scene, node: usize, rotation: &Vec3)
        requires
            old(scene).wf(),
            old(scene).is_live(node as int),
        ensures
            final(scene).wf(),
            final(scene).shape() == old(scene).shape(),
            final(scene).node(node as int).position == old(scene).node(node as int).position,
            final(scene).node(node as int).rotation == *rotation,
            final(scene).node(node as int).scale == old(scene).node(node as int).scale,
            final(scene).node(node as int).label == old(scene).node(node as int).label,
            final(scene).node(node as int).index == old(scene).node(node as int).index,
            final(scene).node(node as int).flip_x == old(scene).node(node as int).flip_x,
            final(scene).payload_kept_except(old(scene), node as int),
            final(scene).locals_kept_except(old(scene), node as int),
            final(scene).untouched_outside(old(scene), node as int),
    {
        let position = scene.slots[node].node.position;
        let scale = scene.slots[node].node.scale;
        scene.set_placement(node, position, *rotation, scale);
        proof {
            scene.lemma_wf_after_placement(old(scene), node as int);
        }
    }

    /// Scales `node` by `scale` and brings its subtree in step.
    pub fn scale(scene: &mut Scene, node: usize, scale: &Vec3)
        requires
            old(scene).wf(),
            old(scene).is_live(node as int),
        ensures
            final(scene).wf(),
            final(scene).shape() == old(scene).shape(),
            final(scene).node(node as int).position == old(scene).node(node as int).position,
            final(scene).node(node as int).rotation == old(scene).node(node as int).rotation,
            final(scene).node(node as int).scale == *scale,
            final(scene).node(node as int).label == old(scene).node(node as int).label,
            final(scene).node(node as int).index == old(scene).node(node as int).index,
            final(scene).node(node as int).flip_x == old(scene).node(node as int).flip_x,
            final(scene).payload_kept_except(old(scene), node as int),
            final(scene).locals_kept_except(old(scene), node as int),
            final(scene).untouched_outside(old(scene), node as int),
    {
        let position = scene.slots[node].node.position;
        let rotation = scene.slots[node].node.rotation;
        scene.set_placement(node, position, rotation, *scale);
        proof {
            scene.lemma_wf_after_placement(old(scene), node as int);
        }
    }

    /// The position of `node` plus those of its live ancestors.
    pub fn global_position(scene: &Scene, node: usize) -> (r: Vec3)
        requires
            scene.shape().wf(),
            scene.is_live(node as int),
        ensures
            r == scene.global_position_of(node as int),
        decreases scene.shape().top - scene.shape().rank[node as int],
    {
        let own = scene.slots[node].node.position;
        match scene.slots[node].parent {
            Some(p) => {
                assert(scene.shape().parent[node as int] == Some(p));
                if scene.slots[p].alive {
                    assert(scene.shape().live_parent(node as int) == Some(p as int));
                    let above = Transform::global_position(scene, p);
                    vec3_add(&above, &own)
                } else {
                    own
                }
            },
            None => own,
        }
    }

    /// The rotation of `node` plus those of its live ancestors.
    pub fn global_rotation(scene: &Scene, node: usize) -> (r: Vec3)
        requires
            scene.shape().wf(),
            scene.is_live(node as int),
        ensures
            r == scene.global_rotation_of(node as int),
        decreases scene.shape().top - scene.shape().rank[node as int],
    {
        let own = scene.slots[node].node.rotation;
        match scene.slots[node].parent {
            Some(p) => {
                assert(scene.shape().parent[node as int] == Some(p));
                if scene.slots[p].alive {
                    assert(scene.shape().live_parent(node as int) == Some(p as int));
                    let above = Transform::global_rotation(scene, p);
                    vec3_add(&above, &own)
                } else {
                    own
                }
            },
            None => own,
        }
    }
    /// Whether `child` may be attached to `parent`: both are live, `child`
    /// has no live parent, and `parent` is neither `child` nor one of its
    /// descendants.
    pub fn can_parent(scene: &Scene, parent: usize, child: usize) -> (r: bool)
        requires
            scene.shape().wf(),
        ensures
            r == scene.shape().attachable(parent as int, child as int),
    {
        if !scene.is_alive(parent) || !scene.is_alive(child) {
            return false;
        }
        match scene.slots[child].parent {
            Some(q) => {
                assert(scene.shape().parent[child as int] == Some(q));
                if scene.slots[q].alive {
                    return false;
                }
            },
            None => {},
        }
        let mut cur = parent;
        loop
            invariant
                scene.shape().wf(),
                scene.is_live(cur as int),
                scene.is_live(parent as int),
                scene.is_live(child as int),
                scene.shape().live_parent(child as int) is None,
                scene.shape().in_subtree(child as int, parent as int) == scene.shape().in_subtree(
                    child as int,
                    cur as int,
                ),
            decreases scene.shape().top - scene.shape().rank[cur as int],
        {
            if cur == child {
                return false;
            }
            match scene.slots[cur].parent {
                Some(q) => {
                    assert(scene.shape().parent[cur as int] == Some(q));
                    if scene.slots[q].alive {
                        assert(scene.shape().live_parent(cur as int) == Some(q as int));
                        cur = q;
                    } else {
                        return true;
                    }
                },
                None => {
                    return true;
                },
            }
        }
    }

    /// Makes `child` the last child of `parent`, and rewrites the placement
    /// of `child` against that of `parent`: its scale is divided by the
    /// scale of `parent`, and the global rotation and global position of
    /// `parent` are taken off its rotation and position. The subtree of
    /// `child` is then brought in step.
    pub fn parent(scene: &mut Scene, parent: usize, child: usize)
        requires
            old(scene).wf(),
            old(scene).shape().attachable(parent as int, child as int),
        ensures
            final(scene).wf(),
            final(scene).shape() == old(scene).shape().attached(parent, child),
            final(scene).node(child as int).scale == vec3_quotient(
                old(scene).node(child as int).scale,
                old(scene).node(parent as int).scale,
            ),
            final(scene).node(child as int).rotation == vec3_difference(
                old(scene).node(child as int).rotation,
                old(scene).global_rotation_of(parent as int),
            ),
            final(scene).node(child as int).position == vec3_difference(
                old(scene).node(child as int).position,
                old(scene).global_position_of(parent as int),
            ),
            final(scene).node(child as int).label == old(scene).node(child as int).label,
            final(scene).node(child as int).index == old(scene).node(child as int).index,
            final(scene).node(child as int).flip_x == old(scene).node(child as int).flip_x,
            final(scene).payload_kept_except(old(scene), child as int),
            final(scene).locals_kept_except(old(scene), child as int),
            final(scene).untouched_outside(old(scene), child as int),
    {
        let child_position = scene.slots[child].node.position;
        let parent_position = Transform::global_position(scene, parent);
        let child_scale = scene.slots[child].node.scale;
        let parent_scale = scene.slots[parent].node.scale;
        let child_rotation = scene.slots[child].node.rotation;
        let parent_rotation = Transform::global_rotation(scene, parent);

        scene.slots[parent].children.push(child);
        scene.slots[child].parent = Some(parent);
        proof {
            let before = old(scene).shape();
            scene.rank = Ghost(before.attached(parent, child).rank);
            scene.top = Ghost(before.attached(parent, child).top);
            before.lemma_attached_wf(parent, child);
            let after = scene.shape();
            assert(after.live =~= before.attached(parent, child).live);
            assert(after.parent =~= before.attached(parent, child).parent);
            assert(after.children =~= before.attached(parent, child).children);
            assert(after == before.attached(parent, child));
        }
        let ghost linked = *scene;

        let new_position = vec3_sub(&child_position, &parent_position);
        let new_rotation = vec3_sub(&child_rotation, &parent_rotation);
        let new_scale = vec3_div(&child_scale, &parent_scale);

        scene.set_placement(child, child_position, child_rotation, new_scale);
        let ghost scaled = *scene;
        scene.set_placement(child, child_position, new_rotation, new_scale);
        let ghost rotated = *scene;
        scene.set_placement(child, new_position, new_rotation, new_scale);
        proof {
            let before = old(scene).shape();
            let after = before.attached(parent, child);
            assert forall|i: int| 0 <= i < old(scene).len() && i != child implies (#[trigger] scene.node(
                i,
            )).same_payload(&old(scene).node(i)) by {
                assert(scaled.node(i).same_payload(&linked.node(i)));
                assert(rotated.node(i).same_payload(&scaled.node(i)));
                assert(scene.node(i).same_payload(&rotated.node(i)));
            }
            assert forall|i: int|
                0 <= i < old(scene).len() && !before.in_subtree(
                    child as int,
                    i,
                ) implies #[trigger] scene.node(i) == old(scene).node(i) && scene.local(i) == old(
                scene,
            ).local(i) by {
                if after.in_subtree(child as int, i) {
                    before.lemma_attached_subtree(parent, child, i);
                }
                assert(scaled.node(i) == linked.node(i));
                assert(rotated.node(i) == scaled.node(i));
                assert(scene.node(i) == rotated.node(i));
            }
            assert forall|i: int| 0 <= i < old(scene).len() && i != child implies #[trigger] scene.local(
                i,
            ) == old(scene).local(i) by {
                assert(scaled.local(i) == linked.local(i));
                assert(rotated.local(i) == scaled.local(i));
            }
            assert(after.in_subtree(child as int, child as int));
            assert forall|i: int| scene.is_live(i) implies #[trigger] scene.composed(i) by {
                if !after.in_subtree(child as int, i) {
                    assert(old(scene).composed(i));
                    assert(linked.composed(i));
                    assert(scaled.composed(i));
                    assert(rotated.composed(i));
                }
            }
            assert forall|i: int| scene.is_live(i) implies #[trigger] scene.modelled(i) by {
                if i != child {
                    assert(old(scene).modelled(i));
                    assert(scaled.node(i).same_payload(&linked.node(i)));
                    assert(rotated.node(i).same_payload(&scaled.node(i)));
                    assert(scene.node(i).same_payload(&rotated.node(i)));
                }
            }
        }
    }
}

} // verus!
