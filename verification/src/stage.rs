//! The cast at the start: the controlled entity, and the crowd that
//! stands in a square beside it.

use vstd::prelude::*;
use crate::linear::{vec3_from_ints, vec3_of};
use crate::scene::Scene;
use crate::tiles::{decimal, decimal_of};
use crate::transform::Transform;

verus! {

/// Where the controlled entity starts, in x and in y.
pub const HERO_START: u32 = 400;

/// The number of entities along each side of the crowd.
pub const CROWD_SIDE: u32 = 10;

/// The distance between neighbours in the crowd, and from the origin to
/// the first of them.
pub const CROWD_STEP: u32 = 32;

/// `t` is the controlled entity as it starts: at (400, 400, 0),
/// unturned, of unit scale, labelled, showing sprite 0 unflipped.
pub open spec fn is_hero(t: Transform) -> bool {
    &&& t.position == vec3_of(HERO_START as int, HERO_START as int, 0)
    &&& t.rotation == vec3_of(0, 0, 0)
    &&& t.scale == vec3_of(1, 1, 1)
    &&& t.label is Some
    &&& t.label->0@ == "transform"@
    &&& t.index == 0
    &&& t.flip_x == 0
}

/// The place, among the entities of the crowd, of the one in column `x`
/// and row `y`: row after row.
pub open spec fn crowd_place(x: int, y: int) -> int {
    y * CROWD_SIDE + x
}

/// `t` is the entity of the crowd in column `x` and row `y`, as it
/// starts: one step from the origin and from each neighbour, unturned, of
/// unit scale, labelled with its place, showing sprite 0 unflipped.
pub open spec fn is_crowd_member(t: Transform, x: int, y: int) -> bool {
    &&& t.position == vec3_of(CROWD_STEP + x * CROWD_STEP, CROWD_STEP + y * CROWD_STEP, 0)
    &&& t.rotation == vec3_of(0, 0, 0)
    &&& t.scale == vec3_of(1, 1, 1)
    &&& t.label is Some
    &&& t.label->0@ == decimal_of(crowd_place(x, y))
    &&& t.index == 0
    &&& t.flip_x == 0
}

/// Adds the controlled entity to the scene, as a root. Returns its slot.
pub fn place_hero(scene: &mut Scene) -> (id: usize)
    requires
        old(scene).wf(),
    ensures
        final(scene).wf(),
        final(scene).extends(old(scene)),
        final(scene).len() == old(scene).len() + 1,
        id == old(scene).len(),
        is_hero(final(scene).node(id as int)),
{
    let mut t = Transform::new();
    t.label = Some("transform".to_owned());
    t.position = vec3_from_ints(HERO_START as i128, HERO_START as i128, 0);
    scene.add(t)
}

/// Adds the crowd to the scene: a square of roots, row after row.
/// Returns their slots in that order.
pub fn seed_crowd(scene: &mut Scene) -> (ids: Vec<usize>)
    requires
        old(scene).wf(),
    ensures
        final(scene).wf(),
        final(scene).extends(old(scene)),
        final(scene).len() == old(scene).len() + CROWD_SIDE * CROWD_SIDE,
        ids.len() == CROWD_SIDE * CROWD_SIDE,
        forall|k: int| 0 <= k < ids.len() ==> #[trigger] ids[k] == old(scene).len() + k,
        forall|x: int, y: int|
            0 <= x < CROWD_SIDE && 0 <= y < CROWD_SIDE ==> is_crowd_member(
                final(scene).node(old(scene).len() + #[trigger] crowd_place(x, y)),
                x,
                y,
            ),
{
    let ghost base = old(scene).len() as int;
    let mut ids: Vec<usize> = Vec::new();
    let mut y: u32 = 0;
    while y < CROWD_SIDE
        invariant
            base == old(scene).len(),
            y <= CROWD_SIDE,
            scene.wf(),
            scene.extends(old(scene)),
            scene.len() == base + y * CROWD_SIDE,
            ids.len() == y * CROWD_SIDE,
            forall|k: int| 0 <= k < ids.len() ==> #[trigger] ids[k] == base + k,
            forall|i: int, j: int|
                0 <= i < CROWD_SIDE && 0 <= j < y ==> is_crowd_member(
                    scene.node(base + #[trigger] crowd_place(i, j)),
                    i,
                    j,
                ),
        decreases CROWD_SIDE - y,
    {
        let mut x: u32 = 0;
        while x < CROWD_SIDE
            invariant
                base == old(scene).len(),
                y < CROWD_SIDE,
                x <= CROWD_SIDE,
                scene.wf(),
                scene.extends(old(scene)),
                scene.len() == base + y * CROWD_SIDE + x,
                ids.len() == y * CROWD_SIDE + x,
                forall|k: int| 0 <= k < ids.len() ==> #[trigger] ids[k] == base + k,
                forall|i: int, j: int|
                    0 <= i < CROWD_SIDE && 0 <= j < y ==> is_crowd_member(
                        scene.node(base + #[trigger] crowd_place(i, j)),
                        i,
                        j,
                    ),
                forall|i: int|
                    0 <= i < x ==> is_crowd_member(
                        scene.node(base + #[trigger] crowd_place(i, y as int)),
                        i,
                        y as int,
                    ),
            decreases CROWD_SIDE - x,
        {
            let mut t = Transform::new();
            t.position = vec3_from_ints(
                (CROWD_STEP + x * CROWD_STEP) as i128,
                (CROWD_STEP + y * CROWD_STEP) as i128,
                0,
            );
            t.label = Some(decimal((x + y * CROWD_SIDE) as i32));
            let ghost before = *scene;
            let slot = scene.add(t);
            ids.push(slot);
            proof {
                scene.lemma_extends_twice(&before, old(scene));
                assert(slot == base + crowd_place(x as int, y as int));
                assert forall|i: int, j: int| 0 <= i < CROWD_SIDE && 0 <= j < y implies is_crowd_member(
                    scene.node(base + #[trigger] crowd_place(i, j)),
                    i,
                    j,
                ) by {
                    assert(scene.node(base + crowd_place(i, j)) == before.node(
                        base + crowd_place(i, j),
                    ));
                }
                assert forall|i: int| 0 <= i < x + 1 implies is_crowd_member(
                    scene.node(base + #[trigger] crowd_place(i, y as int)),
                    i,
                    y as int,
                ) by {
                    if i < x {
                        assert(scene.node(base + crowd_place(i, y as int)) == before.node(
                            base + crowd_place(i, y as int),
                        ));
                    }
                }
            }
            x += 1;
        }
        y += 1;
    }
    ids
}

} // verus!
