//! One tick of the controlled entity, as far as the held keys decide it.

use vstd::prelude::*;
use nalgebra_glm::{Mat4, Vec3};
use crate::animation::Animation;
use crate::input::{classify, flip_for, pace_for, resolve_direction, Actions};
use crate::scene::Scene;
use crate::linear::{
    mat4_inverse, mat4_inverted, mat4_point, mat4_transform, vec3_add, vec3_difference, vec3_div,
    vec3_from_ints, vec3_heading, vec3_heads, vec3_mul, vec3_normalize, vec3_normalized, vec3_of, vec3_product,
    vec3_quotient, vec3_sub, vec3_sum,
};
use crate::viewport::Viewport;
use crate::transform::{is_basis_axis, Transform};

verus! {

/// `direction` is what `actions` ask for, along the first axis of an
/// entity turned by the degrees in `rotation`.
pub open spec fn is_steered(actions: Actions, rotation: Vec3, direction: Vec3) -> bool {
    exists|left: Vec3|
        is_basis_axis(left, 0, rotation) && direction == #[trigger] actions.direction(left)
}

/// The entity after a tick: flipped as `actions` ask, if they ask, and
/// showing `sprite`, if there is one.
pub open spec fn steered(t: Transform, actions: Actions, sprite: Option<i32>) -> Transform {
    Transform {
        flip_x: match actions.flip() {
            Some(f) => f,
            None => t.flip_x,
        },
        index: match sprite {
            Some(s) => s,
            None => t.index,
        },
        ..t
    }
}

/// Lets `delta` nanoseconds pass for the controlled entity `node` while
/// `actions` are held: flips it as the keys ask, moves its sprite clock
/// on, and shows the sprite that the clock gives. Returns the direction
/// in which the keys ask it to move, resolved along its first axis as it
/// is turned now. Placement and matrices are left as they are.
pub fn steer(
    scene: &mut Scene,
    node: usize,
    animation: &mut Animation,
    actions: &Actions,
    delta: u64,
) -> (direction: Vec3)
    requires
        old(scene).is_live(node as int),
        old(animation).wf(),
    ensures
        is_steered(*actions, old(scene).node(node as int).rotation, direction),
        *final(animation) == old(animation).ticked(actions.movement(), delta),
        final(animation).wf(),
        final(scene).node(node as int) == steered(
            old(scene).node(node as int),
            *actions,
            old(animation).sprite_after(actions.movement(), delta),
        ),
        final(scene).shape() == old(scene).shape(),
        old(scene).wf() ==> final(scene).wf(),
        forall|i: int| 0 <= i < old(scene).len() ==> final(scene).local(i) == old(scene).local(i),
        forall|i: int|
            0 <= i < old(scene).len() && i != node ==> #[trigger] final(scene).node(i) == old(
                scene,
            ).node(i),
{
    let left = scene.entity(node).left();
    let direction = resolve_direction(actions, &left);
    assert(direction == actions.direction(left));
    match flip_for(actions) {
        Some(f) => {
            scene.set_flip_x(node, f);
        },
        None => {},
    }
    match animation.tick(classify(actions), delta) {
        Some(s) => {
            scene.set_index(node, s);
        },
        None => {},
    }
    direction
}

/// The direction from the origin of the scene to the place under the
/// cursor: the cursor's distance from the middle of the viewport, times
/// the zoom in tenths, taken back through `view`, with its y turned over
/// and its z dropped, divided by its length.
pub open spec fn aim_of(cursor: Vec3, viewport: Viewport, zoom: u32, view: Mat4) -> Vec3 {
    let middle = vec3_quotient(
        vec3_of(viewport.width as int, viewport.height as int, 0),
        vec3_of(2, 2, 1),
    );
    let centred = vec3_difference(cursor, middle);
    let zoomed = vec3_quotient(
        vec3_product(centred, vec3_of(zoom as int, zoom as int, 0)),
        vec3_of(10, 10, 1),
    );
    let place = mat4_point(mat4_inverted(view), zoomed);
    let turned = vec3_product(place, vec3_of(1, -1, 0));
    vec3_normalized(vec3_difference(turned, vec3_of(0, 0, 0)))
}

/// The direction from the origin of the scene to the place under the
/// cursor. The place of the entity that is to face the cursor plays no
/// part in it.
pub fn aim(cursor: &Vec3, viewport: &Viewport, zoom: u32, view: &Mat4) -> (r: Vec3)
    ensures
        r == aim_of(*cursor, *viewport, zoom, *view),
{
    let sides = vec3_from_ints(viewport.width as i128, viewport.height as i128, 0);
    let two = vec3_from_ints(2, 2, 1);
    let middle = vec3_div(&sides, &two);
    let centred = vec3_sub(cursor, &middle);
    let tenths = vec3_from_ints(zoom as i128, zoom as i128, 0);
    let ten = vec3_from_ints(10, 10, 1);
    let scaled = vec3_mul(&centred, &tenths);
    let zoomed = vec3_div(&scaled, &ten);
    let back = mat4_inverse(view);
    let place = mat4_transform(&back, &zoomed);
    let over = vec3_from_ints(1, -1, 0);
    let turned = vec3_mul(&place, &over);
    let origin = vec3_from_ints(0, 0, 0);
    let from_origin = vec3_sub(&turned, &origin);
    vec3_normalize(&from_origin)
}

/// The rotation, in degrees about Z, that turns an entity towards the
/// place under the cursor as seen from the origin: the angle of
/// `aim_of`, as the arc tangent at hand gives it, and about Z alone.
pub fn heading_to_cursor(cursor: &Vec3, viewport: &Viewport, zoom: u32, view: &Mat4) -> (r: Vec3)
    ensures
        vec3_heads(r, aim_of(*cursor, *viewport, zoom, *view)),
        vec3_product(r, vec3_of(0, 0, 1)) == r,
{
    let towards = aim(cursor, viewport, zoom, view);
    vec3_heading(&towards)
}

/// The units of the scene that an entity covers in a second at pace 1.
pub const SPEED: u32 = 100;

/// How far an entity moves along `direction` in `delta` nanoseconds at
/// `pace`: the direction, times the seconds passed, times the speed,
/// times the pace.
pub open spec fn displacement_of(direction: Vec3, delta: u64, pace: u32) -> Vec3 {
    let nanos = vec3_of(delta as int, delta as int, delta as int);
    let second = vec3_of(1_000_000_000, 1_000_000_000, 1_000_000_000);
    let speed = vec3_of(SPEED as int, SPEED as int, SPEED as int);
    let pace = vec3_of(pace as int, pace as int, pace as int);
    vec3_product(
        vec3_product(vec3_product(direction, vec3_quotient(nanos, second)), speed),
        pace,
    )
}

/// How far an entity moves along `direction` in `delta` nanoseconds at
/// `pace`.
pub fn displacement(direction: &Vec3, delta: u64, pace: u32) -> (r: Vec3)
    ensures
        r == displacement_of(*direction, delta, pace),
{
    let nanos = vec3_from_ints(delta as i128, delta as i128, delta as i128);
    let second = vec3_from_ints(1_000_000_000, 1_000_000_000, 1_000_000_000);
    let speed = vec3_from_ints(SPEED as i128, SPEED as i128, SPEED as i128);
    let pace = vec3_from_ints(pace as i128, pace as i128, pace as i128);
    let seconds = vec3_div(&nanos, &second);
    let in_time = vec3_mul(direction, &seconds);
    let at_speed = vec3_mul(&in_time, &speed);
    vec3_mul(&at_speed, &pace)
}

/// Turns the controlled entity `node` to `heading`, in degrees, then
/// moves it by `displacement`, and brings its subtree in step.
pub fn advance(scene: &mut Scene, node: usize, heading: &Vec3, displacement: &Vec3)
    requires
        old(scene).wf(),
        old(scene).is_live(node as int),
    ensures
        final(scene).wf(),
        final(scene).shape() == old(scene).shape(),
        final(scene).node(node as int).rotation == *heading,
        final(scene).node(node as int).position == vec3_sum(
            old(scene).node(node as int).position,
            *displacement,
        ),
        final(scene).node(node as int).scale == old(scene).node(node as int).scale,
        final(scene).node(node as int).label == old(scene).node(node as int).label,
        final(scene).node(node as int).index == old(scene).node(node as int).index,
        final(scene).node(node as int).flip_x == old(scene).node(node as int).flip_x,
        final(scene).payload_kept_except(old(scene), node as int),
        final(scene).locals_kept_except(old(scene), node as int),
        final(scene).untouched_outside(old(scene), node as int),
{
    Transform::rotate(scene, node, heading);
    let ghost turned = *scene;
    let position = scene.entity(node).position;
    let target = vec3_add(&position, displacement);
    Transform::translate(scene, node, &target);
    proof {
        assert forall|i: int| 0 <= i < old(scene).len() && i != node implies (#[trigger] scene.node(
            i,
        )).same_payload(&old(scene).node(i)) by {
            assert(turned.node(i).same_payload(&old(scene).node(i)));
        }
        assert forall|i: int|
            0 <= i < old(scene).len() && !old(scene).shape().in_subtree(
                node as int,
                i,
            ) implies #[trigger] scene.node(i) == old(scene).node(i) && scene.local(i) == old(
            scene,
        ).local(i) by {
            assert(turned.node(i) == old(scene).node(i));
        }
    }
}

/// `moved` is `position` after `delta` nanoseconds of moving as
/// `actions` ask, along the first axis of an entity turned by the
/// degrees in `rotation`.
pub open spec fn is_moved(
    position: Vec3,
    rotation: Vec3,
    actions: Actions,
    delta: u64,
    moved: Vec3,
) -> bool {
    exists|direction: Vec3|
        is_steered(actions, rotation, direction) && moved == vec3_sum(
            position,
            #[trigger] displacement_of(direction, delta, actions.pace()),
        )
}

/// One tick of the controlled entity `node`: resolves the direction that
/// `actions` ask for along the entity's first axis as it is turned
/// before the tick, flips it as they ask, turns it to `heading`, moves it
/// as far as `delta` nanoseconds at its pace allow, moves its sprite
/// clock on, and shows the sprite the clock gives.
pub fn update(
    scene: &mut Scene,
    node: usize,
    animation: &mut Animation,
    actions: &Actions,
    delta: u64,
    heading: &Vec3,
)
    requires
        old(scene).wf(),
        old(scene).is_live(node as int),
        old(animation).wf(),
    ensures
        final(scene).wf(),
        final(scene).shape() == old(scene).shape(),
        *final(animation) == old(animation).ticked(actions.movement(), delta),
        final(animation).wf(),
        final(scene).node(node as int).rotation == *heading,
        is_moved(
            old(scene).node(node as int).position,
            old(scene).node(node as int).rotation,
            *actions,
            delta,
            final(scene).node(node as int).position,
        ),
        final(scene).node(node as int).scale == old(scene).node(node as int).scale,
        final(scene).node(node as int).label == old(scene).node(node as int).label,
        final(scene).node(node as int).flip_x == steered(
            old(scene).node(node as int),
            *actions,
            old(animation).sprite_after(actions.movement(), delta),
        ).flip_x,
        final(scene).node(node as int).index == steered(
            old(scene).node(node as int),
            *actions,
            old(animation).sprite_after(actions.movement(), delta),
        ).index,
        final(scene).payload_kept_except(old(scene), node as int),
        final(scene).locals_kept_except(old(scene), node as int),
        final(scene).untouched_outside(old(scene), node as int),
{
    let direction = steer(scene, node, animation, actions, delta);
    let ghost steered_scene = *scene;
    let by = displacement(&direction, delta, pace_for(actions));
    advance(scene, node, heading, &by);
    proof {
        assert(scene.node(node as int).position == vec3_sum(
            old(scene).node(node as int).position,
            displacement_of(direction, delta, actions.pace()),
        ));
        assert forall|i: int| 0 <= i < old(scene).len() && i != node implies (#[trigger] scene.node(
            i,
        )).same_payload(&old(scene).node(i)) by {
            assert(steered_scene.node(i) == old(scene).node(i));
        }
        assert forall|i: int|
            0 <= i < old(scene).len() && !old(scene).shape().in_subtree(
                node as int,
                i,
            ) implies #[trigger] scene.node(i) == old(scene).node(i) && scene.local(i) == old(
            scene,
        ).local(i) by {
            assert(old(scene).shape().in_subtree(node as int, node as int));
            assert(steered_scene.node(i) == old(scene).node(i));
        }
    }
}

} // verus!
