//! One frame: input, placement, animation, camera and records, in this
//! order.

use vstd::prelude::*;
use nalgebra_glm::Vec3;
use crate::animation::Animation;
use crate::camera::{projection_at, Camera, CameraUniform};
use crate::control::{aim_of, heading_to_cursor, is_moved, steered, update};
use crate::input::Actions;
use crate::instances::{instance_data, records};
use crate::linear::{vec3_heads, vec3_of, vec3_product};
use crate::scene::Scene;
use crate::transform::{raw_of, Transform, TransformRaw};
use crate::viewport::Viewport;

verus! {

/// What a frame hands to the renderer.
pub struct Frame {
    /// The two matrices of the camera.
    pub camera: CameraUniform,
    /// The record of the controlled entity.
    pub controlled: TransformRaw,
    /// The records of the group, in the order of the group.
    pub instances: Vec<TransformRaw>,
}

/// Brings the scene one frame on, `delta` nanoseconds after the last: the
/// controlled entity `hero` is flipped, turned about Z towards the
/// cursor, moved and animated as `actions` ask; the camera is centred on
/// where it now is in the scene, its ancestors counted in; and `hero` and
/// the members of `group` are flattened into records.
pub fn advance_frame(
    scene: &mut Scene,
    hero: usize,
    group: &Vec<usize>,
    animation: &mut Animation,
    camera: &mut Camera,
    actions: &Actions,
    viewport: &Viewport,
    cursor: &Vec3,
    delta: u64,
) -> (frame: Frame)
    requires
        old(scene).wf(),
        old(scene).is_live(hero as int),
        old(animation).wf(),
    ensures
        final(scene).wf(),
        final(scene).shape() == old(scene).shape(),
        *final(animation) == old(animation).ticked(actions.movement(), delta),
        final(animation).wf(),
        vec3_heads(
            final(scene).node(hero as int).rotation,
            aim_of(*cursor, *viewport, old(camera).zoom, old(camera).view),
        ),
        vec3_product(final(scene).node(hero as int).rotation, vec3_of(0, 0, 1))
            == final(scene).node(hero as int).rotation,
        is_moved(
            old(scene).node(hero as int).position,
            old(scene).node(hero as int).rotation,
            *actions,
            delta,
            final(scene).node(hero as int).position,
        ),
        final(scene).node(hero as int).scale == old(scene).node(hero as int).scale,
        final(scene).node(hero as int).label == old(scene).node(hero as int).label,
        final(scene).node(hero as int).flip_x == steered(
            old(scene).node(hero as int),
            *actions,
            old(animation).sprite_after(actions.movement(), delta),
        ).flip_x,
        final(scene).node(hero as int).index == steered(
            old(scene).node(hero as int),
            *actions,
            old(animation).sprite_after(actions.movement(), delta),
        ).index,
        final(scene).payload_kept_except(old(scene), hero as int),
        final(scene).locals_kept_except(old(scene), hero as int),
        final(scene).untouched_outside(old(scene), hero as int),
        final(camera).zoom == old(camera).zoom,
        final(camera).view == old(camera).view,
        final(camera).projection == projection_at(
            final(scene).global_position_of(hero as int),
            *viewport,
            old(camera).zoom,
        ),
        frame.camera.projection == final(camera).projection,
        frame.camera.view == final(camera).view,
        frame.controlled == raw_of(final(scene).node(hero as int)),
        frame.instances@ == records(final(scene), group@),
{
    let heading = heading_to_cursor(cursor, viewport, camera.zoom, &camera.view);
    update(scene, hero, animation, actions, delta, &heading);
    let position = Transform::global_position(scene, hero);
    camera.follow(&position, viewport);
    Frame {
        camera: camera.uniform(),
        controlled: scene.entity(hero).to_raw(),
        instances: instance_data(scene, group),
    }
}

} // verus!
