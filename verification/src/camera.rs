//! The camera: an orthographic box that follows an entity, seen through
//! a view that never changes.
//!
//! The zoom is counted in tenths: 10 shows one unit of the scene on one
//! pixel, 20 shows two.

use vstd::prelude::*;
use nalgebra_glm::{Mat4, Vec3};
use crate::linear::{
    mat4_identity, mat4_is_unit, mat4_look_at, mat4_looking, mat4_ortho, mat4_orthographic, vec3_add,
    vec3_difference, vec3_div, vec3_from_ints, vec3_mul, vec3_of, vec3_product, vec3_quotient,
    vec3_sub, vec3_sum,
};
use crate::input::Key;
use crate::viewport::Viewport;

verus! {

/// The zoom at which one unit of the scene covers one pixel.
pub const ZOOM_ONE: u32 = 10;

/// The near and the far depth of the box: 0.025 and 1000.
pub open spec fn depth_range() -> Vec3 {
    vec3_quotient(vec3_of(25, 1000, 1), vec3_of(1000, 1, 1))
}

/// Half the width and half the height of the box: the viewport's sides
/// times the zoom, halved.
pub open spec fn half_extent(viewport: Viewport, zoom: u32) -> Vec3 {
    vec3_quotient(
        vec3_product(
            vec3_of(viewport.width as int, viewport.height as int, 0),
            vec3_of(zoom as int, zoom as int, 0),
        ),
        vec3_of(20, 20, 1),
    )
}

/// The projection of a camera that follows an entity at `position`: the
/// box that reaches half the zoomed viewport to each side of it.
pub open spec fn projection_at(position: Vec3, viewport: Viewport, zoom: u32) -> Mat4 {
    mat4_orthographic(
        vec3_difference(position, half_extent(viewport, zoom)),
        vec3_sum(position, half_extent(viewport, zoom)),
        depth_range(),
    )
}

/// The projection before anything is followed: the box from the origin
/// to the viewport's far corner.
pub open spec fn projection_at_rest(viewport: Viewport) -> Mat4 {
    mat4_orthographic(
        vec3_of(0, 0, 0),
        vec3_of(viewport.width as int, viewport.height as int, 0),
        depth_range(),
    )
}

/// The view: from one unit before the origin towards the origin, with
/// the y axis upwards.
pub open spec fn fixed_view() -> Mat4 {
    mat4_looking(vec3_of(0, 0, -1), vec3_of(0, 0, 0), vec3_of(0, 1, 0))
}

fn depths() -> (r: Vec3)
    ensures
        r == depth_range(),
{
    let parts = vec3_from_ints(25, 1000, 1);
    let of = vec3_from_ints(1000, 1, 1);
    vec3_div(&parts, &of)
}

#[derive(Clone, Copy, Debug)]
pub struct Camera {
    pub projection: Mat4,
    pub view: Mat4,
    /// In tenths.
    pub zoom: u32,
}

impl Camera {
    /// A camera at rest over `viewport`, at zoom one.
    pub fn new(viewport: &Viewport) -> (c: Camera)
        ensures
            c.projection == projection_at_rest(*viewport),
            c.view == fixed_view(),
            c.zoom == ZOOM_ONE,
    {
        let low = vec3_from_ints(0, 0, 0);
        let high = vec3_from_ints(viewport.width as i128, viewport.height as i128, 0);
        let depth = depths();
        let eye = vec3_from_ints(0, 0, -1);
        let center = vec3_from_ints(0, 0, 0);
        let up = vec3_from_ints(0, 1, 0);
        Camera {
            projection: mat4_ortho(&low, &high, &depth),
            view: mat4_look_at(&eye, &center, &up),
            zoom: ZOOM_ONE,
        }
    }

    /// Shows a tenth more of the scene per pixel.
    pub fn zoom_in(&mut self)
        ensures
            final(self).zoom == if old(self).zoom < u32::MAX {
                (old(self).zoom + 1) as u32
            } else {
                u32::MAX
            },
            final(self).projection == old(self).projection,
            final(self).view == old(self).view,
    {
        if self.zoom < u32::MAX {
            self.zoom = self.zoom + 1;
        }
    }

    /// Shows a tenth less of the scene per pixel, but never less than
    /// nothing: at 0 the zoom stays.
    pub fn zoom_out(&mut self)
        ensures
            final(self).zoom == if old(self).zoom > 0 {
                (old(self).zoom - 1) as u32
            } else {
                0
            },
            final(self).projection == old(self).projection,
            final(self).view == old(self).view,
    {
        if self.zoom > 0 {
            self.zoom = self.zoom - 1;
        }
    }

    /// The zoom after `key` went down: one less for R, but not below 0,
    /// one more for F, and as it was for any other key.
    pub open spec fn zoom_after(zoom: u32, key: Key) -> u32 {
        match key {
            Key::R => if zoom > 0 {
                (zoom - 1) as u32
            } else {
                0
            },
            Key::F => if zoom < u32::MAX {
                (zoom + 1) as u32
            } else {
                u32::MAX
            },
            _ => zoom,
        }
    }

    /// Records that `key` went down: R zooms out, F zooms in.
    pub fn press(&mut self, key: Key)
        ensures
            final(self).zoom == Self::zoom_after(old(self).zoom, key),
            final(self).projection == old(self).projection,
            final(self).view == old(self).view,
    {
        match key {
            Key::R => {
                self.zoom_out();
            },
            Key::F => {
                self.zoom_in();
            },
            _ => {},
        }
    }

    /// Centres the box on `position`.
    pub fn follow(&mut self, position: &Vec3, viewport: &Viewport)
        ensures
            final(self).projection == projection_at(*position, *viewport, old(self).zoom),
            final(self).view == old(self).view,
            final(self).zoom == old(self).zoom,
    {
        let sides = vec3_from_ints(viewport.width as i128, viewport.height as i128, 0);
        let zoom = vec3_from_ints(self.zoom as i128, self.zoom as i128, 0);
        let twenty = vec3_from_ints(20, 20, 1);
        let zoomed = vec3_mul(&sides, &zoom);
        let half = vec3_div(&zoomed, &twenty);
        let low = vec3_sub(position, &half);
        let high = vec3_add(position, &half);
        let depth = depths();
        self.projection = mat4_ortho(&low, &high, &depth);
    }

    /// What the renderer receives of this camera.
    pub fn uniform(&self) -> (u: CameraUniform)
        ensures
            u.projection == self.projection,
            u.view == self.view,
    {
        CameraUniform { projection: self.projection, view: self.view }
    }
}

/// The two matrices of the camera, as the renderer receives them.
#[derive(Clone, Copy, Debug)]
pub struct CameraUniform {
    pub projection: Mat4,
    pub view: Mat4,
}

impl CameraUniform {
    /// A camera that changes nothing: both matrices are the unit matrix.
    pub fn new() -> (c: CameraUniform)
        ensures
            mat4_is_unit(c.projection),
            mat4_is_unit(c.view),
            c.projection == c.view,
    {
        let unit = mat4_identity();
        CameraUniform { projection: unit, view: unit }
    }

    /// Replaces both matrices.
    pub fn update(&mut self, projection: Mat4, view: Mat4)
        ensures
            final(self).projection == projection,
            final(self).view == view,
    {
        self.projection = projection;
        self.view = view;
    }
}

} // verus!
