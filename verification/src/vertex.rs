//! The mesh that every entity is drawn with: one rectangle.

use vstd::prelude::*;
use nalgebra_glm::Vec3;
use crate::linear::{vec3_from_ints, vec3_mul, vec3_of, vec3_product};

verus! {

/// A corner of the mesh.
#[derive(Clone, Copy, Debug)]
pub struct Vertex {
    pub position: Vec3,
    /// The place in the texture, each coordinate 0 or 1.
    pub tex_coords: (u32, u32),
}

/// What the renderer receives of a texture: which one, and whether it
/// is flipped.
#[derive(Clone, Copy, Debug)]
pub struct UniformsTexture {
    pub texture_index: u32,
    pub flip_x: i32,
}

/// The corner of the rectangle of half sides `size` that lies on the
/// side `x` and `y`, each 1 or -1.
pub open spec fn corner(size: Vec3, x: int, y: int) -> Vec3 {
    vec3_product(size, vec3_of(x, y, 0))
}

/// The four corners of a rectangle about the origin, in the plane z = 0.
pub open spec fn rect_corners(size: Vec3) -> Seq<Vertex> {
    seq![
        Vertex { position: corner(size, 1, 1), tex_coords: (1u32, 0u32) },
        Vertex { position: corner(size, -1, 1), tex_coords: (0u32, 0u32) },
        Vertex { position: corner(size, -1, -1), tex_coords: (0u32, 1u32) },
        Vertex { position: corner(size, 1, -1), tex_coords: (1u32, 1u32) },
    ]
}

/// The two triangles of the rectangle, by corner, counter-clockwise.
pub open spec fn rect_indices() -> Seq<u16> {
    seq![0u16, 1u16, 2u16, 2u16, 3u16, 0u16]
}

fn corner_at(size: &Vec3, x: i128, y: i128) -> (r: Vec3)
    ensures
        r == corner(*size, x as int, y as int),
{
    let side = vec3_from_ints(x, y, 0);
    vec3_mul(size, &side)
}

/// The rectangle that reaches `size.x` to the left and right of the
/// origin and `size.y` above and below it, with the texture's top edge
/// on its upper side: its corners, and its two triangles.
pub fn get_rect(size: Vec3) -> (r: (Vec<Vertex>, Vec<u16>))
    ensures
        r.0@ == rect_corners(size),
        r.1@ == rect_indices(),
{
    let mut corners: Vec<Vertex> = Vec::with_capacity(4);
    corners.push(Vertex { position: corner_at(&size, 1, 1), tex_coords: (1, 0) });
    corners.push(Vertex { position: corner_at(&size, -1, 1), tex_coords: (0, 0) });
    corners.push(Vertex { position: corner_at(&size, -1, -1), tex_coords: (0, 1) });
    corners.push(Vertex { position: corner_at(&size, 1, -1), tex_coords: (1, 1) });
    let mut indices: Vec<u16> = Vec::with_capacity(6);
    indices.push(0);
    indices.push(1);
    indices.push(2);
    indices.push(2);
    indices.push(3);
    indices.push(0);
    proof {
        assert(corners@ =~= rect_corners(size));
        assert(indices@ =~= rect_indices());
    }
    (corners, indices)
}

} // verus!
