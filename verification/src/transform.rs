//! Placed entities and the scene that owns them.
//!
//! A `Transform` is one entity: where it is, how it is turned and scaled,
//! what sprite it shows. A `Scene` owns the entities in numbered slots and
//! keeps their world matrices in step with their parents'. Other holders
//! keep a slot's number, which stays valid, and harmless, after the entity
//! is destroyed.

use vstd::prelude::*;
use nalgebra_glm::{Mat4, Vec3};
use crate::linear::{
    mat4_axis, mat4_column_xyz, mat4_identity, mat4_is_unit, mat4_mul, mat4_normalize,
    mat4_normalized, mat4_product, mat4_rotate_x, mat4_rotate_y, mat4_rotate_z, mat4_scale,
    mat4_scaled, mat4_translate, mat4_translated, mat4_turned_x, mat4_turned_y, mat4_turned_z,
    vec3_from_ints, vec3_of,
};

verus! {

/// The product of three rotations, about Y, then X, then Z.
pub open spec fn yxz(ry: Mat4, rx: Mat4, rz: Mat4) -> Mat4 {
    mat4_product(mat4_product(ry, rx), rz)
}

/// Translation times rotation times scaling.
pub open spec fn trs(translation: Mat4, rotation: Mat4, scaling: Mat4) -> Mat4 {
    mat4_product(mat4_product(translation, rotation), scaling)
}

/// The local matrix that comes of a position and a scale, given the unit
/// matrix and the three rotations that the outside crate handed out.
pub open spec fn model_of(unit: Mat4, ry: Mat4, rx: Mat4, rz: Mat4, position: Vec3, scale: Vec3) -> Mat4 {
    trs(mat4_translated(unit, position), yxz(ry, rx, rz), mat4_scaled(unit, scale))
}

/// `unit` is the unit matrix, and `ry`, `rx` and `rz` are what comes of
/// turning it about Y, X and Z by the degrees in `rotation`.
pub open spec fn are_turns(unit: Mat4, ry: Mat4, rx: Mat4, rz: Mat4, rotation: Vec3) -> bool {
    &&& mat4_is_unit(unit)
    &&& mat4_turned_y(ry, unit, rotation)
    &&& mat4_turned_x(rx, unit, rotation)
    &&& mat4_turned_z(rz, unit, rotation)
}

/// `m` is the rotation by the degrees in `rotation`: the product of the
/// turns about Y, X and Z, in this order.
pub open spec fn is_rotation_of(m: Mat4, rotation: Vec3) -> bool {
    exists|unit: Mat4, ry: Mat4, rx: Mat4, rz: Mat4|
        #[trigger] are_turns(unit, ry, rx, rz, rotation) && m == yxz(ry, rx, rz)
}

/// `m` is the local matrix of an entity at `position`, turned by
/// `rotation` and scaled by `scale`: the translation by `position`, times
/// the turns about Y, X and Z by the degrees in `rotation`, times the
/// scaling by `scale`.
pub open spec fn is_model_matrix(m: Mat4, position: Vec3, rotation: Vec3, scale: Vec3) -> bool {
    exists|unit: Mat4, ry: Mat4, rx: Mat4, rz: Mat4|
        are_turns(unit, ry, rx, rz, rotation) && m == #[trigger] model_of(
            unit,
            ry,
            rx,
            rz,
            position,
            scale,
        )
}

/// `v` is column `index` of the normalized rotation by the degrees in
/// `rotation`.
pub open spec fn is_basis_axis(v: Vec3, index: int, rotation: Vec3) -> bool {
    exists|m: Mat4|
        is_rotation_of(m, rotation) && v == mat4_axis(#[trigger] mat4_normalized(m), index)
}

/// Multiplies three rotations in the order Y, X, Z.
pub fn compose_rotation(ry: &Mat4, rx: &Mat4, rz: &Mat4) -> (r: Mat4)
    ensures
        r == yxz(*ry, *rx, *rz),
{
    let yx = mat4_mul(ry, rx);
    mat4_mul(&yx, rz)
}

/// Multiplies a translation, a rotation and a scaling, in this order.
pub fn compose_model(translation: &Mat4, rotation: &Mat4, scaling: &Mat4) -> (r: Mat4)
    ensures
        r == trs(*translation, *rotation, *scaling),
{
    let tr = mat4_mul(translation, rotation);
    mat4_mul(&tr, scaling)
}

/// Column `index` of the normalized `rotation`, without its last
/// component.
pub fn basis_axis(rotation: &Mat4, index: usize) -> (r: Vec3)
    requires
        index < 4,
    ensures
        r == mat4_axis(mat4_normalized(*rotation), index as int),
{
    let normalized = mat4_normalize(rotation);
    mat4_column_xyz(&normalized, index)
}

/// What the renderer receives of one entity.
#[derive(Clone, Copy, Debug)]
pub struct TransformRaw {
    pub transform: Mat4,
    pub index: i32,
    pub flip_x: i32,
}

/// The record of `t`: its world matrix, its sprite and its flip.
pub open spec fn raw_of(t: Transform) -> TransformRaw {
    TransformRaw { transform: t.matrix, index: t.index, flip_x: t.flip_x }
}

#[derive(Debug)]
pub struct Transform {
    pub label: Option<String>,
    pub position: Vec3,
    /// Degrees about the X, Y and Z axes.
    pub rotation: Vec3,
    pub scale: Vec3,
    /// The world matrix.
    pub matrix: Mat4,
    /// The sprite shown.
    pub index: i32,
    pub flip_x: i32,
}

impl Transform {
    /// Label, placement, sprite and flip are as in `other`.
    pub open spec fn same_payload(&self, other: &Transform) -> bool {
        &&& self.label == other.label
        &&& self.position == other.position
        &&& self.rotation == other.rotation
        &&& self.scale == other.scale
        &&& self.index == other.index
        &&& self.flip_x == other.flip_x
    }

    /// An entity at the origin, unturned, of unit scale, showing sprite 0,
    /// with the unit matrix for its world matrix.
    pub fn new() -> (t: Transform)
        ensures
            t.label is None,
            t.position == vec3_of(0, 0, 0),
            t.rotation == vec3_of(0, 0, 0),
            t.scale == vec3_of(1, 1, 1),
            mat4_is_unit(t.matrix),
            t.index == 0,
            t.flip_x == 0,
    {
        let unit = mat4_identity();
        Transform {
            label: None,
            position: vec3_from_ints(0, 0, 0),
            rotation: vec3_from_ints(0, 0, 0),
            scale: vec3_from_ints(1, 1, 1),
            matrix: unit,
            index: 0,
            flip_x: 0,
        }
    }

    /// The record of this entity for the renderer.
    pub fn to_raw(&self) -> (r: TransformRaw)
        ensures
            r == raw_of(*self),
    {
        TransformRaw { transform: self.matrix, index: self.index, flip_x: self.flip_x }
    }

    fn rotation_matrix(&self) -> (r: Mat4)
        ensures
            is_rotation_of(r, self.rotation),
    {
        let unit = mat4_identity();
        let ry = mat4_rotate_y(&unit, &self.rotation);
        let rx = mat4_rotate_x(&unit, &self.rotation);
        let rz = mat4_rotate_z(&unit, &self.rotation);
        let r = compose_rotation(&ry, &rx, &rz);
        assert(are_turns(unit, ry, rx, rz, self.rotation));
        r
    }

    /// The direction this entity faces: the third axis of its rotation,
    /// the rotation divided by its norm.
    pub fn forward(&self) -> (r: Vec3)
        ensures
            is_basis_axis(r, 2, self.rotation),
    {
        let rotation = self.rotation_matrix();
        let r = basis_axis(&rotation, 2);
        assert(r == mat4_axis(mat4_normalized(rotation), 2));
        r
    }

    /// The second axis of this entity's rotation, the rotation divided
    /// by its norm.
    pub fn up(&self) -> (r: Vec3)
        ensures
            is_basis_axis(r, 1, self.rotation),
    {
        let rotation = self.rotation_matrix();
        let r = basis_axis(&rotation, 1);
        assert(r == mat4_axis(mat4_normalized(rotation), 1));
        r
    }

    /// The first axis of this entity's rotation, the rotation divided by
    /// its norm.
    pub fn left(&self) -> (r: Vec3)
        ensures
            is_basis_axis(r, 0, self.rotation),
    {
        let rotation = self.rotation_matrix();
        let r = basis_axis(&rotation, 0);
        assert(r == mat4_axis(mat4_normalized(rotation), 0));
        r
    }

    /// Computes the local matrix from position, rotation and scale:
    /// translation, times the turns about Y, X and Z, times scaling.
    pub fn get_local_model_matrix(&self) -> (r: Mat4)
        ensures
            is_model_matrix(r, self.position, self.rotation, self.scale),
    {
        let unit = mat4_identity();
        let ry = mat4_rotate_y(&unit, &self.rotation);
        let rx = mat4_rotate_x(&unit, &self.rotation);
        let rz = mat4_rotate_z(&unit, &self.rotation);
        let rotation = compose_rotation(&ry, &rx, &rz);
        let translation = mat4_translate(&unit, &self.position);
        let scaling = mat4_scale(&unit, &self.scale);
        let r = compose_model(&translation, &rotation, &scaling);
        assert(are_turns(unit, ry, rx, rz, self.rotation));
        assert(r == model_of(unit, ry, rx, rz, self.position, self.scale));
        r
    }
}

} // verus!
