//! The vectors and matrices of `nalgebra_glm`, as far as the scene needs them.
//!
//! Nothing in this module is proved: every function is a call into the
//! outside crate, and its contract is taken on trust. Two vectors or two
//! matrices are equal, in a contract, when they hold the same numbers
//! component by component, all that is not a number counting as one.
//!
//! A result has a name where the outside crate computes it by adding,
//! subtracting, multiplying, dividing and taking square roots, which give
//! the same result wherever they run. What rests on a sine, a cosine or
//! an arc tangent has none: those differ from machine to machine. Of such
//! a result a relation says what it was made from, and no more.

use vstd::prelude::*;
use nalgebra_glm::{Mat4, Vec3};

verus! {

/// `nalgebra::Matrix`, the type behind `Vec3` and `Mat4`. Its components
/// are hidden.
#[verifier::external_type_specification]
#[verifier::external_body]
#[verifier::reject_recursive_types(T)]
#[verifier::reject_recursive_types(R)]
#[verifier::reject_recursive_types(C)]
#[verifier::reject_recursive_types(S)]
pub struct ExMatrix<T, R, C, S>(nalgebra::Matrix<T, R, C, S>);

/// `nalgebra::ArrayStorage`, the storage of a matrix of fixed size.
#[verifier::external_type_specification]
#[verifier::external_body]
#[verifier::reject_recursive_types(T)]
pub struct ExArrayStorage<T, const R: usize, const C: usize>(nalgebra::ArrayStorage<T, R, C>);

/// `nalgebra::Const`, a dimension known at compile time.
#[verifier::external_type_specification]
#[verifier::external_body]
pub struct ExConst<const R: usize>(nalgebra::Const<R>);

/// The matrix product `a * b`, as `nalgebra` computes it.
pub uninterp spec fn mat4_product(a: Mat4, b: Mat4) -> Mat4;

/// What `nalgebra_glm::translate` makes of `m` and `v`: `m` times the
/// translation by `v`.
pub uninterp spec fn mat4_translated(m: Mat4, v: Vec3) -> Mat4;

/// What `nalgebra_glm::scale` makes of `m` and `v`: `m` times the scaling
/// by `v`.
pub uninterp spec fn mat4_scaled(m: Mat4, v: Vec3) -> Mat4;

/// `m` divided by its norm, as `Matrix::normalize` computes it.
pub uninterp spec fn mat4_normalized(m: Mat4) -> Mat4;

/// The first three components of column `index` of `m`.
pub uninterp spec fn mat4_axis(m: Mat4, index: int) -> Vec3;

/// The sum `a + b`.
pub uninterp spec fn vec3_sum(a: Vec3, b: Vec3) -> Vec3;

/// The difference `a - b`.
pub uninterp spec fn vec3_difference(a: Vec3, b: Vec3) -> Vec3;

/// The quotient of `a` by `b`, component by component.
pub uninterp spec fn vec3_quotient(a: Vec3, b: Vec3) -> Vec3;

/// The opposite vector `-a`.
pub uninterp spec fn vec3_negated(a: Vec3) -> Vec3;

/// `a` divided by its length, as `nalgebra_glm::normalize` computes it.
pub uninterp spec fn vec3_normalized(a: Vec3) -> Vec3;

/// The inverse of `m` as `nalgebra_glm::inverse` computes it: the zero
/// matrix where `m` has no inverse.
pub uninterp spec fn mat4_inverted(m: Mat4) -> Mat4;

/// The first three components of `m` times the point `v`, the point
/// taken with a fourth component of one.
pub uninterp spec fn mat4_point(m: Mat4, v: Vec3) -> Vec3;

/// The product of `a` and `b`, component by component.
pub uninterp spec fn vec3_product(a: Vec3, b: Vec3) -> Vec3;

/// The vector whose components are the integers `x`, `y` and `z`, each
/// converted to the nearest number of the vector's component type.
pub uninterp spec fn vec3_of(x: int, y: int, z: int) -> Vec3;

/// The left-handed view matrix of an eye at `eye` that looks at `center`,
/// with `up` upwards.
pub uninterp spec fn mat4_looking(eye: Vec3, center: Vec3, up: Vec3) -> Mat4;

/// The left-handed orthographic projection of the box from `low` to
/// `high` in x and y, between the depths `depth.x` and `depth.y`.
pub uninterp spec fn mat4_orthographic(low: Vec3, high: Vec3, depth: Vec3) -> Mat4;

/// `r` is the unit matrix, as `Mat4::identity` gives it.
pub uninterp spec fn mat4_is_unit(r: Mat4) -> bool;

/// `r` is what `nalgebra_glm::rotate_x` gives for `m` and the `x` of
/// `degrees`: `m` turned about X. The sine and the cosine behind it are
/// not the same on every machine, so the result has no name of its own,
/// only this tie to what it was made from.
pub uninterp spec fn mat4_turned_x(r: Mat4, m: Mat4, degrees: Vec3) -> bool;

/// `r` is what `nalgebra_glm::rotate_y` gives for `m` and the `y` of
/// `degrees`: `m` turned about Y.
pub uninterp spec fn mat4_turned_y(r: Mat4, m: Mat4, degrees: Vec3) -> bool;

/// `r` is what `nalgebra_glm::rotate_z` gives for `m` and the `z` of
/// `degrees`: `m` turned about Z.
pub uninterp spec fn mat4_turned_z(r: Mat4, m: Mat4, degrees: Vec3) -> bool;

/// `r` is the rotation about Z, in degrees, by the angle of `direction`
/// in the plane of x and y, as the arc tangent at hand gives it.
pub uninterp spec fn vec3_heads(r: Vec3, direction: Vec3) -> bool;

/// Calls `Mat4::identity`. The claim: the result is what that call gives.
#[verifier::external_body]
pub(crate) fn mat4_identity() -> (r: Mat4)
    ensures
        mat4_is_unit(r),
{
    Mat4::identity()
}

/// Calls the `*` of two `nalgebra` matrices, which for matrices of fixed
/// size multiplies and adds component by component. The claim: the result
/// depends on the two factors alone.
#[verifier::external_body]
pub(crate) fn mat4_mul(a: &Mat4, b: &Mat4) -> (r: Mat4)
    ensures
        r == mat4_product(*a, *b),
{
    a * b
}

/// Calls `nalgebra_glm::translate`. The claim: the result depends on the
/// matrix and the vector alone.
#[verifier::external_body]
pub(crate) fn mat4_translate(m: &Mat4, v: &Vec3) -> (r: Mat4)
    ensures
        r == mat4_translated(*m, *v),
{
    nalgebra_glm::translate(m, v)
}

/// Calls `nalgebra_glm::scale`. The claim: the result depends on the
/// matrix and the vector alone.
#[verifier::external_body]
pub(crate) fn mat4_scale(m: &Mat4, v: &Vec3) -> (r: Mat4)
    ensures
        r == mat4_scaled(*m, *v),
{
    nalgebra_glm::scale(m, v)
}

/// Calls `nalgebra_glm::rotate_x` with the `x` of `degrees`, converted to
/// radians. The sine and cosine behind it are not the same on every
/// machine, so the claim is only that the result is one that this call
/// gives for this matrix and these degrees.
#[verifier::external_body]
pub(crate) fn mat4_rotate_x(m: &Mat4, degrees: &Vec3) -> (r: Mat4)
    ensures
        mat4_turned_x(r, *m, *degrees),
{
    nalgebra_glm::rotate_x(m, degrees.x.to_radians())
}

/// Calls `nalgebra_glm::rotate_y` with the `y` of `degrees`, converted to
/// radians. The claim: the result is one that this call gives for this
/// matrix and these degrees.
#[verifier::external_body]
pub(crate) fn mat4_rotate_y(m: &Mat4, degrees: &Vec3) -> (r: Mat4)
    ensures
        mat4_turned_y(r, *m, *degrees),
{
    nalgebra_glm::rotate_y(m, degrees.y.to_radians())
}

/// Calls `nalgebra_glm::rotate_z` with the `z` of `degrees`, converted to
/// radians. The claim: the result is one that this call gives for this
/// matrix and these degrees.
#[verifier::external_body]
pub(crate) fn mat4_rotate_z(m: &Mat4, degrees: &Vec3) -> (r: Mat4)
    ensures
        mat4_turned_z(r, *m, *degrees),
{
    nalgebra_glm::rotate_z(m, degrees.z.to_radians())
}

/// Calls `Matrix::normalize`. The claim: the result depends on the matrix
/// alone.
#[verifier::external_body]
pub(crate) fn mat4_normalize(m: &Mat4) -> (r: Mat4)
    ensures
        r == mat4_normalized(*m),
{
    m.normalize()
}

/// Calls `nalgebra_glm::column` and keeps the first three components.
/// The column must exist. The claim: the result depends on the matrix and
/// the index alone.
#[verifier::external_body]
pub(crate) fn mat4_column_xyz(m: &Mat4, index: usize) -> (r: Vec3)
    requires
        index < 4,
    ensures
        r == mat4_axis(*m, index as int),
{
    nalgebra_glm::column(m, index).xyz()
}

/// Calls the `+` of two `nalgebra` vectors.
#[verifier::external_body]
pub(crate) fn vec3_add(a: &Vec3, b: &Vec3) -> (r: Vec3)
    ensures
        r == vec3_sum(*a, *b),
{
    a + b
}

/// Calls the `-` of two `nalgebra` vectors.
#[verifier::external_body]
pub(crate) fn vec3_sub(a: &Vec3, b: &Vec3) -> (r: Vec3)
    ensures
        r == vec3_difference(*a, *b),
{
    a - b
}

/// Calls `Matrix::component_div`.
#[verifier::external_body]
pub(crate) fn vec3_div(a: &Vec3, b: &Vec3) -> (r: Vec3)
    ensures
        r == vec3_quotient(*a, *b),
{
    a.component_div(b)
}

/// Calls the unary `-` of a `nalgebra` vector.
#[verifier::external_body]
pub(crate) fn vec3_neg(a: &Vec3) -> (r: Vec3)
    ensures
        r == vec3_negated(*a),
{
    -a
}

/// Calls `nalgebra_glm::normalize`.
#[verifier::external_body]
pub(crate) fn vec3_normalize(a: &Vec3) -> (r: Vec3)
    ensures
        r == vec3_normalized(*a),
{
    nalgebra_glm::normalize(a)
}

/// Calls `nalgebra_glm::inverse`, which gives the zero matrix where there
/// is no inverse.
#[verifier::external_body]
pub(crate) fn mat4_inverse(m: &Mat4) -> (r: Mat4)
    ensures
        r == mat4_inverted(*m),
{
    nalgebra_glm::inverse(m)
}

/// Calls the `*` of a `nalgebra` matrix and a vector of four components:
/// those of `v` and a one, as `Point3::to_homogeneous` appends it. Keeps
/// the first three components of the product.
#[verifier::external_body]
pub(crate) fn mat4_transform(m: &Mat4, v: &Vec3) -> (r: Vec3)
    ensures
        r == mat4_point(*m, *v),
{
    (m * nalgebra::Point3::from(*v).to_homogeneous()).xyz()
}

/// Calls `atan2` on the `y` and the `x` of `direction` and `to_degrees`
/// on the angle, and hands the degrees back as the `z` of a vector from
/// `Vec3::zeros`. The arc tangent is not the same on every machine, so
/// the angle has no name. The claims: the result is one that these calls
/// give for this direction; and it has no part but the one about Z, so
/// that multiplying it by (0, 0, 1) component by component gives it
/// back: zero times zero is zero, and the angle times one is the angle.
#[verifier::external_body]
pub(crate) fn vec3_heading(direction: &Vec3) -> (r: Vec3)
    ensures
        vec3_heads(r, *direction),
        vec3_product(r, vec3_of(0, 0, 1)) == r,
{
    let mut heading = Vec3::zeros();
    heading.z = direction.y.atan2(direction.x).to_degrees();
    heading
}

/// Calls `Matrix::component_mul`.
#[verifier::external_body]
pub(crate) fn vec3_mul(a: &Vec3, b: &Vec3) -> (r: Vec3)
    ensures
        r == vec3_product(*a, *b),
{
    a.component_mul(b)
}

/// Calls `nalgebra_glm::vec3` on three integers and `nalgebra_glm::convert`
/// on the result, which converts each component as `as` does: to the
/// nearest number that the component type holds.
#[verifier::external_body]
pub(crate) fn vec3_from_ints(x: i128, y: i128, z: i128) -> (r: Vec3)
    ensures
        r == vec3_of(x as int, y as int, z as int),
{
    nalgebra_glm::convert(nalgebra_glm::vec3(x, y, z))
}

/// Calls `nalgebra_glm::look_at_lh`. The claim: the result depends on the
/// three vectors alone.
#[verifier::external_body]
pub(crate) fn mat4_look_at(eye: &Vec3, center: &Vec3, up: &Vec3) -> (r: Mat4)
    ensures
        r == mat4_looking(*eye, *center, *up),
{
    nalgebra_glm::look_at_lh(eye, center, up)
}

/// Calls `nalgebra_glm::ortho_lh` with the bounds `low.x`, `high.x`,
/// `low.y`, `high.y` and the depths `depth.x`, `depth.y`. The claim: the
/// result depends on the three vectors alone.
#[verifier::external_body]
pub(crate) fn mat4_ortho(low: &Vec3, high: &Vec3, depth: &Vec3) -> (r: Mat4)
    ensures
        r == mat4_orthographic(*low, *high, *depth),
{
    nalgebra_glm::ortho_lh(low.x, high.x, low.y, high.y, depth.x, depth.y)
}

} // verus!
