//! Opaque bindings to the `glam` linear-algebra crate.
//!
//! Transforms, positions and directions are `glam` values. Verus treats them
//! as opaque: contracts speak of them through uninterpreted functions such as
//! [`mat4_product`], so that a resolved world transform can be pinned down as
//! a product over the parent chain without restating floating-point
//! arithmetic.

use vstd::prelude::*;

verus! {

#[verifier::external_type_specification]
#[verifier::external_body]
pub struct ExMat4(glam::Mat4);

#[verifier::external_type_specification]
#[verifier::external_body]
pub struct ExVec4(glam::Vec4);

#[verifier::external_type_specification]
#[verifier::external_body]
pub struct ExVec3(glam::Vec3);

#[verifier::external_type_specification]
#[verifier::external_body]
pub struct ExVec2(glam::Vec2);

/// The matrix product `a * b`, exactly as `glam::Mat4::mul_mat4` computes it.
pub uninterp spec fn mat4_product(a: glam::Mat4, b: glam::Mat4) -> glam::Mat4;

/// The vector `m * v`, exactly as `glam::Mat4::mul_vec4` computes it.
pub uninterp spec fn mat4_applied(m: glam::Mat4, v: glam::Vec4) -> glam::Vec4;

/// The inverse of `m`, exactly as `glam::Mat4::inverse` computes it.
pub uninterp spec fn mat4_inverse_of(m: glam::Mat4) -> glam::Mat4;

/// The rotation component of an affine transform, as extracted by a
/// scale/rotation/translation decomposition and rebuilt as a matrix.
pub uninterp spec fn rotation_part_of(m: glam::Mat4) -> glam::Mat4;

/// Holds of the matrix value `glam::Mat4::IDENTITY`.
pub uninterp spec fn mat4_is_identity(m: glam::Mat4) -> bool;

/// Relies on `glam::Mat4::mul_mat4`: multiplies two 4x4 matrices; the result
/// depends on the two operands alone.
pub assume_specification [ glam::Mat4::mul_mat4 ](a: &glam::Mat4, b: &glam::Mat4) -> (r: glam::Mat4)
    ensures
        r == mat4_product(*a, *b),
;

/// Relies on `glam::Mat4::mul_vec4`: transforms a 4D vector; the result
/// depends on the matrix and the vector alone.
pub assume_specification [ glam::Mat4::mul_vec4 ](m: &glam::Mat4, v: glam::Vec4) -> (r: glam::Vec4)
    ensures
        r == mat4_applied(*m, v),
;

/// Relies on `glam::Mat4::inverse`: computes the matrix inverse; the result
/// depends on the input matrix alone. (`glam` only asserts invertibility when
/// its `glam-assert` feature is enabled, which this crate does not enable, so
/// the call returns for every input.)
pub assume_specification [ glam::Mat4::inverse ](m: &glam::Mat4) -> (r: glam::Mat4)
    ensures
        r == mat4_inverse_of(*m),
;

/// Relies on `glam::Mat4::to_scale_rotation_translation` and
/// `glam::Mat4::from_quat`: extracts the rotation component of an affine
/// transform and rebuilds it as a matrix; the result depends on the input
/// matrix alone. (`glam` only asserts a non-zero determinant when its
/// `glam-assert` feature is enabled, which this crate does not enable.)
#[verifier::external_body]
pub fn mat4_rotation_part(m: &glam::Mat4) -> (r: glam::Mat4)
    ensures
        r == rotation_part_of(*m),
{
    glam::Mat4::from_quat(m.to_scale_rotation_translation().1)
}

/// Relies on the constant `glam::Mat4::IDENTITY`: the identity matrix.
#[verifier::external_body]
pub fn mat4_identity() -> (r: glam::Mat4)
    ensures
        mat4_is_identity(r),
{
    glam::Mat4::IDENTITY
}

} // verus!
