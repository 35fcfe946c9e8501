use vstd::prelude::*;
use crate::maths::scalar::Scalar;
use crate::maths::vector3::Vector3;

verus! {

/// Where a ray met a surface.
#[derive(Clone, Copy, Debug)]
pub struct IntersectionPayload {
    pub position: Vector3,
    /// How far along the ray the surface lies.
    pub distance: Scalar,
    pub normal: Vector3,
    /// Index into the scene's table of materials.
    pub material_id: usize,
    pub u: Scalar,
    pub v: Scalar,
}

} // verus!
