use vstd::prelude::*;
use crate::maths::matrix_4x4::Matrix4x4;
use crate::traits::arithmetic::Arithmetic;

verus! {

/// What a frame can be applied to.
pub trait Transformable<N: Arithmetic>: Sized {
    /// `self` as the frame places it; a point is moved to the frame's
    /// origin where `translate` is set.
    fn transform(&self, frame: &Matrix4x4, translate: bool, num: &N) -> Self;
}

} // verus!
