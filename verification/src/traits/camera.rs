use vstd::prelude::*;
use crate::data_structures::ray::Ray;
use crate::maths::scalar::Scalar;
use crate::traits::arithmetic::Arithmetic;

verus! {

/// Turns a place on the image into the ray that is seen there.
pub trait Camera<N: Arithmetic>: Sync + Send {
    fn generate_ray(&self, width: usize, height: usize, x: Scalar, y: Scalar, num: &N) -> Ray;
}

} // verus!
