use vstd::prelude::*;
use crate::maths::scalar::Scalar;
use crate::maths::vector3::Vector3;
use crate::traits::arithmetic::Arithmetic;

verus! {

/// A distribution over directions.
pub trait Sampler<N: Arithmetic> {
    /// The density that the distribution gives to `direction`.
    fn value(&self, direction: Vector3, num: &N) -> Scalar;

    /// Draws one direction.
    fn generate(&self, num: &N) -> Vector3;
}

impl<N: Arithmetic, T: Sampler<N> + ?Sized> Sampler<N> for Box<T> {
    fn value(&self, direction: Vector3, num: &N) -> (density: Scalar)
        ensures
            call_ensures(T::value, (&**self, direction, num), density),
    {
        (**self).value(direction, num)
    }

    fn generate(&self, num: &N) -> (direction: Vector3)
        ensures
            call_ensures(T::generate, (&**self, num), direction),
    {
        (**self).generate(num)
    }
}

} // verus!
