use vstd::prelude::*;
use crate::data_structures::ray::Ray;
use crate::maths::scalar::Scalar;
use crate::maths::vector3::Vector3;
use crate::traits::arithmetic::Arithmetic;

verus! {

/// A surface that light is looked for on: one that can pick a point of
/// itself at random. A surface that cannot is no light.
pub trait Light<N: Arithmetic> {
    /// The density with which `random` picks the direction of `ray`.
    fn pdf_value(&self, ray: Ray, num: &N) -> Scalar;

    /// A direction from `origin` towards a random point of the surface.
    fn random(&self, origin: Vector3, num: &N) -> Vector3;
}

impl<N: Arithmetic, T: Light<N> + ?Sized> Light<N> for Box<T> {
    fn pdf_value(&self, ray: Ray, num: &N) -> (density: Scalar)
        ensures
            call_ensures(T::pdf_value, (&**self, ray, num), density),
    {
        (**self).pdf_value(ray, num)
    }

    fn random(&self, origin: Vector3, num: &N) -> (direction: Vector3)
        ensures
            call_ensures(T::random, (&**self, origin, num), direction),
    {
        (**self).random(origin, num)
    }
}

} // verus!
