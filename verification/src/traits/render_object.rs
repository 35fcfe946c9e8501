use vstd::prelude::*;
use crate::data_structures::intersection_payload::IntersectionPayload;
use crate::data_structures::ray::Ray;
use crate::shapes::bounds::Bounds;
use crate::traits::arithmetic::Arithmetic;

verus! {

/// A surface that rays can meet.
pub trait RenderObject<N: Arithmetic> {
    /// Where `ray` meets the surface, if it does.
    fn intersect(&self, ray: &Ray, num: &N) -> Option<IntersectionPayload>;

    /// A volume that holds the whole surface.
    fn bounds(&self, num: &N) -> Bounds;
}

impl<N: Arithmetic, T: RenderObject<N> + ?Sized> RenderObject<N> for Box<T> {
    fn intersect(&self, ray: &Ray, num: &N) -> (hit: Option<IntersectionPayload>)
        ensures
            call_ensures(T::intersect, (&**self, ray, num), hit),
    {
        (**self).intersect(ray, num)
    }

    fn bounds(&self, num: &N) -> (bounds: Bounds)
        ensures
            call_ensures(T::bounds, (&**self, num), bounds),
    {
        (**self).bounds(num)
    }
}

} // verus!
