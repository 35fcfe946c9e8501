use vstd::prelude::*;
use crate::data_structures::color::Color;
use crate::data_structures::intersection_payload::IntersectionPayload;
use crate::data_structures::scatter_payload::ScatterPayload;
use crate::maths::scalar::Scalar;
use crate::maths::vector3::Vector3;
use crate::traits::arithmetic::Arithmetic;

verus! {

/// How a surface emits and scatters light.
pub trait Material<N: Arithmetic> {
    /// The light that the surface emits at the hit.
    fn emmission(&self, payload: &IntersectionPayload, num: &N) -> Color;

    /// `None` where the surface absorbs all incoming light.
    fn scatter(&self, payload: &IntersectionPayload, incoming_direction: Vector3, num: &N) -> Option<
        ScatterPayload<N>,
    >;

    /// The share of the light from `outgoing_direction` that leaves against `incoming_direction`.
    fn transmission(
        &self,
        payload: &IntersectionPayload,
        incoming_direction: Vector3,
        outgoing_direction: Vector3,
        num: &N,
    ) -> Color;

    fn scattering_pdf(
        &self,
        payload: &IntersectionPayload,
        incoming_direction: Vector3,
        outgoing_direction: Vector3,
        num: &N,
    ) -> Scalar;
}

impl<N: Arithmetic, T: Material<N> + ?Sized> Material<N> for Box<T> {
    fn emmission(&self, payload: &IntersectionPayload, num: &N) -> (emitted: Color)
        ensures
            call_ensures(T::emmission, (&**self, payload, num), emitted),
    {
        (**self).emmission(payload, num)
    }

    fn scatter(
        &self,
        payload: &IntersectionPayload,
        incoming_direction: Vector3,
        num: &N,
    ) -> (scatter: Option<ScatterPayload<N>>)
        ensures
            call_ensures(T::scatter, (&**self, payload, incoming_direction, num), scatter),
    {
        (**self).scatter(payload, incoming_direction, num)
    }

    fn transmission(
        &self,
        payload: &IntersectionPayload,
        incoming_direction: Vector3,
        outgoing_direction: Vector3,
        num: &N,
    ) -> (transmitted: Color)
        ensures
            call_ensures(
                T::transmission,
                (&**self, payload, incoming_direction, outgoing_direction, num),
                transmitted,
            ),
    {
        (**self).transmission(payload, incoming_direction, outgoing_direction, num)
    }

    fn scattering_pdf(
        &self,
        payload: &IntersectionPayload,
        incoming_direction: Vector3,
        outgoing_direction: Vector3,
        num: &N,
    ) -> (density: Scalar)
        ensures
            call_ensures(
                T::scattering_pdf,
                (&**self, payload, incoming_direction, outgoing_direction, num),
                density,
            ),
    {
        (**self).scattering_pdf(payload, incoming_direction, outgoing_direction, num)
    }
}

} // verus!
