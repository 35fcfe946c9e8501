use fe_o::data_structures::{Color, IntersectionPayload, Ray, ScatterPayload, Scene};
use fe_o::maths::{Scalar, Vector3};
use fe_o::data_structures::scene::estimate;
use fe_o::pdfs::CosinePDF;
use fe_o::renderer::{average, jitter, Renderer, SAMPLES, WORKERS};
use fe_o::samplers::cosine_sampler::FAR_SIDE_DENSITY_BITS;
use fe_o::samplers::mixture_sampler::mean;
use fe_o::samplers::{CosineSampler, MixtureSampler, RenderObjectSampler};
use fe_o::shapes::bounds::crossing;
use fe_o::shapes::bounding_volume_hierarchy::{nearer_hit, SELF_HIT_BITS};
use fe_o::shapes::{Bounds, BVH};
use fe_o::textures::ConstantTexture;
use fe_o::traits::{Arithmetic, Camera, Light, Material, RenderObject, Sampler, Texture};

fn s(x: f64) -> Scalar {
    Scalar::from_bits(x.to_bits())
}

fn f(x: Scalar) -> f64 {
    f64::from_bits(x.to_bits())
}

fn v(x: f64, y: f64, z: f64) -> Vector3 {
    Vector3(s(x), s(y), s(z))
}

fn a(p: Vector3) -> [f64; 3] {
    [f(p.0), f(p.1), f(p.2)]
}

fn color(r: f64, g: f64, b: f64, alpha: f64) -> Color {
    Color(s(r), s(g), s(b), s(alpha))
}

fn channels(c: Color) -> [f64; 4] {
    [f(c.0), f(c.1), f(c.2), f(c.3)]
}

fn ray(origin: [f64; 3], direction: [f64; 3]) -> Ray {
    Ray::new(v(origin[0], origin[1], origin[2]), v(direction[0], direction[1], direction[2]))
}

fn inner(p: [f64; 3], q: [f64; 3]) -> f64 {
    p[0] * q[0] + p[1] * q[1] + p[2] * q[2]
}

fn sub(p: [f64; 3], q: [f64; 3]) -> [f64; 3] {
    [p[0] - q[0], p[1] - q[1], p[2] - q[2]]
}

fn along(origin: [f64; 3], direction: [f64; 3], t: f64) -> [f64; 3] {
    [origin[0] + t * direction[0], origin[1] + t * direction[1], origin[2] + t * direction[2]]
}

fn unit(p: [f64; 3]) -> [f64; 3] {
    let length = inner(p, p).sqrt();
    [p[0] / length, p[1] / length, p[2] / length]
}

fn hit(distance: f64, material_id: usize) -> IntersectionPayload {
    IntersectionPayload {
        position: v(0.0, 0.0, 0.0),
        distance: s(distance),
        normal: v(0.0, 1.0, 0.0),
        material_id,
        u: s(0.0),
        v: s(0.0),
    }
}

/// A distribution that always draws the same direction and gives every
/// direction the same density.
struct Fixed {
    direction: [f64; 3],
    density: f64,
}

impl<N: Arithmetic> Sampler<N> for Fixed {
    fn value(&self, _direction: Vector3, _num: &N) -> Scalar {
        s(self.density)
    }

    fn generate(&self, _num: &N) -> Vector3 {
        v(self.direction[0], self.direction[1], self.direction[2])
    }
}

/// Floating-point arithmetic. Where `chance` is set nothing is random:
/// the random number is always `chance`.
struct Ieee {
    chance: Option<f64>,
}

/// Arithmetic whose random number is 0, so that the cosine-weighted
/// direction is the normal and the mixture draws from its first part.
fn ieee() -> Ieee {
    Ieee { chance: Some(0.0) }
}

fn random() -> Ieee {
    Ieee { chance: None }
}

impl Arithmetic for Ieee {
    fn sum(&self, x: Scalar, y: Scalar) -> Scalar {
        s(f(x) + f(y))
    }

    fn difference(&self, x: Scalar, y: Scalar) -> Scalar {
        s(f(x) - f(y))
    }

    fn product(&self, x: Scalar, y: Scalar) -> Scalar {
        s(f(x) * f(y))
    }

    fn quotient(&self, x: Scalar, y: Scalar) -> Scalar {
        s(f(x) / f(y))
    }

    fn root(&self, x: Scalar) -> Scalar {
        s(f(x).sqrt())
    }

    fn remainder(&self, x: Scalar, y: Scalar) -> Scalar {
        s(f(x) % f(y))
    }

    fn cosine(&self, x: Scalar) -> Scalar {
        s(f(x).cos())
    }

    fn tangent(&self, x: Scalar) -> Scalar {
        s(f(x).tan())
    }

    fn arc_cosine(&self, x: Scalar) -> Scalar {
        s(f(x).acos())
    }

    fn arc_tangent(&self, y: Scalar, x: Scalar) -> Scalar {
        s(f(y).atan2(f(x)))
    }

    fn sine(&self, x: Scalar) -> Scalar {
        s(f(x).sin())
    }

    fn number(&self, count: usize) -> Scalar {
        s(count as f64)
    }

    fn random(&self) -> Scalar {
        match self.chance {
            Some(chance) => s(chance),
            None => s(rand::random::<f64>()),
        }
    }

    fn round(&self, x: Scalar) -> Scalar {
        s(f(x).round())
    }

    fn byte(&self, x: Scalar) -> u8 {
        f(x) as u8
    }
}

/// Arithmetic in which every product is zero.
struct Void;

impl Arithmetic for Void {
    fn sum(&self, x: Scalar, y: Scalar) -> Scalar {
        ieee().sum(x, y)
    }

    fn difference(&self, x: Scalar, y: Scalar) -> Scalar {
        ieee().difference(x, y)
    }

    fn product(&self, _x: Scalar, _y: Scalar) -> Scalar {
        s(0.0)
    }

    fn quotient(&self, x: Scalar, y: Scalar) -> Scalar {
        ieee().quotient(x, y)
    }

    fn root(&self, x: Scalar) -> Scalar {
        ieee().root(x)
    }

    fn remainder(&self, x: Scalar, y: Scalar) -> Scalar {
        ieee().remainder(x, y)
    }

    fn cosine(&self, x: Scalar) -> Scalar {
        ieee().cosine(x)
    }

    fn tangent(&self, x: Scalar) -> Scalar {
        ieee().tangent(x)
    }

    fn arc_cosine(&self, x: Scalar) -> Scalar {
        ieee().arc_cosine(x)
    }

    fn arc_tangent(&self, y: Scalar, x: Scalar) -> Scalar {
        ieee().arc_tangent(y, x)
    }

    fn sine(&self, x: Scalar) -> Scalar {
        ieee().sine(x)
    }

    fn number(&self, count: usize) -> Scalar {
        ieee().number(count)
    }

    fn random(&self) -> Scalar {
        ieee().random()
    }

    fn round(&self, x: Scalar) -> Scalar {
        ieee().round(x)
    }

    fn byte(&self, x: Scalar) -> u8 {
        ieee().byte(x)
    }
}

struct Sphere {
    center: [f64; 3],
    radius: f64,
    material_id: usize,
}

impl<N: Arithmetic> RenderObject<N> for Sphere {
    fn intersect(&self, ray: &Ray, _num: &N) -> Option<IntersectionPayload> {
        let origin = a(ray.origin);
        let direction = a(ray.direction);
        let offset = sub(origin, self.center);
        let b = inner(direction, offset);
        let discriminant = b * b - (inner(offset, offset) - self.radius * self.radius);
        if discriminant < 0.0 {
            return None;
        }
        let distance = -b - discriminant.sqrt();
        if distance <= 0.0 {
            return None;
        }
        let position = along(origin, direction, distance);
        let normal = sub(position, self.center);
        Some(IntersectionPayload {
            position: v(position[0], position[1], position[2]),
            distance: s(distance),
            normal: v(normal[0] / self.radius, normal[1] / self.radius, normal[2] / self.radius),
            material_id: self.material_id,
            u: s(0.0),
            v: s(0.0),
        })
    }

    fn bounds(&self, _num: &N) -> Bounds {
        let r = self.radius;
        let c = self.center;
        Bounds::new(v(c[0] - r, c[1] - r, c[2] - r), v(c[0] + r, c[1] + r, c[2] + r))
    }
}

impl<N: Arithmetic> Light<N> for Sphere {
    fn pdf_value(&self, _ray: Ray, _num: &N) -> Scalar {
        s(0.75)
    }

    fn random(&self, origin: Vector3, _num: &N) -> Vector3 {
        let d = unit(sub(self.center, a(origin)));
        v(d[0], d[1], d[2])
    }
}

/// The plane `y = height`, seen from above and below.
struct Floor {
    height: f64,
    material_id: usize,
}

impl<N: Arithmetic> RenderObject<N> for Floor {
    fn intersect(&self, ray: &Ray, _num: &N) -> Option<IntersectionPayload> {
        let origin = a(ray.origin);
        let direction = a(ray.direction);
        if direction[1] == 0.0 {
            return None;
        }
        let distance = (self.height - origin[1]) / direction[1];
        if distance <= 0.0 {
            return None;
        }
        let position = along(origin, direction, distance);
        Some(IntersectionPayload {
            position: v(position[0], position[1], position[2]),
            distance: s(distance),
            normal: v(0.0, 1.0, 0.0),
            material_id: self.material_id,
            u: s(0.0),
            v: s(0.0),
        })
    }

    fn bounds(&self, _num: &N) -> Bounds {
        Bounds::Full
    }
}

impl<N: Arithmetic> Light<N> for Floor {
    fn pdf_value(&self, _ray: Ray, _num: &N) -> Scalar {
        s(0.0)
    }

    fn random(&self, _origin: Vector3, _num: &N) -> Vector3 {
        v(0.0, -1.0, 0.0)
    }
}

/// A surface that is hit by every ray at a given distance.
struct Veil {
    distance: f64,
    material_id: usize,
    low: [f64; 3],
}

impl<N: Arithmetic> RenderObject<N> for Veil {
    fn intersect(&self, _ray: &Ray, _num: &N) -> Option<IntersectionPayload> {
        Some(hit(self.distance, self.material_id))
    }

    fn bounds(&self, _num: &N) -> Bounds {
        Bounds::new(
            v(self.low[0], self.low[1], self.low[2]),
            v(self.low[0] + 1.0, self.low[1] + 1.0, self.low[2] + 1.0),
        )
    }
}

impl<N: Arithmetic> Light<N> for Veil {
    fn pdf_value(&self, _ray: Ray, _num: &N) -> Scalar {
        s(0.75)
    }

    fn random(&self, _origin: Vector3, _num: &N) -> Vector3 {
        v(1.0, 0.0, 0.0)
    }
}

/// Emits and does not scatter.
struct Lamp {
    light: [f64; 3],
}

impl<N: Arithmetic> Material<N> for Lamp {
    fn emmission(&self, _payload: &IntersectionPayload, _num: &N) -> Color {
        color(self.light[0], self.light[1], self.light[2], 1.0)
    }

    fn scatter(
        &self,
        _payload: &IntersectionPayload,
        _incoming_direction: Vector3,
        _num: &N,
    ) -> Option<ScatterPayload<N>> {
        None
    }

    fn transmission(
        &self,
        _payload: &IntersectionPayload,
        _incoming: Vector3,
        _outgoing: Vector3,
        _num: &N,
    ) -> Color {
        color(0.0, 0.0, 0.0, 1.0)
    }

    fn scattering_pdf(
        &self,
        _payload: &IntersectionPayload,
        _incoming: Vector3,
        _outgoing: Vector3,
        _num: &N,
    ) -> Scalar {
        s(0.0)
    }
}

/// Emits and scatters.
struct Paint {
    glow: [f64; 3],
    share: [f64; 3],
}

impl<N: Arithmetic> Material<N> for Paint {
    fn emmission(&self, _payload: &IntersectionPayload, _num: &N) -> Color {
        color(self.glow[0], self.glow[1], self.glow[2], 1.0)
    }

    fn scatter(
        &self,
        _payload: &IntersectionPayload,
        _incoming_direction: Vector3,
        _num: &N,
    ) -> Option<ScatterPayload<N>> {
        Some(ScatterPayload {
            is_specular: false,
            attenuation: color(self.share[0], self.share[1], self.share[2], 1.0),
            pdf: Box::new(Fixed { direction: [0.0, 1.0, 0.0], density: 1.0 }),
        })
    }

    fn transmission(
        &self,
        _payload: &IntersectionPayload,
        _incoming: Vector3,
        _outgoing: Vector3,
        _num: &N,
    ) -> Color {
        color(self.share[0], self.share[1], self.share[2], 1.0)
    }

    fn scattering_pdf(
        &self,
        _payload: &IntersectionPayload,
        _incoming: Vector3,
        _outgoing: Vector3,
        _num: &N,
    ) -> Scalar {
        s(1.0)
    }
}

/// Looks along +z from the plane z = -10, one unit for each pixel, the
/// first pixel at the origin.
struct Straight;

impl<N: Arithmetic> Camera<N> for Straight {
    fn generate_ray(&self, _width: usize, _height: usize, x: Scalar, y: Scalar, _num: &N) -> Ray {
        ray([f(x), f(y), -10.0], [0.0, 0.0, 1.0])
    }
}

fn unit_box() -> Bounds {
    Bounds::BoundingBox(v(0.0, 0.0, 0.0), v(1.0, 1.0, 1.0))
}

#[test]
fn intersect() {
    let bounding_box = Bounds::BoundingBox(v(0.0, 0.0, 0.0), v(1.0, 1.0, 1.0));
    let ray = Ray { origin: v(0.5, -1.0, 0.5), direction: v(0.0, 1.0, 0.0) };

    assert!(bounding_box.intersect(&ray, &ieee()));

    let ray2 = Ray { origin: v(0.5, -1.0, 0.5), direction: v(0.0, -1.0, 0.0) };

    assert!(!bounding_box.intersect(&ray2, &ieee()));
}

#[test]
fn bounds_new_is_a_box() {
    match Bounds::new(v(1.0, 2.0, 3.0), v(4.0, 5.0, 6.0)) {
        Bounds::BoundingBox(min, max) => {
            assert_eq!(a(min), [1.0, 2.0, 3.0]);
            assert_eq!(a(max), [4.0, 5.0, 6.0]);
        }
        Bounds::Full => panic!("a box was asked for"),
    }
}

#[test]
fn ray_from_inside_meets_the_box() {
    let directions = [
        [1.0, 0.0, 0.0],
        [-1.0, 0.0, 0.0],
        [0.0, 1.0, 0.0],
        [0.0, -1.0, 0.0],
        [0.0, 0.0, 1.0],
        [0.0, 0.0, -1.0],
        [1.0, 1.0, 1.0],
        [-1.0, 2.0, -3.0],
        [0.3, -0.2, 0.0],
        [1e-9, 1.0, -1e9],
        [0.0, 0.0, 0.0],
    ];
    for origin in [[0.5, 0.5, 0.5], [0.01, 0.99, 0.5], [0.999, 0.001, 0.25]] {
        for direction in directions {
            assert!(unit_box().intersect(&ray(origin, direction), &ieee()), "{:?} {:?}", origin, direction);
        }
    }
}

#[test]
fn ray_moving_away_misses_the_box() {
    let cases = [
        ([2.0, 0.5, 0.5], [1.0, 0.0, 0.0]),
        ([-1.0, 0.5, 0.5], [-1.0, 0.0, 0.0]),
        ([0.5, 2.0, 0.5], [0.0, 1.0, 0.0]),
        ([0.5, -1.0, 0.5], [0.0, -1.0, 0.0]),
        ([0.5, 0.5, 2.0], [0.0, 0.0, 1.0]),
        ([0.5, 0.5, -1.0], [0.0, 0.0, -1.0]),
    ];
    for (origin, direction) in cases {
        assert!(!unit_box().intersect(&ray(origin, direction), &ieee()), "{:?} {:?}", origin, direction);
        let back = [-direction[0], -direction[1], -direction[2]];
        assert!(unit_box().intersect(&ray(origin, back), &ieee()), "{:?} {:?}", origin, back);
    }
}

#[test]
fn ray_beside_the_box_misses_it() {
    assert!(!unit_box().intersect(&ray([2.0, -1.0, 0.5], [0.0, 1.0, 0.0]), &ieee()));
    assert!(!unit_box().intersect(&ray([-3.0, -1.0, 0.5], [1.0, 1.0, 0.0]), &ieee()));
    assert!(unit_box().intersect(&ray([-1.0, -1.0, 0.5], [1.0, 1.0, 0.0]), &ieee()));
}

#[test]
fn all_of_space_is_always_met() {
    assert!(Bounds::Full.intersect(&ray([5.0, 5.0, 5.0], [1.0, 0.0, 0.0]), &ieee()));
    assert!(Bounds::Full.intersect(&ray([0.0, 0.0, 0.0], [0.0, 0.0, 0.0]), &ieee()));
    assert!(Bounds::Full.intersect(&ray([f64::NAN, 0.0, 0.0], [f64::NAN, 0.0, 0.0]), &ieee()));
}

#[test]
fn a_box_without_depth_is_missed() {
    let flat = Bounds::BoundingBox(v(0.0, 0.0, 0.0), v(1.0, 1.0, 0.0));
    assert!(!flat.intersect(&ray([0.5, 0.5, -1.0], [0.0, 0.0, 1.0]), &ieee()));
}

#[test]
fn overlaps_on_given_crossings() {
    let forward = v(1.0, 1.0, 1.0);
    assert!(Bounds::overlaps(&forward, &v(1.0, 1.0, 1.0), &v(2.0, 2.0, 2.0)));
    assert!(Bounds::overlaps(&forward, &v(-1.0, -2.0, -3.0), &v(1.0, 2.0, 3.0)));
    // the slabs of the first two axes are left before the third is entered
    assert!(!Bounds::overlaps(&forward, &v(1.0, 1.0, 3.0), &v(2.0, 2.0, 4.0)));
    // entered exactly when left
    assert!(!Bounds::overlaps(&forward, &v(1.0, 1.0, 2.0), &v(2.0, 2.0, 3.0)));
    // behind the origin
    assert!(!Bounds::overlaps(&forward, &v(-2.0, -2.0, -2.0), &v(-1.0, -1.0, -1.0)));
    // a ray that runs backwards enters through the upper plane
    let backward = v(-1.0, 1.0, 1.0);
    assert!(Bounds::overlaps(&backward, &v(2.0, 1.0, 1.0), &v(1.0, 2.0, 2.0)));
    assert!(!Bounds::overlaps(&forward, &v(2.0, 1.0, 1.0), &v(1.0, 2.0, 2.0)));
    // so does one along the negative zero, whose reciprocal is negative
    let inf = f64::INFINITY;
    assert!(Bounds::overlaps(&v(-0.0, 1.0, 1.0), &v(inf, 1.0, 1.0), &v(-inf, 2.0, 2.0)));
    assert!(!Bounds::overlaps(&v(0.0, 1.0, 1.0), &v(inf, 1.0, 1.0), &v(-inf, 2.0, 2.0)));
    // but not one along the negative infinity, whose reciprocal is a zero
    assert!(!Bounds::overlaps(&v(-inf, 1.0, 1.0), &v(2.0, 1.0, 1.0), &v(1.0, 2.0, 2.0)));
    // a crossing that is no number cuts nothing away
    let nan = f64::NAN;
    assert!(Bounds::overlaps(&forward, &v(nan, 1.0, 1.0), &v(nan, 2.0, 2.0)));
}

#[test]
fn volumes_sort_by_their_lower_corner() {
    let low = Bounds::new(v(-1.0, 5.0, 0.0), v(9.0, 9.0, 9.0));
    let high = Bounds::new(v(2.0, -5.0, 0.0), v(9.0, 9.0, 9.0));
    assert!(low.sorts_before(&high, 0));
    assert!(!high.sorts_before(&low, 0));
    assert!(high.sorts_before(&low, 1));
    assert!(!low.sorts_before(&high, 1));
    assert!(!low.sorts_before(&high, 2));
    assert!(!high.sorts_before(&low, 2));
    assert!(!low.sorts_before(&low, 0));
}

#[test]
fn all_of_space_sorts_last() {
    let far = Bounds::new(v(1e300, 1e300, f64::INFINITY), v(1e301, 1e301, f64::INFINITY));
    for axis in 0..3 {
        assert!(far.sorts_before(&Bounds::Full, axis));
        assert!(!Bounds::Full.sorts_before(&far, axis));
        assert!(!Bounds::Full.sorts_before(&Bounds::Full, axis));
    }
}

#[test]
fn zeros_of_either_sign_sort_alike() {
    let plus = Bounds::new(v(0.0, 0.0, 0.0), v(1.0, 1.0, 1.0));
    let minus = Bounds::new(v(-0.0, -0.0, -0.0), v(1.0, 1.0, 1.0));
    assert!(!plus.sorts_before(&minus, 0));
    assert!(!minus.sorts_before(&plus, 0));
}

fn corners(bounds: &Bounds) -> Option<([f64; 3], [f64; 3])> {
    match bounds {
        Bounds::BoundingBox(min, max) => Some((a(*min), a(*max))),
        Bounds::Full => None,
    }
}

#[test]
fn surrounding_box_spans_both() {
    let p = Bounds::new(v(0.0, -1.0, 2.0), v(1.0, 3.0, 4.0));
    let q = Bounds::new(v(-2.0, 0.0, 3.0), v(0.5, 5.0, 3.5));
    let both = BVH::<Sphere>::surrounding_box(&p, &q);
    assert_eq!(corners(&both), Some(([-2.0, -1.0, 2.0], [1.0, 5.0, 4.0])));
    let both = BVH::<Sphere>::surrounding_box(&q, &p);
    assert_eq!(corners(&both), Some(([-2.0, -1.0, 2.0], [1.0, 5.0, 4.0])));
}

#[test]
fn surrounding_box_of_all_of_space_is_all_of_space() {
    let p = Bounds::new(v(0.0, -1.0, 2.0), v(1.0, 3.0, 4.0));
    assert!(corners(&BVH::<Sphere>::surrounding_box(&p, &Bounds::Full)).is_none());
    assert!(corners(&BVH::<Sphere>::surrounding_box(&Bounds::Full, &p)).is_none());
    assert!(corners(&BVH::<Sphere>::surrounding_box(&Bounds::Full, &Bounds::Full)).is_none());
}

#[test]
fn nearer_hit_of_none_is_none() {
    assert!(nearer_hit(None, None).is_none());
}

#[test]
fn nearer_hit_keeps_a_lone_hit_beyond_the_self_hit_distance() {
    assert_eq!(SELF_HIT_BITS, 1e-3f64.to_bits());
    assert_eq!(f(nearer_hit(Some(hit(2.0, 7)), None).unwrap().distance), 2.0);
    assert_eq!(nearer_hit(None, Some(hit(2.0, 7))).unwrap().material_id, 7);
    assert_eq!(f(nearer_hit(None, Some(hit(0.0011, 0))).unwrap().distance), 0.0011);
}

#[test]
fn nearer_hit_drops_a_lone_hit_within_the_self_hit_distance() {
    assert!(nearer_hit(Some(hit(1e-3, 0)), None).is_none());
    assert!(nearer_hit(None, Some(hit(1e-3, 0))).is_none());
    assert!(nearer_hit(Some(hit(1e-4, 0)), None).is_none());
    assert!(nearer_hit(None, Some(hit(0.0, 0))).is_none());
    assert!(nearer_hit(Some(hit(-1.0, 0)), None).is_none());
    assert!(nearer_hit(Some(hit(f64::NAN, 0)), None).is_none());
}

#[test]
fn nearer_hit_of_two_is_the_one_with_the_smaller_distance() {
    assert_eq!(nearer_hit(Some(hit(1.0, 1)), Some(hit(2.0, 2))).unwrap().material_id, 1);
    assert_eq!(nearer_hit(Some(hit(2.0, 1)), Some(hit(1.0, 2))).unwrap().material_id, 2);
    // neither is smaller: the right one
    assert_eq!(nearer_hit(Some(hit(1.0, 1)), Some(hit(1.0, 2))).unwrap().material_id, 2);
    // of two hits none is dropped for being near
    assert_eq!(nearer_hit(Some(hit(1e-5, 1)), Some(hit(1e-4, 2))).unwrap().material_id, 1);
}

fn spheres(count: usize, seed: u64) -> Vec<Sphere> {
    let mut state = seed;
    let mut next = move || {
        state = state.wrapping_mul(6364136223846793005).wrapping_add(1442695040888963407);
        ((state >> 11) as f64) / ((1u64 << 53) as f64)
    };
    (0..count)
        .map(|i| Sphere {
            center: [next() * 20.0 - 10.0, next() * 20.0 - 10.0, next() * 20.0 - 10.0],
            radius: 0.5 + next() * 2.0,
            material_id: i,
        })
        .collect()
}

fn leaves<P>(tree: &BVH<P>) -> Vec<(&P, &Bounds)> {
    match tree {
        BVH::Node(left, right, _) => {
            let mut all = leaves(left);
            all.extend(leaves(right));
            all
        }
        BVH::Shape(object, bounds) => vec![(object, bounds)],
    }
}

fn height<P>(tree: &BVH<P>) -> usize {
    match tree {
        BVH::Node(left, right, _) => 1 + height(left).max(height(right)),
        BVH::Shape(_, _) => 0,
    }
}

fn key(bounds: &Bounds, axis: usize) -> f64 {
    match bounds {
        Bounds::BoundingBox(min, _) => a(*min)[axis],
        Bounds::Full => f64::INFINITY,
    }
}

fn check_nodes(tree: &BVH<Sphere>) {
    if let BVH::Node(left, right, bounds) = tree {
        let left_leaves = leaves(left);
        let right_leaves = leaves(right);
        assert_eq!(left_leaves.len(), (left_leaves.len() + right_leaves.len()) / 2);
        let split = (0..3).any(|axis| {
            left_leaves
                .iter()
                .all(|(_, l)| right_leaves.iter().all(|(_, r)| key(l, axis) <= key(r, axis)))
        });
        assert!(split);
        let union = BVH::<Sphere>::surrounding_box(left.bounds(), right.bounds());
        assert_eq!(corners(bounds), corners(&union));
        check_nodes(left);
        check_nodes(right);
    }
}

#[test]
fn tree_of_one_object_is_a_leaf() {
    let tree = BVH::new(vec![Sphere { center: [1.0, 2.0, 3.0], radius: 1.0, material_id: 4 }], &ieee());
    match &tree {
        BVH::Shape(object, bounds) => {
            assert_eq!(object.material_id, 4);
            assert_eq!(corners(bounds), Some(([0.0, 1.0, 2.0], [2.0, 3.0, 4.0])));
        }
        BVH::Node(_, _, _) => panic!("one object makes a leaf"),
    }
    assert_eq!(corners(tree.bounds()), Some(([0.0, 1.0, 2.0], [2.0, 3.0, 4.0])));
}

#[test]
fn tree_holds_every_object_once() {
    for count in 1..=17 {
        let tree = BVH::new(spheres(count, count as u64), &ieee());
        let mut ids: Vec<usize> = leaves(&tree).iter().map(|(object, _)| object.material_id).collect();
        ids.sort();
        assert_eq!(ids, (0..count).collect::<Vec<usize>>());
        for (object, bounds) in leaves(&tree) {
            assert_eq!(corners(bounds), corners(&object.bounds(&ieee())));
        }
    }
}

#[test]
fn tree_is_balanced_split_and_tight() {
    for count in 1..=17 {
        for seed in 0..8 {
            let tree = BVH::new(spheres(count, 100 + seed), &ieee());
            check_nodes(&tree);
            let mut ceiling = 0;
            while (1usize << ceiling) < count {
                ceiling += 1;
            }
            assert_eq!(height(&tree), ceiling);
        }
    }
}

#[test]
fn tree_is_split_along_an_axis_chosen_at_random() {
    // along the first and the third axis the first object comes first,
    // along the second axis the second one
    let mut first_on_the_left = 0;
    let mut second_on_the_left = 0;
    for _ in 0..300 {
        let tree = BVH::new(vec![
            Sphere { center: [0.0, 10.0, 0.0], radius: 1.0, material_id: 0 },
            Sphere { center: [10.0, 0.0, 5.0], radius: 1.0, material_id: 1 },
        ], &ieee());
        let ids: Vec<usize> = leaves(&tree).iter().map(|(object, _)| object.material_id).collect();
        if ids == vec![0, 1] {
            first_on_the_left += 1;
        } else {
            assert_eq!(ids, vec![1, 0]);
            second_on_the_left += 1;
        }
    }
    assert!(first_on_the_left > 100);
    assert!(second_on_the_left > 30);
}

#[test]
fn objects_with_equal_keys_keep_their_order() {
    for _ in 0..20 {
        let tree = BVH::new(vec![
            Sphere { center: [0.0, 0.0, 0.0], radius: 1.0, material_id: 0 },
            Sphere { center: [0.0, 0.0, 0.0], radius: 1.0, material_id: 1 },
            Sphere { center: [0.0, 0.0, 0.0], radius: 1.0, material_id: 2 },
            Sphere { center: [0.0, 0.0, 0.0], radius: 1.0, material_id: 3 },
        ], &ieee());
        let ids: Vec<usize> = leaves(&tree).iter().map(|(object, _)| object.material_id).collect();
        assert_eq!(ids, vec![0, 1, 2, 3]);
    }
}

#[test]
fn tree_with_an_unbounded_object_is_unbounded() {
    let objects: Vec<Box<dyn RenderObject<Ieee>>> = vec![
        Box::new(Sphere { center: [0.0, 2.0, 0.0], radius: 1.0, material_id: 0 }),
        Box::new(Floor { height: 0.0, material_id: 1 }),
        Box::new(Sphere { center: [4.0, 2.0, 0.0], radius: 1.0, material_id: 0 }),
    ];
    let tree = BVH::new(objects, &ieee());
    assert!(corners(tree.bounds()).is_none());
    let all = leaves(&tree);
    assert_eq!(all.len(), 3);
    // all of space sorts last: the floor is the last leaf
    assert!(corners(all[0].1).is_some());
    assert!(corners(all[2].1).is_none() || corners(all[1].1).is_none());
    let down = tree.intersect(&ray([2.0, 3.0, 0.0], [0.0, -1.0, 0.0]), &ieee()).unwrap();
    assert_eq!(down.material_id, 1);
    assert_eq!(f(down.distance), 3.0);
    let onto_sphere = tree.intersect(&ray([0.0, 5.0, 0.0], [0.0, -1.0, 0.0]), &ieee()).unwrap();
    assert_eq!(onto_sphere.material_id, 0);
    assert_eq!(f(onto_sphere.distance), 2.0);
}

fn scan(objects: &[Sphere], ray: &Ray) -> Option<IntersectionPayload> {
    let mut best: Option<IntersectionPayload> = None;
    for object in objects {
        if let Some(found) = object.intersect(ray, &ieee()) {
            if best.map_or(true, |b| f(found.distance) < f(b.distance)) {
                best = Some(found);
            }
        }
    }
    best
}

#[test]
fn tree_finds_what_a_scan_of_all_objects_finds() {
    let mut hits = 0;
    let mut misses = 0;
    for count in 1..=12 {
        let objects = spheres(count, 7 * count as u64);
        let tree = BVH::new(spheres(count, 7 * count as u64), &ieee());
        for i in 0..200 {
            let angle = i as f64 * 0.37;
            let lift = (i as f64 * 0.11).sin();
            let origin = [40.0 * angle.cos(), 40.0 * lift, 40.0 * angle.sin()];
            let target = [(i % 7) as f64 - 3.0, (i % 5) as f64 - 2.0, (i % 3) as f64 - 1.0];
            let probe = ray(origin, unit(sub(target, origin)));
            let expected = scan(&objects, &probe);
            let found = tree.intersect(&probe, &ieee());
            match (expected, found) {
                (None, None) => misses += 1,
                (Some(e), Some(g)) => {
                    assert_eq!(f(e.distance), f(g.distance));
                    assert_eq!(e.material_id, g.material_id);
                    hits += 1;
                }
                (e, g) => panic!("scan {:?}, tree {:?}", e.map(|h| f(h.distance)), g.map(|h| f(h.distance))),
            }
        }
    }
    assert!(hits > 100);
    assert!(misses > 100);
}

#[test]
fn leaf_passes_on_what_its_object_returns() {
    let tree = BVH::new(vec![Veil { distance: 1e-6, material_id: 3, low: [0.0, 0.0, 0.0] }], &ieee());
    let found = tree.intersect(&ray([0.5, 0.5, -1.0], [0.0, 0.0, 1.0]), &ieee()).unwrap();
    assert_eq!(f(found.distance), 1e-6);
    assert_eq!(found.material_id, 3);
    // the object is not asked where the ray misses its volume
    assert!(tree.intersect(&ray([5.0, 5.0, -1.0], [0.0, 0.0, 1.0]), &ieee()).is_none());
}

#[test]
fn node_drops_a_lone_hit_within_the_self_hit_distance() {
    let tree = BVH::new(vec![
        Veil { distance: 1e-6, material_id: 1, low: [0.0, 0.0, 0.0] },
        Veil { distance: 5.0, material_id: 2, low: [10.0, 0.0, 0.0] },
    ], &ieee());
    // only the volume of the first object is met
    assert!(tree.intersect(&ray([0.5, 0.5, -1.0], [0.0, 0.0, 1.0]), &ieee()).is_none());
    // only the volume of the second object is met
    let found = tree.intersect(&ray([10.5, 0.5, -1.0], [0.0, 0.0, 1.0]), &ieee()).unwrap();
    assert_eq!(found.material_id, 2);
    // both are met: the nearer hit is kept, however near
    let found = tree.intersect(&ray([-1.0, 0.5, 0.5], [1.0, 0.0, 0.0]), &ieee()).unwrap();
    assert_eq!(found.material_id, 1);
    assert_eq!(f(found.distance), 1e-6);
}

#[test]
fn cosine_pdf_non_zero_pdf() {
    let num = random();
    let c = CosinePDF::new(v(0.0, 1.0, 0.0), &num);
    for _ in 0..10 {
        let d = c.generate(&num);
        let pdf = c.value(d, &num);

        assert_ne!(f(pdf), 0.0);
    }
}

#[test]
fn cosine_sampler_non_zero_pdf() {
    let num = random();
    let c = CosineSampler::new(v(0.0, 1.0, 0.0), &num);
    for _ in 0..10 {
        let d = c.generate(&num);
        let pdf = c.value(d, &num);

        assert_ne!(f(pdf), 0.0);
    }
}

#[test]
fn cosine_sampler_draws_on_the_side_of_the_normal() {
    let num = random();
    for normal in [[0.0, 1.0, 0.0], [1.0, 0.0, 0.0], [0.0, 0.0, -1.0], unit([1.0, 1.0, 0.0]), unit([-1.0, 2.0, 3.0])] {
        let c = CosineSampler::new(v(normal[0], normal[1], normal[2]), &num);
        for _ in 0..100 {
            let d = c.generate(&num);
            assert!(inner(a(d), normal) > 0.0);
            assert!((inner(a(d), a(d)) - 1.0).abs() < 1e-9);
            assert!(f(c.value(d, &num)) > 0.0);
            assert_eq!(f(c.value(d, &num)), inner(a(d), normal) / std::f64::consts::PI);
        }
    }
}

#[test]
fn cosine_sampler_weighs_by_the_cosine_over_pi() {
    let num = ieee();
    let c = CosineSampler::new(v(0.0, 1.0, 0.0), &num);
    assert_eq!(f(c.value(v(0.0, 1.0, 0.0), &num)), 1.0 / std::f64::consts::PI);
    assert_eq!(f(c.value(v(0.6, 0.8, 0.0), &num)), 0.8 / std::f64::consts::PI);
    assert_eq!(f(c.value(v(0.0, 0.5, 0.0), &num)), 0.5 / std::f64::consts::PI);
    assert_eq!(a(c.normal), [0.0, 1.0, 0.0]);
}

#[test]
fn cosine_sampler_gives_the_far_side_a_small_density() {
    assert_eq!(FAR_SIDE_DENSITY_BITS, 1e-5f64.to_bits());
    let num = ieee();
    let c = CosineSampler::new(v(0.0, 1.0, 0.0), &num);
    assert_eq!(f(c.value(v(0.0, -1.0, 0.0), &num)), 1e-5);
    assert_eq!(f(c.value(v(0.6, -0.8, 0.0), &num)), 1e-5);
    // across the normal: the cosine is zero
    assert_eq!(f(c.value(v(1.0, 0.0, 0.0), &num)), 1e-5);
    assert_eq!(f(c.value(v(1.0, -0.0, 0.0), &num)), 1e-5);
}

#[test]
fn cosine_sampler_draws_the_normal_where_the_random_numbers_are_zero() {
    let num = ieee();
    for normal in [[0.0, 1.0, 0.0], [1.0, 0.0, 0.0], [0.0, 0.0, -1.0], [0.6, 0.0, 0.8]] {
        let c = CosineSampler::new(v(normal[0], normal[1], normal[2]), &num);
        assert_eq!(a(c.generate(&num)), normal);
    }
}

#[test]
fn crossing_is_the_offset_over_the_direction() {
    assert_eq!(f(crossing(&ieee(), s(3.0), s(1.0), s(4.0))), 0.5);
    assert_eq!(f(crossing(&ieee(), s(1.0), s(3.0), s(4.0))), -0.5);
    assert_eq!(f(crossing(&ieee(), s(0.1), s(0.3), s(3.0))), (0.1 - 0.3) / 3.0);
    assert_eq!(f(crossing(&ieee(), s(1.0), s(0.5), s(0.0))), f64::INFINITY);
    assert_eq!(f(crossing(&ieee(), s(0.0), s(0.5), s(0.0))), f64::NEG_INFINITY);
    assert_eq!(f(crossing(&ieee(), s(1.0), s(0.5), s(-0.0))), f64::NEG_INFINITY);
    assert!(f(crossing(&ieee(), s(0.5), s(0.5), s(0.0))).is_nan());
}

#[test]
fn mean_is_half_of_each() {
    assert_eq!(f(mean(&ieee(), s(0.3), s(0.8))), 0.5 * 0.3 + 0.5 * 0.8);
    assert_eq!(f(mean(&ieee(), s(1.0), s(3.0))), 2.0);
    assert_eq!(f(mean(&ieee(), s(0.0), s(0.0))), 0.0);
    // each half is taken before the sum: nothing overflows
    assert_eq!(f(mean(&ieee(), s(f64::MAX), s(f64::MAX))), f64::MAX);
}

#[test]
fn estimate_adds_the_weighed_light_to_the_emitted() {
    let found = estimate(
        &ieee(),
        color(0.125, 0.25, 0.5, 1.0),
        color(0.5, 0.25, 1.0, 1.0),
        color(4.0, 2.0, 1.0, 1.0),
        s(0.5),
    );
    assert_eq!(channels(found), [4.125, 1.25, 2.5, 1.0]);
    let k = 1.0 / 0.3;
    let found = estimate(&ieee(), color(0.1, 0.2, 0.3, 1.0), color(0.7, 0.7, 0.7, 1.0), color(0.9, 0.5, 0.1, 1.0), s(0.3));
    assert_eq!(channels(found), [0.1 + (0.7 * 0.9) * k, 0.2 + (0.7 * 0.5) * k, 0.3 + (0.7 * 0.1) * k, 1.0]);
}

#[test]
fn jitter_is_the_pixel_and_an_offset() {
    assert_eq!(f(jitter(&ieee(), 0)), 0.0);
    assert_eq!(f(jitter(&ieee(), 7)), 7.0);
    let num = random();
    for pixel in [0usize, 1, 599] {
        for _ in 0..50 {
            let place = f(jitter(&num, pixel));
            assert!(place >= pixel as f64 && place < pixel as f64 + 1.0);
        }
    }
}

#[test]
fn average_divides_by_the_number_of_samples() {
    let mean = average(&ieee(), &color(2.0, 4.0, 1.0, 1.0), 4);
    assert_eq!(channels(mean), [0.5, 1.0, 0.25, 1.0]);
    let k = 1.0 / 3.0;
    let mean = average(&ieee(), &color(2.0, 0.1, 1.0, 1.0), 3);
    assert_eq!(channels(mean), [2.0 * k, 0.1 * k, 1.0 * k, 1.0]);
}

#[test]
fn mixture_draws_from_the_first_on_heads() {
    let first = Fixed { direction: [1.0, 0.0, 0.0], density: 0.3 };
    let second = Fixed { direction: [0.0, 1.0, 0.0], density: 0.8 };
    let num = ieee();
    let mixture = MixtureSampler::new(&first, &second);
    assert_eq!(a(mixture.draw(true, &num)), [1.0, 0.0, 0.0]);
    assert_eq!(a(mixture.draw(false, &num)), [0.0, 1.0, 0.0]);
}

#[test]
fn mixture_draws_from_the_first_below_one_half() {
    let first = Fixed { direction: [1.0, 0.0, 0.0], density: 0.3 };
    let second = Fixed { direction: [0.0, 1.0, 0.0], density: 0.8 };
    let mixture = MixtureSampler::new(&first, &second);
    for (chance, expected) in [
        (0.0, [1.0, 0.0, 0.0]),
        (0.25, [1.0, 0.0, 0.0]),
        (0.4999999999999999, [1.0, 0.0, 0.0]),
        (0.5, [0.0, 1.0, 0.0]),
        (0.75, [0.0, 1.0, 0.0]),
        (0.9999999999999999, [0.0, 1.0, 0.0]),
    ] {
        assert_eq!(a(mixture.generate(&Ieee { chance: Some(chance) })), expected);
    }
}

#[test]
fn mixture_generates_from_both() {
    let first = Fixed { direction: [1.0, 0.0, 0.0], density: 0.3 };
    let second = Fixed { direction: [0.0, 1.0, 0.0], density: 0.8 };
    let num = random();
    let mixture = MixtureSampler::new(&first, &second);
    let mut from_first = 0;
    let mut from_second = 0;
    for _ in 0..400 {
        let drawn = a(mixture.generate(&num));
        if drawn == [1.0, 0.0, 0.0] {
            from_first += 1;
        } else {
            assert_eq!(drawn, [0.0, 1.0, 0.0]);
            from_second += 1;
        }
    }
    assert!(from_first > 100);
    assert!(from_second > 100);
}

#[test]
fn mixture_value_is_the_mean_of_both() {
    let num = ieee();
    for &(x, y) in &[(0.3, 0.8), (0.0, 0.0), (1e-5, 0.0), (1.0, 3.0), (0.1, 0.2), (1e300, 1e300)] {
        let first = Fixed { direction: [1.0, 0.0, 0.0], density: x };
        let second = Fixed { direction: [0.0, 1.0, 0.0], density: y };
        let mixture = MixtureSampler::new(&first, &second);
        for direction in [v(1.0, 0.0, 0.0), v(0.0, 1.0, 0.0), v(0.0, 0.0, 1.0)] {
            assert_eq!(f(mixture.value(direction, &num)), 0.5 * x + 0.5 * y);
        }
    }
}

#[test]
fn mixture_of_a_distribution_with_itself_keeps_its_density() {
    let num = ieee();
    for value in [0.0, 0.3, 1.0 / std::f64::consts::PI, 1e-5, 0.75, 1e300, 4.450147717014403e-308] {
        let one = Fixed { direction: [1.0, 0.0, 0.0], density: value };
        let mixture = MixtureSampler::new(&one, &one);
        assert_eq!(f(mixture.value(v(0.0, 1.0, 0.0), &num)), value);
    }
}

#[test]
fn mixture_of_trait_objects() {
    let first: Box<dyn Sampler<Ieee>> = Box::new(Fixed { direction: [1.0, 0.0, 0.0], density: 0.5 });
    let second: Box<dyn Sampler<Ieee>> = Box::new(Fixed { direction: [0.0, 1.0, 0.0], density: 1.5 });
    let num = ieee();
    let mixture = MixtureSampler::new(&*first, &*second);
    assert_eq!(f(mixture.value(v(0.0, 0.0, 1.0), &num)), 1.0);
    assert_eq!(a(mixture.draw(false, &num)), [0.0, 1.0, 0.0]);
}

#[test]
fn render_object_sampler_asks_the_object() {
    let sphere = Sphere { center: [0.0, 4.0, 0.0], radius: 1.0, material_id: 0 };
    let sampler = RenderObjectSampler::new(v(0.0, 1.0, 0.0), &sphere);
    assert_eq!(a(sampler.generate(&ieee())), [0.0, 1.0, 0.0]);
    assert_eq!(f(sampler.value(v(0.0, 1.0, 0.0), &ieee())), 0.75);
}

#[test]
fn constant_texture_is_one_colour() {
    let texture = ConstantTexture::new(color(0.65, 0.05, 0.05, 1.0));
    assert_eq!(channels(texture.value(s(0.1), s(0.9), v(1.0, 2.0, 3.0), &ieee())), [0.65, 0.05, 0.05, 1.0]);
    assert_eq!(channels(texture.value(s(0.9), s(0.1), v(0.0, 0.0, 0.0), &ieee())), [0.65, 0.05, 0.05, 1.0]);
}

fn background() -> Color {
    color(0.5, 0.25, 0.125, 1.0)
}

/// A lamp above a painted sphere.
fn lit_scene(max_depth: usize) -> Scene<Sphere, Sphere, Box<dyn Material<Ieee>>, Ieee> {
    let objects = vec![
        Sphere { center: [0.0, 0.0, 0.0], radius: 1.0, material_id: 0 },
        Sphere { center: [0.0, 0.0, 10.0], radius: 1.0, material_id: 1 },
    ];
    let materials: Vec<Box<dyn Material<Ieee>>> = vec![
        Box::new(Paint { glow: [0.125, 0.25, 0.5], share: [0.5, 0.25, 1.0] }),
        Box::new(Lamp { light: [4.0, 2.0, 1.0] }),
    ];
    let lights = vec![Sphere { center: [0.0, 0.0, 10.0], radius: 1.0, material_id: 1 }];
    // the lamp gives every direction the density 0.75
    Scene::new(objects, materials, lights, background(), max_depth, ieee())
}

#[test]
fn scene_without_objects_has_no_tree() {
    let scene: Scene<Sphere, Sphere, Lamp, Ieee> = Scene::new(vec![], vec![], vec![], background(), 3, ieee());
    assert!(scene.bounding_volume_hierarchy.is_none());
    assert_eq!(scene.max_depth, 3);
    assert_eq!(channels(scene.background_color), channels(background()));
    assert!(lit_scene(1).bounding_volume_hierarchy.is_some());
}

#[test]
fn scene_without_objects_shows_the_background() {
    let scene: Scene<Sphere, Sphere, Lamp, Ieee> = Scene::new(vec![], vec![], vec![], background(), 3, ieee());
    for i in 0..50 {
        let angle = i as f64;
        let probe = ray([angle, -angle, 1.0], [angle.cos(), angle.sin(), 0.0]);
        assert_eq!(channels(scene.get_color(probe)), [0.5, 0.25, 0.125, 1.0]);
        assert_eq!(channels(scene.trace(probe, 3)), [0.5, 0.25, 0.125, 1.0]);
    }
}

#[test]
fn a_scene_needs_no_light_where_nothing_that_is_hit_scatters() {
    // the paint scatters, but no object wears it
    let objects = vec![Sphere { center: [0.0, 0.0, 0.0], radius: 1.0, material_id: 0 }];
    let materials: Vec<Box<dyn Material<Ieee>>> = vec![
        Box::new(Lamp { light: [4.0, 2.0, 1.0] }),
        Box::new(Paint { glow: [0.125, 0.25, 0.5], share: [0.5, 0.25, 1.0] }),
    ];
    let lights: Vec<Sphere> = vec![];
    let scene = Scene::new(objects, materials, lights, background(), 2, ieee());
    assert_eq!(channels(scene.get_color(ray([0.0, 0.0, 5.0], [0.0, 0.0, -1.0]))), [4.0, 2.0, 1.0, 1.0]);
    assert_eq!(channels(scene.get_color(ray([0.0, 5.0, 5.0], [0.0, 0.0, -1.0]))), [0.5, 0.25, 0.125, 1.0]);
    // nor where there is no object at all
    let materials: Vec<Box<dyn Material<Ieee>>> =
        vec![Box::new(Paint { glow: [0.125, 0.25, 0.5], share: [0.5, 0.25, 1.0] })];
    let empty: Scene<Sphere, Sphere, Box<dyn Material<Ieee>>, Ieee> =
        Scene::new(vec![], materials, vec![], background(), 2, ieee());
    assert_eq!(channels(empty.get_color(ray([0.0, 0.0, 5.0], [0.0, 0.0, -1.0]))), [0.5, 0.25, 0.125, 1.0]);
}

#[test]
fn beyond_the_greatest_depth_there_is_no_light() {
    for max_depth in [0usize, 1, 5] {
        let scene = lit_scene(max_depth);
        for depth in [max_depth + 1, max_depth + 2, max_depth + 100, usize::MAX] {
            // towards the lamp, towards the painted sphere, and past both
            for probe in [
                ray([0.0, 0.0, 5.0], [0.0, 0.0, 1.0]),
                ray([0.0, 0.0, -5.0], [0.0, 0.0, 1.0]),
                ray([0.0, 50.0, 0.0], [0.0, 1.0, 0.0]),
            ] {
                assert_eq!(channels(scene.trace(probe, depth)), [0.0, 0.0, 0.0, 1.0]);
            }
        }
    }
    let empty: Scene<Sphere, Sphere, Lamp, Ieee> = Scene::new(vec![], vec![], vec![], background(), 0, ieee());
    assert_eq!(channels(empty.trace(ray([0.0, 0.0, 0.0], [1.0, 0.0, 0.0]), 1)), [0.0, 0.0, 0.0, 1.0]);
}

#[test]
fn at_the_greatest_depth_the_scene_is_still_looked_at() {
    let scene = lit_scene(0);
    assert_eq!(channels(scene.trace(ray([0.0, 50.0, 0.0], [0.0, 1.0, 0.0]), 0)), [0.5, 0.25, 0.125, 1.0]);
    assert_eq!(channels(scene.trace(ray([0.0, 0.0, 5.0], [0.0, 0.0, 1.0]), 0)), [4.0, 2.0, 1.0, 1.0]);
}

#[test]
fn ray_that_hits_nothing_sees_the_background() {
    let scene = lit_scene(4);
    assert_eq!(channels(scene.get_color(ray([0.0, 50.0, 0.0], [0.0, 1.0, 0.0]))), [0.5, 0.25, 0.125, 1.0]);
}

#[test]
fn surface_that_does_not_scatter_sends_its_own_light() {
    let scene = lit_scene(4);
    assert_eq!(channels(scene.get_color(ray([0.0, 0.0, 5.0], [0.0, 0.0, 1.0]))), [4.0, 2.0, 1.0, 1.0]);
}

#[test]
fn scattered_light_is_weighed_by_the_density() {
    // The ray hits the painted sphere at (0, 0, 1). The mixture draws either
    // towards the lamp's centre or along the normal: both are (0, 0, 1). The
    // lamp gives that direction the density 0.75, the cosine distribution
    // 1 / pi. The bounced ray hits the lamp, which sends (4, 2, 1).
    let scene = lit_scene(1);
    let found = scene.get_color(ray([0.0, 0.0, 5.0], [0.0, 0.0, -1.0]));
    let density = 0.5 * 0.75 + 0.5 * (1.0 / std::f64::consts::PI);
    let k = 1.0 / density;
    assert_eq!(channels(found), [0.125 + (0.5 * 4.0) * k, 0.25 + (0.25 * 2.0) * k, 0.5 + (1.0 * 1.0) * k, 1.0]);
}

/// A light in one direction, with one density.
struct Beacon {
    direction: [f64; 3],
    density: f64,
}

impl<N: Arithmetic> Light<N> for Beacon {
    fn pdf_value(&self, _ray: Ray, _num: &N) -> Scalar {
        s(self.density)
    }

    fn random(&self, _origin: Vector3, _num: &N) -> Vector3 {
        v(self.direction[0], self.direction[1], self.direction[2])
    }
}

fn scene_with_lights(
    lights: Vec<Box<dyn Light<Ieee>>>,
) -> Scene<Box<dyn RenderObject<Ieee>>, Box<dyn Light<Ieee>>, Box<dyn Material<Ieee>>, Ieee> {
    let objects: Vec<Box<dyn RenderObject<Ieee>>> = vec![
        Box::new(Sphere { center: [0.0, 0.0, 0.0], radius: 1.0, material_id: 0 }),
        Box::new(Sphere { center: [0.0, 0.0, 10.0], radius: 1.0, material_id: 1 }),
    ];
    let materials: Vec<Box<dyn Material<Ieee>>> = vec![
        Box::new(Paint { glow: [0.125, 0.25, 0.5], share: [0.5, 0.25, 1.0] }),
        Box::new(Lamp { light: [4.0, 2.0, 1.0] }),
    ];
    Scene::new(objects, materials, lights, background(), 1, ieee())
}

#[test]
fn light_is_sampled_towards_the_first_light_only() {
    let dim = || Box::new(Beacon { direction: [0.0, 0.0, 1.0], density: 0.25 }) as Box<dyn Light<Ieee>>;
    let bright = || Box::new(Beacon { direction: [0.0, 0.0, 1.0], density: 4.0 }) as Box<dyn Light<Ieee>>;
    let probe = ray([0.0, 0.0, 5.0], [0.0, 0.0, -1.0]);
    let expected = |light: f64| {
        let k = 1.0 / (0.5 * light + 0.5 * (1.0 / std::f64::consts::PI));
        [0.125 + 2.0 * k, 0.25 + 0.5 * k, 0.5 + 1.0 * k, 1.0]
    };
    assert_eq!(channels(scene_with_lights(vec![dim(), bright()]).get_color(probe)), expected(0.25));
    assert_eq!(channels(scene_with_lights(vec![bright(), dim()]).get_color(probe)), expected(4.0));
    assert_eq!(channels(scene_with_lights(vec![dim()]).get_color(probe)), expected(0.25));
}

#[test]
fn light_from_beyond_the_greatest_depth_is_left_out() {
    let scene = lit_scene(0);
    let found = scene.get_color(ray([0.0, 0.0, 5.0], [0.0, 0.0, -1.0]));
    assert_eq!(channels(found), [0.125, 0.25, 0.5, 1.0]);
}

#[test]
fn a_direction_of_density_zero_sends_the_emitted_light_alone() {
    let objects = vec![
        Sphere { center: [0.0, 0.0, 0.0], radius: 1.0, material_id: 0 },
        Sphere { center: [0.0, 0.0, 10.0], radius: 1.0, material_id: 1 },
    ];
    let materials: Vec<Box<dyn Material<Void>>> = vec![
        Box::new(Paint { glow: [0.125, 0.25, 0.5], share: [0.5, 0.25, 1.0] }),
        Box::new(Lamp { light: [4.0, 2.0, 1.0] }),
    ];
    let lights = vec![Sphere { center: [0.0, 0.0, 10.0], radius: 1.0, material_id: 1 }];
    // where every product is zero, so is the mean of the two densities
    let scene = Scene::new(objects, materials, lights, background(), 3, Void);
    let found = scene.get_color(ray([0.0, 0.0, 5.0], [0.0, 0.0, -1.0]));
    assert_eq!(channels(found), [0.125, 0.25, 0.5, 1.0]);
}

#[test]
fn render_of_a_scene_without_objects_is_the_background_everywhere() {
    let scene: Scene<Sphere, Sphere, Lamp, Ieee> = Scene::new(vec![], vec![], vec![], background(), 3, ieee());
    let renderer = Renderer::new(scene, Straight);
    let image = renderer.render(5, 3);
    assert_eq!(image.width(), 5);
    assert_eq!(image.height(), 3);
    let expected = background().to_bytes(&ieee());
    assert_eq!(expected, 0xb480_5aff);
    assert!(image.pixels().iter().all(|&p| p == expected));
}

/// A glowing sphere before the background.
fn glowing_scene() -> Scene<Sphere, Sphere, Lamp, Ieee> {
    let objects = vec![Sphere { center: [0.0, 0.0, 0.0], radius: 1.0, material_id: 0 }];
    Scene::new(objects, vec![Lamp { light: [0.25, 0.0625, 1.0] }], vec![], background(), 1, ieee())
}

#[test]
fn render_pass_takes_the_average_of_the_samples() {
    let renderer = Renderer::new(glowing_scene(), Straight);
    for count in [1usize, 3, 4] {
        let image = renderer.render_pass(3, 3, count);
        // the pixel at (0, 0) looks at the sphere from z = -10, the one at
        // (2, 2) past it at the background
        let lit = {
            let mut sum = color(0.0, 0.0, 0.0, 1.0);
            for _ in 0..count {
                sum = sum.plus(&renderer.scene.get_color(ray([0.0, 0.0, -10.0], [0.0, 0.0, 1.0])), &ieee());
            }
            average(&ieee(), &sum, count).to_bytes(&ieee())
        };
        assert_eq!(lit, 0x8040_ffff);
        assert_eq!(image.get_bytes(0, 0), lit);
        assert_eq!(image.get_bytes(2, 2), 0xb480_5aff);
    }
}

#[test]
fn render_pass_without_samples_divides_nothing_by_zero() {
    let renderer = Renderer::new(glowing_scene(), Straight);
    let image = renderer.render_pass(2, 2, 0);
    // (0, 0, 0, 1) * (1 / 0): the colours are no numbers, which this
    // arithmetic clamps to 255, and the alpha is 1
    assert!(image.pixels().iter().all(|&p| p == 0xffff_ffff));
}

#[test]
fn render_is_the_mean_of_the_passes() {
    assert_eq!(SAMPLES, 16);
    assert_eq!(WORKERS, 4);
    let renderer = Renderer::new(glowing_scene(), Straight);
    let pass = renderer.render_pass(4, 2, SAMPLES / WORKERS);
    let image = renderer.render(4, 2);
    // nothing here is random: every pass gives the same image
    assert_eq!(image.pixels(), pass.pixels());
    assert_eq!(image.get_bytes(0, 0), 0x8040_ffff);
    assert_eq!(image.get_bytes(3, 1), 0xb480_5aff);
}

#[test]
fn render_of_a_lit_scene_has_the_size_asked_for() {
    let renderer = Renderer::new(lit_scene(2), Straight);
    let image = renderer.render(3, 2);
    assert_eq!(image.width(), 3);
    assert_eq!(image.height(), 2);
    assert_eq!(image.pixels().len(), 6);
    assert_eq!(image.get_bytes(2, 1), 0xb480_5aff);
}
