use vstd::prelude::*;
use crate::data_structures::color::Color;
use crate::data_structures::intersection_payload::IntersectionPayload;
use crate::data_structures::ray::Ray;
use crate::data_structures::scatter_payload::ScatterPayload;
use crate::maths::matrix_4x4::Matrix4x4;
use crate::maths::scalar::{Scalar, ONE_BITS, ZERO_BITS};
use crate::maths::vector3::Vector3;
use crate::samplers::cosine_sampler::CosineSampler;
use crate::samplers::mixture_sampler::MixtureSampler;
use crate::samplers::render_object_sampler::RenderObjectSampler;
use crate::shapes::bounding_volume_hierarchy::BVH;
use crate::shapes::nearest::{answers, lemma_yield_is_answer};
use crate::traits::arithmetic::Arithmetic;
use crate::traits::light::Light;
use crate::traits::material::Material;
use crate::traits::render_object::RenderObject;
use crate::traits::sampler::Sampler;

verus! {

/// Everything that a ray can meet, and how light is carried along it.
///
/// Light that would need more than `max_depth` bounces to arrive counts as
/// no light. Light is sampled towards the first of `lights` only.
pub struct Scene<P: RenderObject<N>, L: Light<N>, M: Material<N>, N: Arithmetic> {
    /// The tree over the objects; `None` where there is no object.
    pub bounding_volume_hierarchy: Option<BVH<P>>,
    pub materials: Vec<M>,
    pub lights: Vec<L>,
    pub background_color: Color,
    pub max_depth: usize,
    pub arithmetic: N,
}

/// No light: black, opaque.
pub open spec fn no_light() -> Color {
    Color(
        Scalar { bits: ZERO_BITS },
        Scalar { bits: ZERO_BITS },
        Scalar { bits: ZERO_BITS },
        Scalar { bits: ONE_BITS },
    )
}

/// `num` may compute `color` as `emitted + (transmitted * incoming) / density`.
pub open spec fn estimates<N: Arithmetic>(
    num: &N,
    emitted: Color,
    transmitted: Color,
    incoming: Color,
    density: Scalar,
    color: Color,
) -> bool {
    exists|carried: Color, weighed: Color|
        transmitted.multiplies_to(incoming, num, carried) && #[trigger] carried.divides_to(
            density,
            num,
            weighed,
        ) && emitted.sums_to(weighed, num, color)
}

/// One sample of the light that leaves a hit:
/// `emitted + (transmitted * incoming) / density`.
pub fn estimate<N: Arithmetic>(
    num: &N,
    emitted: Color,
    transmitted: Color,
    incoming: Color,
    density: Scalar,
) -> (color: Color)
    ensures
        estimates(num, emitted, transmitted, incoming, density, color),
{
    let carried = transmitted.times(&incoming, num);
    let weighed = carried.over(density, num);
    emitted.plus(&weighed, num)
}

impl<P: RenderObject<N>, L: Light<N>, M: Material<N>, N: Arithmetic> Scene<P, L, M, N> {
    /// The material that the hit names may scatter light that arrives
    /// along `incoming`.
    pub open spec fn may_scatter(&self, payload: IntersectionPayload, incoming: Vector3) -> bool {
        &&& payload.material_id < self.materials.len()
        &&& exists|scatter: Option<ScatterPayload<N>>| #[trigger]
            call_ensures(
                M::scatter,
                (&self.materials[payload.material_id as int], &payload, incoming, &self.arithmetic),
                scatter,
            ) && scatter is Some
    }

    /// Every hit that an object of the scene may answer a ray with names a
    /// material of the scene, and there is a light wherever that material
    /// may scatter the ray. A scene without objects is consistent.
    pub open spec fn consistent(&self) -> bool {
        match self.bounding_volume_hierarchy {
            Some(tree) => forall|i: int, ray: Ray, payload: IntersectionPayload|
                0 <= i < tree.primitives().len() && #[trigger] answers(
                    tree.primitives()[i],
                    ray,
                    &self.arithmetic,
                    Some(payload),
                ) ==> payload.material_id < self.materials.len() && (self.may_scatter(payload, ray.direction)
                    ==> self.lights.len() > 0),
            None => true,
        }
    }

    /// What the search for the nearest hit of `ray` may find.
    pub open spec fn finds(&self, ray: Ray, hit: Option<IntersectionPayload>) -> bool {
        match self.bounding_volume_hierarchy {
            Some(tree) => tree.yields(ray, &self.arithmetic, hit),
            None => hit is None,
        }
    }

    /// The material of the hit may emit `emitted` and scatter as `scatter`
    /// says, for light that arrives along `incoming`.
    pub open spec fn responds(
        &self,
        payload: IntersectionPayload,
        incoming: Vector3,
        emitted: Color,
        scatter: Option<ScatterPayload<N>>,
    ) -> bool {
        &&& payload.material_id < self.materials.len()
        &&& call_ensures(
            M::emmission,
            (&self.materials[payload.material_id as int], &payload, &self.arithmetic),
            emitted,
        )
        &&& call_ensures(
            M::scatter,
            (&self.materials[payload.material_id as int], &payload, incoming, &self.arithmetic),
            scatter,
        )
    }

    /// At the hit, the equal mixture of the first light's distribution and
    /// the cosine-weighted distribution round the normal may draw `outgoing`
    /// and give it `density`, and the material may transmit `transmitted`
    /// of the light from there.
    pub open spec fn bounces(
        &self,
        payload: IntersectionPayload,
        incoming: Vector3,
        outgoing: Vector3,
        density: Scalar,
        transmitted: Color,
    ) -> bool {
        &&& payload.material_id < self.materials.len()
        &&& self.lights.len() > 0
        &&& exists|frame: Matrix4x4| #[trigger]
            Matrix4x4::frames_round(payload.normal, &self.arithmetic, frame) && {
                let cosine = CosineSampler { normal: payload.normal, normal_basis: frame };
                let light = RenderObjectSampler { origin: payload.position, render_object: &self.lights[0] };
                let mixture = MixtureSampler { pdf_a: &light, pdf_b: &cosine };
                mixture.draws(&self.arithmetic, outgoing) && mixture.weighs(outgoing, &self.arithmetic, density)
            }
        &&& call_ensures(
            M::transmission,
            (&self.materials[payload.material_id as int], &payload, incoming, outgoing, &self.arithmetic),
            transmitted,
        )
    }

    /// The light that leaves a hit: the emitted light alone where the
    /// density is zero, and else `emitted + (transmitted * incoming) / density`.
    pub open spec fn combines(
        &self,
        emitted: Color,
        transmitted: Color,
        incoming: Color,
        density: Scalar,
        color: Color,
    ) -> bool {
        if density.same(Scalar { bits: ZERO_BITS }) {
            color == emitted
        } else {
            estimates(&self.arithmetic, emitted, transmitted, incoming, density, color)
        }
    }

    /// What `trace` may return for `ray` after `depth` bounces.
    ///
    /// Beyond `max_depth` there is no light. A ray that hits nothing sees
    /// the background. A hit on a material that does not scatter sends its
    /// emitted light. Any other hit sends its emitted light and its share of
    /// the light that arrives along one sampled direction, traced one
    /// bounce deeper.
    pub open spec fn traces(&self, ray: Ray, depth: int, color: Color) -> bool
        decreases self.max_depth + 1 - depth, 1int,
    {
        if depth > self.max_depth {
            color == no_light()
        } else {
            exists|hit: Option<IntersectionPayload>| #[trigger]
                self.finds(ray, hit) && match hit {
                    None => color == self.background_color,
                    Some(payload) => self.shades(ray, depth, payload, color),
                }
        }
    }

    /// What `trace` may return for a ray that has hit a surface.
    pub open spec fn shades(&self, ray: Ray, depth: int, payload: IntersectionPayload, color: Color) -> bool
        decreases self.max_depth + 1 - depth, 0int,
    {
        if depth > self.max_depth {
            false
        } else {
            exists|emitted: Color, scatter: Option<ScatterPayload<N>>| #[trigger]
                self.responds(payload, ray.direction, emitted, scatter) && match scatter {
                    None => color == emitted,
                    Some(_) => exists|outgoing: Vector3, density: Scalar, incoming: Color, transmitted: Color|
                        {
                            &&& #[trigger] self.bounces(payload, ray.direction, outgoing, density, transmitted)
                            &&& self.traces(Ray { origin: payload.position, direction: outgoing }, depth + 1, incoming)
                            &&& #[trigger] self.combines(emitted, transmitted, incoming, density, color)
                        },
                }
        }
    }

    /// A scene over `render_objects`, with the tree over them built.
    pub fn new(
        render_objects: Vec<P>,
        materials: Vec<M>,
        lights: Vec<L>,
        background_color: Color,
        max_depth: usize,
        arithmetic: N,
    ) -> (scene: Scene<P, L, M, N>)
        ensures
            scene.materials == materials,
            scene.lights == lights,
            scene.background_color == background_color,
            scene.max_depth == max_depth,
            scene.arithmetic == arithmetic,
            render_objects.len() == 0 <==> scene.bounding_volume_hierarchy is None,
            render_objects.len() == 0 ==> scene.consistent(),
            scene.bounding_volume_hierarchy matches Some(tree) ==> {
                &&& tree.well_formed(&scene.arithmetic)
                &&& tree.primitives().to_multiset() == render_objects@.to_multiset()
                &&& forall|i: int|
                    0 <= i < tree.primitives().len() ==> render_objects@.contains(#[trigger] tree.primitives()[i])
                &&& render_objects.len() == 1 ==> (tree matches BVH::Shape(object, volume) && object
                    == render_objects[0] && call_ensures(P::bounds, (&object, &scene.arithmetic), volume))
            },
    {
        let bounding_volume_hierarchy = if render_objects.len() == 0 {
            None
        } else {
            Some(BVH::new(render_objects, &arithmetic))
        };
        Scene { bounding_volume_hierarchy, materials, lights, background_color, max_depth, arithmetic }
    }

    /// The light that arrives against `ray`.
    pub fn get_color(&self, ray: Ray) -> (color: Color)
        requires
            self.consistent(),
        ensures
            self.traces(ray, 0, color),
    {
        self.trace(ray, 0)
    }

    /// The light that arrives against `ray` after `depth` bounces: one
    /// sample of it.
    pub fn trace(&self, ray: Ray, depth: usize) -> (color: Color)
        requires
            self.consistent(),
        ensures
            self.traces(ray, depth as int, color),
            depth > self.max_depth ==> color == no_light(),
            depth <= self.max_depth && self.bounding_volume_hierarchy is None ==> color
                == self.background_color,
        decreases self.max_depth + 1 - depth,
    {
        let black = Color(Scalar::zero(), Scalar::zero(), Scalar::zero(), Scalar::one());
        if depth > self.max_depth {
            return black;
        }
        let hit = match &self.bounding_volume_hierarchy {
            Some(tree) => tree.intersect(&ray, &self.arithmetic),
            None => None,
        };
        assert(self.finds(ray, hit));
        match hit {
            None => self.background_color,
            Some(payload) => {
                proof {
                    let tree = self.bounding_volume_hierarchy->0;
                    lemma_yield_is_answer(tree, ray, &self.arithmetic, payload);
                }
                let material = &self.materials[payload.material_id];
                let emitted = material.emmission(&payload, &self.arithmetic);
                let scatter = material.scatter(&payload, ray.direction, &self.arithmetic);
                assert(self.responds(payload, ray.direction, emitted, scatter));
                match scatter {
                    None => {
                        assert(self.shades(ray, depth as int, payload, emitted));
                        emitted
                    },
                    Some(_) => {
                        assert(self.may_scatter(payload, ray.direction));
                        let light = RenderObjectSampler::new(payload.position, &self.lights[0]);
                        let cosine = CosineSampler::new(payload.normal, &self.arithmetic);
                        let mixture = MixtureSampler::new(&light, &cosine);
                        let outgoing = mixture.generate(&self.arithmetic);
                        let density = mixture.value(outgoing, &self.arithmetic);
                        let next = Ray::new(payload.position, outgoing);
                        let incoming = if depth < self.max_depth {
                            self.trace(next, depth + 1)
                        } else {
                            black
                        };
                        let transmitted = material.transmission(&payload, ray.direction, outgoing, &self.arithmetic);
                        let color = if density.equals(Scalar::zero()) {
                            emitted
                        } else {
                            estimate(&self.arithmetic, emitted, transmitted, incoming, density)
                        };
                        assert(self.bounces(payload, ray.direction, outgoing, density, transmitted));
                        assert(self.traces(next, depth + 1, incoming));
                        assert(self.combines(emitted, transmitted, incoming, density, color));
                        assert(self.shades(ray, depth as int, payload, color));
                        color
                    },
                }
            },
        }
    }
}

/// Beyond the greatest depth there is no light, whatever the scene holds
/// and wherever the ray goes.
pub proof fn lemma_beyond_depth_is_dark<P: RenderObject<N>, L: Light<N>, M: Material<N>, N: Arithmetic>(
    scene: Scene<P, L, M, N>,
    ray: Ray,
    depth: int,
    color: Color,
)
    requires
        depth > scene.max_depth,
        scene.traces(ray, depth, color),
    ensures
        color == no_light(),
{
}

/// In a scene without objects every ray sees the background.
pub proof fn lemma_empty_scene_shows_background<P: RenderObject<N>, L: Light<N>, M: Material<N>, N: Arithmetic>(
    scene: Scene<P, L, M, N>,
    ray: Ray,
    depth: int,
    color: Color,
)
    requires
        scene.bounding_volume_hierarchy is None,
        depth <= scene.max_depth,
        scene.traces(ray, depth, color),
    ensures
        color == scene.background_color,
{
}

} // verus!
