//! What the scene is made of: shapes with a surface, and the search for the
//! one that a ray meets first.

pub mod geometry;
pub mod material;

pub use self::geometry::{Geometry, GeometryHit, Sphere};
pub use self::material::{Dielectric, Lambertian, Material, Metal, ScatteredRay};

use crate::entity::geometry::strictly_inside;
use crate::ray::Ray;
use crate::scalar::{lemma_order_transitive, Scalar};
use vstd::prelude::*;

verus! {

/// A thing in the scene: a shape and the surface it has.
pub struct Entity {
    /// Where a ray meets the thing.
    pub geometry: Box<dyn Geometry>,
    /// How the thing sends the ray on.
    pub material: Box<dyn Material>,
}

impl Entity {
    /// The thing of the given shape and surface.
    pub fn new(geometry: Box<dyn Geometry>, material: Box<dyn Material>) -> (entity: Entity)
        ensures
            entity == (Entity { geometry, material }),
    {
        Entity { geometry, material }
    }
}

/// What the shape of `entity` answers to `ray` in `t_range`: a meeting strictly
/// inside the range, or none.
pub open spec fn meeting(entity: Entity, ray: Ray, t_range: (Scalar, Scalar)) -> Option<
    GeometryHit,
> {
    match entity.geometry.hit_spec(ray, t_range) {
        Some(hit) => if strictly_inside(hit.t, t_range) {
            Some(hit)
        } else {
            None
        },
        None => None,
    }
}

/// The upper bound under which the next entity is searched: the parameter of
/// the best meeting so far, or the end of the range while there is none.
pub open spec fn search_bound(best: Option<(int, GeometryHit)>, t_range: (Scalar, Scalar))
    -> Scalar {
    match best {
        Some((_, hit)) => hit.t,
        None => t_range.1,
    }
}

/// The entity that `ray` meets first strictly inside `t_range`, by its place
/// in `entities`, and the meeting. The entities are asked in order, each
/// under the bound that the best meeting so far sets, so that a later entity
/// replaces an earlier one only by a meeting strictly nearer: of two at the
/// same parameter the first stays.
pub open spec fn nearest_hit_spec(entities: Seq<Entity>, ray: Ray, t_range: (Scalar, Scalar))
    -> Option<(int, GeometryHit)>
    decreases entities.len(),
{
    if entities.len() == 0 {
        None
    } else {
        let best = nearest_hit_spec(entities.drop_last(), ray, t_range);
        let bound = search_bound(best, t_range);
        match meeting(entities.last(), ray, (t_range.0, bound)) {
            Some(hit) => Some((entities.len() - 1, hit)),
            None => best,
        }
    }
}

/// Finds the entity that `ray` meets first strictly inside `t_range`.
pub fn nearest_hit(entities: &[Entity], ray: &Ray, t_range: (Scalar, Scalar)) -> (nearest: Option<
    (usize, GeometryHit),
>)
    ensures
        match nearest {
            Some((i, hit)) => nearest_hit_spec(entities@, *ray, t_range) == Some((i as int, hit)),
            None => nearest_hit_spec(entities@, *ray, t_range).is_none(),
        },
        nearest matches Some((i, hit)) ==> i < entities.len() && strictly_inside(hit.t, t_range),
{
    let mut best: Option<(usize, GeometryHit)> = None;
    let mut max_t = t_range.1;
    let mut i: usize = 0;
    proof {
        assert(entities@.take(0) =~= Seq::<Entity>::empty());
    }
    while i < entities.len()
        invariant
            i <= entities.len(),
            match best {
                Some((k, hit)) => nearest_hit_spec(entities@.take(i as int), *ray, t_range)
                    == Some((k as int, hit)),
                None => nearest_hit_spec(entities@.take(i as int), *ray, t_range).is_none(),
            },
            max_t == search_bound(
                nearest_hit_spec(entities@.take(i as int), *ray, t_range),
                t_range,
            ),
            best matches Some((k, hit)) ==> k < i && strictly_inside(hit.t, t_range),
        decreases entities.len() - i,
    {
        proof {
            let next = entities@.take(i + 1);
            assert(next.drop_last() =~= entities@.take(i as int));
            assert(next.last() == entities@[i as int]);
        }
        match entities[i].geometry.hit(ray, (t_range.0, max_t)) {
            Some(hit) => {
                proof {
                    lemma_order_transitive(hit.t, max_t, t_range.1);
                }
                max_t = hit.t;
                best = Some((i, hit));
            },
            None => {},
        }
        i += 1;
    }
    proof {
        assert(entities@.take(i as int) =~= entities@);
    }
    best
}

/// Sends `ray` on from the entity that it meets first strictly inside
/// `t_range`, if it meets one: the result is what that entity's surface sends
/// on for this ray and this meeting. The new ray starts at the meeting, and
/// the decay is that of the entity's surface.
pub fn scattering(entities: &[Entity], ray: &Ray, t_range: (Scalar, Scalar)) -> (scattered: Option<
    ScatteredRay,
>)
    ensures
        match nearest_hit_spec(entities@, *ray, t_range) {
            Some((i, hit)) => scattered matches Some(s) && entities@[i].material.sends(
                *ray,
                hit,
                s,
            ) && s.ray.origin == hit.point && s.decay == entities@[i].material.decay(),
            None => scattered.is_none(),
        },
{
    match nearest_hit(entities, ray, t_range) {
        Some((i, hit)) => Some(entities[i].material.scatter(ray, &hit)),
        None => None,
    }
}

/// The search finds nothing exactly where no entity has a meeting strictly
/// inside the range. In particular it finds nothing in an empty scene.
pub proof fn lemma_nearest_hit_none(entities: Seq<Entity>, ray: Ray, t_range: (Scalar, Scalar))
    ensures
        nearest_hit_spec(entities, ray, t_range).is_none() <==> forall|j: int|
            0 <= j < entities.len() ==> (#[trigger] meeting(entities[j], ray, t_range)).is_none(),
    decreases entities.len(),
{
    if entities.len() > 0 {
        let front = entities.drop_last();
        lemma_nearest_hit_none(front, ray, t_range);
        assert forall|j: int| 0 <= j < front.len() implies front[j] == entities[j] by {}
        if nearest_hit_spec(entities, ray, t_range).is_none() {
            assert(nearest_hit_spec(front, ray, t_range).is_none());
            assert forall|j: int| 0 <= j < entities.len() implies (#[trigger] meeting(
                entities[j],
                ray,
                t_range,
            )).is_none() by {
                if j < front.len() {
                    assert(meeting(front[j], ray, t_range).is_none());
                }
            }
        }
        if forall|j: int|
            0 <= j < entities.len() ==> (#[trigger] meeting(entities[j], ray, t_range)).is_none() {
            assert forall|j: int| 0 <= j < front.len() implies (#[trigger] meeting(
                front[j],
                ray,
                t_range,
            )).is_none() by {
                assert(meeting(entities[j], ray, t_range).is_none());
            }
            assert(meeting(entities[entities.len() - 1], ray, t_range).is_none());
        }
    }
}

/// What the search finds is a meeting of the entity it names, strictly inside
/// the range, under the bound that the entities before it had set; and no
/// entity after that one has a meeting strictly nearer.
pub proof fn lemma_nearest_hit_some(entities: Seq<Entity>, ray: Ray, t_range: (Scalar, Scalar))
    ensures
        nearest_hit_spec(entities, ray, t_range) matches Some((i, hit)) ==> {
            &&& 0 <= i < entities.len()
            &&& strictly_inside(hit.t, t_range)
            &&& meeting(
                entities[i],
                ray,
                (
                    t_range.0,
                    search_bound(nearest_hit_spec(entities.take(i), ray, t_range), t_range),
                ),
            ) == Some(hit)
            &&& forall|j: int|
                i < j < entities.len() ==> (#[trigger] meeting(
                    entities[j],
                    ray,
                    (t_range.0, hit.t),
                )).is_none()
        },
    decreases entities.len(),
{
    if entities.len() > 0 {
        let front = entities.drop_last();
        let best = nearest_hit_spec(front, ray, t_range);
        let bound = search_bound(best, t_range);
        lemma_nearest_hit_some(front, ray, t_range);
        assert forall|j: int| 0 <= j < front.len() implies front[j] == entities[j] by {}
        match meeting(entities.last(), ray, (t_range.0, bound)) {
            Some(hit) => {
                assert(entities.take(entities.len() - 1) =~= front);
                if best.is_some() {
                    lemma_order_transitive(hit.t, bound, t_range.1);
                }
            },
            None => {
                if let Some((i, hit)) = best {
                    assert(entities.take(i) =~= front.take(i));
                    assert forall|j: int| i < j < entities.len() implies (#[trigger] meeting(
                        entities[j],
                        ray,
                        (t_range.0, hit.t),
                    )).is_none() by {
                        if j < front.len() {
                            assert(meeting(front[j], ray, (t_range.0, hit.t)).is_none());
                        }
                    }
                }
            },
        }
    }
}

/// The bound only shrinks: once a meeting is found, whatever the search holds
/// after asking more entities is that meeting or one strictly nearer.
pub proof fn lemma_search_bound_shrinks(
    entities: Seq<Entity>,
    ray: Ray,
    t_range: (Scalar, Scalar),
    m: int,
)
    requires
        0 <= m <= entities.len(),
    ensures
        nearest_hit_spec(entities.take(m), ray, t_range) matches Some((k, earlier)) ==> (
        nearest_hit_spec(entities, ray, t_range) matches Some((i, hit)) && (hit.t.lt_spec(earlier.t)
            || (i, hit) == (k, earlier))),
    decreases entities.len(),
{
    if m == entities.len() {
        assert(entities.take(m) =~= entities);
    } else {
        let front = entities.drop_last();
        assert(front.take(m) =~= entities.take(m));
        lemma_search_bound_shrinks(front, ray, t_range, m);
        if let Some((k, earlier)) = nearest_hit_spec(entities.take(m), ray, t_range) {
            let best = nearest_hit_spec(front, ray, t_range);
            let bound = search_bound(best, t_range);
            if let Some(hit) = meeting(entities.last(), ray, (t_range.0, bound)) {
                lemma_order_transitive(hit.t, bound, earlier.t);
            }
        }
    }
}

/// What is left of a shape's answer under a nearer upper bound: the same
/// meeting where it lies under the bound, and none otherwise.
pub open spec fn under_bound(full: Option<GeometryHit>, bound: Scalar) -> Option<GeometryHit> {
    match full {
        Some(hit) => if hit.t.lt_spec(bound) {
            Some(hit)
        } else {
            None
        },
        None => None,
    }
}

/// Whether the shape of `entity` answers alike under every upper bound: asked
/// under a bound nearer than the end of `t_range`, it gives the meeting that
/// it gives in the whole range where that lies under the bound, and none
/// otherwise. A surface that is met at its nearest point in range, as a
/// sphere is, answers so.
pub open spec fn answers_alike(entity: Entity, ray: Ray, t_range: (Scalar, Scalar)) -> bool {
    forall|bound: Scalar|
        bound.le_spec(t_range.1) ==> #[trigger] meeting(entity, ray, (t_range.0, bound))
            == under_bound(meeting(entity, ray, t_range), bound)
}

/// Among shapes that answer alike under every bound, the search finds the
/// meeting with the smallest parameter of all: it is the named entity's
/// meeting in the whole range, no entity has a meeting nearer, and every
/// entity before the named one has its meeting strictly farther, so that of
/// two at the same parameter the first is found.
pub proof fn lemma_nearest_hit_is_smallest(
    entities: Seq<Entity>,
    ray: Ray,
    t_range: (Scalar, Scalar),
)
    requires
        forall|j: int|
            0 <= j < entities.len() ==> #[trigger] answers_alike(entities[j], ray, t_range),
    ensures
        nearest_hit_spec(entities, ray, t_range) matches Some((i, hit)) ==> {
            &&& 0 <= i < entities.len()
            &&& meeting(entities[i], ray, t_range) == Some(hit)
            &&& forall|j: int|
                0 <= j < entities.len() ==> (#[trigger] meeting(
                    entities[j],
                    ray,
                    t_range,
                ) matches Some(other) ==> hit.t.le_spec(other.t) && (j < i ==> hit.t.lt_spec(
                    other.t,
                )))
        },
    decreases entities.len(),
{
    if entities.len() > 0 {
        let front = entities.drop_last();
        let end = entities.len() - 1;
        let best = nearest_hit_spec(front, ray, t_range);
        let bound = search_bound(best, t_range);
        assert forall|j: int| 0 <= j < front.len() implies #[trigger] answers_alike(
            front[j],
            ray,
            t_range,
        ) by {
            assert(front[j] == entities[j]);
        }
        lemma_nearest_hit_is_smallest(front, ray, t_range);
        lemma_nearest_hit_some(front, ray, t_range);
        lemma_nearest_hit_none(front, ray, t_range);
        let full = meeting(entities[end], ray, t_range);
        let narrow = meeting(entities[end], ray, (t_range.0, bound));
        match best {
            None => {
                assert((t_range.0, bound) == t_range);
                if let Some(hit) = full {
                    assert forall|j: int| 0 <= j < entities.len() implies (#[trigger] meeting(
                        entities[j],
                        ray,
                        t_range,
                    ) matches Some(other) ==> hit.t.le_spec(other.t) && (j < end ==> hit.t.lt_spec(
                        other.t,
                    ))) by {
                        if j < end {
                            assert(meeting(front[j], ray, t_range).is_none());
                        }
                    }
                }
            },
            Some((first, nearest)) => {
                assert(answers_alike(entities[end], ray, t_range));
                assert(narrow == under_bound(full, nearest.t));
                match narrow {
                    Some(hit) => {
                        assert forall|j: int| 0 <= j < entities.len() implies (
                        #[trigger] meeting(entities[j], ray, t_range) matches Some(other)
                            ==> hit.t.le_spec(other.t) && (j < end ==> hit.t.lt_spec(other.t))) by {
                            if j < end {
                                if let Some(other) = meeting(front[j], ray, t_range) {
                                    lemma_order_transitive(hit.t, nearest.t, other.t);
                                }
                            }
                        }
                    },
                    None => {
                        assert(front[first] == entities[first]);
                        assert forall|j: int| 0 <= j < entities.len() implies (
                        #[trigger] meeting(entities[j], ray, t_range) matches Some(other)
                            ==> nearest.t.le_spec(other.t) && (j < first ==> nearest.t.lt_spec(
                            other.t,
                        ))) by {
                            if j < end {
                                assert(front[j] == entities[j]);
                            }
                        }
                    },
                }
            },
        }
    }
}

/// The order of the entities does not matter but for ties. Two scenes of the
/// same entities, in whatever order, whose shapes answer alike under every
/// bound, give a meeting at the same parameter, or none both; and where one
/// entity's meeting is strictly nearer than every other, both give that
/// meeting.
pub proof fn lemma_nearest_hit_whatever_the_order(
    one: Seq<Entity>,
    other: Seq<Entity>,
    ray: Ray,
    t_range: (Scalar, Scalar),
)
    requires
        forall|j: int| 0 <= j < one.len() ==> #[trigger] answers_alike(one[j], ray, t_range),
        forall|j: int| 0 <= j < one.len() ==> other.contains(#[trigger] one[j]),
        forall|j: int| 0 <= j < other.len() ==> one.contains(#[trigger] other[j]),
    ensures
        nearest_hit_spec(one, ray, t_range).is_none() <==> nearest_hit_spec(
            other,
            ray,
            t_range,
        ).is_none(),
        nearest_hit_spec(one, ray, t_range) matches Some((i, here)) ==> (nearest_hit_spec(
            other,
            ray,
            t_range,
        ) matches Some((k, there)) && here.t.le_spec(there.t) && there.t.le_spec(here.t) && ((
        forall|j: int|
            0 <= j < one.len() && j != i ==> (#[trigger] meeting(one[j], ray, t_range) matches Some(
                farther,
            ) ==> here.t.lt_spec(farther.t))) ==> there == here)),
{
    assert forall|j: int| 0 <= j < other.len() implies #[trigger] answers_alike(
        other[j],
        ray,
        t_range,
    ) by {
        let k = choose|k: int| 0 <= k < one.len() && one[k] == other[j];
        assert(answers_alike(one[k], ray, t_range));
    }
    lemma_nearest_hit_none(one, ray, t_range);
    lemma_nearest_hit_none(other, ray, t_range);
    lemma_nearest_hit_is_smallest(one, ray, t_range);
    lemma_nearest_hit_is_smallest(other, ray, t_range);
    if nearest_hit_spec(one, ray, t_range).is_none() {
        assert forall|j: int| 0 <= j < other.len() implies (#[trigger] meeting(
            other[j],
            ray,
            t_range,
        )).is_none() by {
            let k = choose|k: int| 0 <= k < one.len() && one[k] == other[j];
            assert(meeting(one[k], ray, t_range).is_none());
        }
    }
    if nearest_hit_spec(other, ray, t_range).is_none() {
        assert forall|j: int| 0 <= j < one.len() implies (#[trigger] meeting(
            one[j],
            ray,
            t_range,
        )).is_none() by {
            let k = choose|k: int| 0 <= k < other.len() && other[k] == one[j];
            assert(meeting(other[k], ray, t_range).is_none());
        }
    }
    if let Some((i, here)) = nearest_hit_spec(one, ray, t_range) {
        if let Some((k, there)) = nearest_hit_spec(other, ray, t_range) {
            let back = choose|back: int| 0 <= back < one.len() && one[back] == other[k];
            let forth = choose|forth: int| 0 <= forth < other.len() && other[forth] == one[i];
            assert(meeting(one[back], ray, t_range) == Some(there));
            assert(meeting(other[forth], ray, t_range) == Some(here));
        }
    }
}

} // verus!
