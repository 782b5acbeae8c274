//! What a ray can hit: the intersection protocol and the record of a hit.
use crate::material::Surface;
use crate::ray::Ray;
use crate::scalar::Scalar;
use crate::vec3::Vec3;
use vstd::prelude::*;

verus! {

/// An intersection of a ray with a surface: the ray parameter `t`, the point
/// `p` at that parameter, the outward surface normal there, and the material
/// of the surface that was hit.
#[derive(Clone, Copy, PartialEq, Eq, Structural, Debug)]
pub struct HitRecord {
    pub t: Scalar,
    pub p: Vec3,
    pub normal: Vec3,
    pub material: Surface,
}

/// The hit `rec` if its parameter lies strictly below `bound`, none otherwise.
pub open spec fn below(rec: Option<HitRecord>, bound: Scalar) -> Option<HitRecord> {
    match rec {
        Some(h) if h.t.raw < bound.raw => Some(h),
        _ => None,
    }
}

/// Something that a ray can intersect within an open parameter interval.
pub trait Hitable {
    /// The intersection that `hit` reports, if any.
    spec fn hit_spec(&self, r: Ray, t_min: Scalar, t_max: Scalar) -> Option<HitRecord>;

    /// A reported hit lies strictly inside the interval, at the point of the
    /// ray that its parameter gives.
    proof fn lemma_hit_on_ray(&self, r: Ray, t_min: Scalar, t_max: Scalar)
        ensures
            self.hit_spec(r, t_min, t_max) matches Some(h) ==> {
                &&& t_min.raw < h.t.raw < t_max.raw
                &&& h.p == r.point_at(h.t)
            },
    ;

    /// Lowering the upper end of the interval keeps a hit that still lies
    /// inside and reports none otherwise.
    proof fn lemma_hit_narrowed(&self, r: Ray, t_min: Scalar, bound: Scalar, t_max: Scalar)
        requires
            bound.raw <= t_max.raw,
        ensures
            self.hit_spec(r, t_min, bound) == below(self.hit_spec(r, t_min, t_max), bound),
    ;

    /// Intersects the ray with the object, for parameters strictly between
    /// `t_min` and `t_max`.
    fn hit(&self, r: Ray, t_min: Scalar, t_max: Scalar) -> (rec: Option<HitRecord>)
        ensures
            rec == self.hit_spec(r, t_min, t_max),
    ;
}

/// The nearer of two optional hits; the first one where both are equally far.
pub open spec fn nearer(first: Option<HitRecord>, second: Option<HitRecord>) -> Option<HitRecord> {
    match (first, second) {
        (Some(h), Some(g)) => if g.t.raw < h.t.raw {
            Some(g)
        } else {
            Some(h)
        },
        (Some(h), None) => Some(h),
        (None, _) => second,
    }
}

/// The nearest of the hits that the objects of `list` report when each is
/// asked on its own for the whole interval; among equally near hits, that of
/// the object that comes first.
pub open spec fn nearest<H: Hitable>(list: Seq<H>, r: Ray, t_min: Scalar, t_max: Scalar) -> Option<
    HitRecord,
>
    decreases list.len(),
{
    if list.len() == 0 {
        None
    } else {
        nearer(
            nearest(list.drop_last(), r, t_min, t_max),
            list.last().hit_spec(r, t_min, t_max),
        )
    }
}

/// The nearest hit of a list is the hit of one of its objects, and no object
/// of the list reports a nearer one; it is none exactly when no object is hit.
pub proof fn lemma_nearest_is_minimum<H: Hitable>(
    list: Seq<H>,
    r: Ray,
    t_min: Scalar,
    t_max: Scalar,
)
    ensures
        match nearest(list, r, t_min, t_max) {
            Some(h) => {
                &&& exists|i: int|
                    0 <= i < list.len() && #[trigger] list[i].hit_spec(r, t_min, t_max) == Some(h)
                &&& forall|j: int|
                    0 <= j < list.len() ==> (#[trigger] list[j].hit_spec(r, t_min, t_max) matches Some(
                        g,
                    ) ==> h.t.raw <= g.t.raw)
            },
            None => forall|j: int|
                0 <= j < list.len() ==> #[trigger] list[j].hit_spec(r, t_min, t_max) is None,
        },
    decreases list.len(),
{
    if list.len() > 0 {
        let init = list.drop_last();
        lemma_nearest_is_minimum(init, r, t_min, t_max);
        assert forall|j: int| 0 <= j < init.len() implies init[j] == list[j] by {}
        let before = nearest(init, r, t_min, t_max);
        let cur = list.last().hit_spec(r, t_min, t_max);
        let last = list.len() - 1;
        assert(list[last] == list.last());
        match nearest(list, r, t_min, t_max) {
            Some(h) => {
                if before == Some(h) {
                    let i = choose|i: int|
                        0 <= i < init.len() && #[trigger] init[i].hit_spec(r, t_min, t_max) == Some(
                            h,
                        );
                    assert(list[i].hit_spec(r, t_min, t_max) == Some(h));
                } else {
                    assert(list[last].hit_spec(r, t_min, t_max) == Some(h));
                }
                assert forall|j: int| 0 <= j < list.len() implies (#[trigger] list[j].hit_spec(
                    r,
                    t_min,
                    t_max,
                ) matches Some(g) ==> h.t.raw <= g.t.raw) by {
                    if j < last {
                        assert(init[j].hit_spec(r, t_min, t_max) == list[j].hit_spec(
                            r,
                            t_min,
                            t_max,
                        ));
                    }
                }
            },
            None => {
                assert forall|j: int| 0 <= j < list.len() implies #[trigger] list[j].hit_spec(
                    r,
                    t_min,
                    t_max,
                ) is None by {
                    if j < last {
                        assert(init[j].hit_spec(r, t_min, t_max) is None);
                    }
                }
            },
        }
    }
}

/// Two lists that hold the same objects, in whatever order and number, are
/// hit or missed together, and their nearest hits are equally far.
pub proof fn lemma_nearest_ignores_order<H: Hitable>(
    first: Seq<H>,
    second: Seq<H>,
    r: Ray,
    t_min: Scalar,
    t_max: Scalar,
)
    requires
        forall|i: int| 0 <= i < first.len() ==> second.contains(#[trigger] first[i]),
        forall|j: int| 0 <= j < second.len() ==> first.contains(#[trigger] second[j]),
    ensures
        nearest(first, r, t_min, t_max) is Some <==> nearest(second, r, t_min, t_max) is Some,
        nearest(first, r, t_min, t_max) is Some ==> nearest(first, r, t_min, t_max)->0.t
            == nearest(second, r, t_min, t_max)->0.t,
{
    lemma_nearest_is_minimum(first, r, t_min, t_max);
    lemma_nearest_is_minimum(second, r, t_min, t_max);
    if let Some(h) = nearest(first, r, t_min, t_max) {
        let i = choose|i: int|
            0 <= i < first.len() && #[trigger] first[i].hit_spec(r, t_min, t_max) == Some(h);
        assert(second.contains(first[i]));
        let j = choose|j: int| 0 <= j < second.len() && second[j] == first[i];
        assert(second[j].hit_spec(r, t_min, t_max) == Some(h));
    }
    if let Some(g) = nearest(second, r, t_min, t_max) {
        let j = choose|j: int|
            0 <= j < second.len() && #[trigger] second[j].hit_spec(r, t_min, t_max) == Some(g);
        assert(first.contains(second[j]));
        let i = choose|i: int| 0 <= i < first.len() && first[i] == second[j];
        assert(first[i].hit_spec(r, t_min, t_max) == Some(g));
    }
}

/// The nearest hit of a list lies strictly inside the interval, at the point
/// of the ray that its parameter gives.
pub proof fn lemma_nearest_on_ray<H: Hitable>(list: Seq<H>, r: Ray, t_min: Scalar, t_max: Scalar)
    ensures
        nearest(list, r, t_min, t_max) matches Some(h) ==> {
            &&& t_min.raw < h.t.raw < t_max.raw
            &&& h.p == r.point_at(h.t)
        },
    decreases list.len(),
{
    if list.len() > 0 {
        lemma_nearest_on_ray(list.drop_last(), r, t_min, t_max);
        list.last().lemma_hit_on_ray(r, t_min, t_max);
    }
}

/// Lowering the upper end of the interval keeps the nearest hit of a list if
/// it still lies inside, and leaves none otherwise.
pub proof fn lemma_nearest_narrowed<H: Hitable>(
    list: Seq<H>,
    r: Ray,
    t_min: Scalar,
    bound: Scalar,
    t_max: Scalar,
)
    requires
        bound.raw <= t_max.raw,
    ensures
        nearest(list, r, t_min, bound) == below(nearest(list, r, t_min, t_max), bound),
    decreases list.len(),
{
    if list.len() > 0 {
        lemma_nearest_narrowed(list.drop_last(), r, t_min, bound, t_max);
        list.last().lemma_hit_narrowed(r, t_min, bound, t_max);
    }
}

/// A scene: objects of one kind, each hit or missed on its own.
pub struct HitableList<H: Hitable> {
    pub list: Vec<H>,
}

impl<H: Hitable> Hitable for HitableList<H> {
    /// The nearest of the hits of the list's objects.
    open spec fn hit_spec(&self, r: Ray, t_min: Scalar, t_max: Scalar) -> Option<HitRecord> {
        nearest(self.list@, r, t_min, t_max)
    }

    proof fn lemma_hit_on_ray(&self, r: Ray, t_min: Scalar, t_max: Scalar) {
        lemma_nearest_on_ray(self.list@, r, t_min, t_max);
    }

    proof fn lemma_hit_narrowed(&self, r: Ray, t_min: Scalar, bound: Scalar, t_max: Scalar) {
        lemma_nearest_narrowed(self.list@, r, t_min, bound, t_max);
    }

    /// Scans the list once, asking each object only for hits nearer than the
    /// nearest found so far.
    fn hit(&self, r: Ray, t_min: Scalar, t_max: Scalar) -> (rec: Option<HitRecord>) {
        let mut rec: Option<HitRecord> = None;
        let mut closest_so_far = t_max;
        let mut i: usize = 0;
        while i < self.list.len()
            invariant
                i <= self.list.len(),
                rec == nearest(self.list@.take(i as int), r, t_min, t_max),
                closest_so_far == (match rec {
                    Some(h) => h.t,
                    None => t_max,
                }),
            decreases self.list.len() - i,
        {
            proof {
                lemma_nearest_on_ray(self.list@.take(i as int), r, t_min, t_max);
                self.list@[i as int].lemma_hit_narrowed(r, t_min, closest_so_far, t_max);
                self.list@[i as int].lemma_hit_on_ray(r, t_min, t_max);
                assert(self.list@.take(i + 1).drop_last() == self.list@.take(i as int));
            }
            let cur = self.list[i].hit(r, t_min, closest_so_far);
            if let Some(h) = cur {
                closest_so_far = h.t;
                rec = cur;
            }
            i = i + 1;
        }
        assert(self.list@.take(i as int) == self.list@);
        rec
    }
}

} // verus!
