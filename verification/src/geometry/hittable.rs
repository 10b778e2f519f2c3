//! The intersection query, and the scene that answers it for many shapes.
use crate::interval::Interval;
use crate::material::Material;
use crate::ray::Ray;
use crate::scalar::Scalar;
use crate::vec3::{Point3, Vector3};
use std::sync::Arc;
use vstd::prelude::*;

verus! {

/// How far the length of a normal may lie from one: the binary64 value
/// written `0.005`.
pub const UNIT_TOLERANCE_BITS: u64 = 0x3F74_7AE1_47AE_147B;

/// What `set_face_normal` answers for a normal that is not of unit length.
pub const NOT_UNIT: &'static str = "outword normal is not a unit vector";

/// Where a ray met a surface of material `M`.
pub struct HitRecord<M> {
    /// The point of the surface.
    pub p: Point3,
    /// The unit normal there, turned against the arriving ray.
    pub normal: Vector3,
    /// The ray parameter of the point.
    pub t: Scalar,
    /// Whether the ray arrived from outside the surface.
    pub front_face: bool,
    /// The surface's material.
    pub mat: Option<Arc<M>>,
}

impl<M> HitRecord<M> {
    /// A record at the zero point with parameter zero, facing front, with
    /// no material.
    pub fn new() -> (r: HitRecord<M>)
        ensures
            r.p.x.bits == 0 && r.p.y.bits == 0 && r.p.z.bits == 0,
            r.normal.x.bits == 0 && r.normal.y.bits == 0 && r.normal.z.bits == 0,
            r.t.bits == 0,
            r.front_face,
            r.mat is None,
    {
        HitRecord {
            p: Point3::new_default(),
            normal: Vector3::new_default(),
            t: Scalar::zero(),
            front_face: true,
            mat: None,
        }
    }

    /// Whether a normal whose length differs from one by `unit_error` is
    /// refused: the error exceeds `0.005`.
    pub open spec fn refuses(unit_error: Scalar) -> bool {
        unit_error.gt_spec(Scalar { bits: UNIT_TOLERANCE_BITS })
    }

    /// Whether a ray whose direction has the dot product `facing` with the
    /// outward normal arrives from outside: the product is negative.
    pub open spec fn arrives_outside(facing: Scalar) -> bool {
        facing.lt_spec(Scalar { bits: 0 })
    }

    /// Records on which side the ray arrived, and stores the normal turned
    /// against it.
    ///
    /// `unit_error` is `| |outward_normal| - 1 |` and `facing` is the dot
    /// product of the ray's direction with `outward_normal`; the caller
    /// computes both. A normal off unit length by more than `0.005` is
    /// refused and the record stays as it was.
    pub fn set_face_normal(
        &mut self,
        outward_normal: &Vector3,
        unit_error: Scalar,
        facing: Scalar,
    ) -> (r: Result<(), &'static str>)
        ensures
            r is Err <==> HitRecord::<M>::refuses(unit_error),
            r is Err ==> r == Err::<(), &'static str>(NOT_UNIT) && *final(self) == *old(self),
            r is Ok ==> final(self).front_face == HitRecord::<M>::arrives_outside(facing),
            r is Ok ==> final(self).normal == (if HitRecord::<M>::arrives_outside(facing) {
                *outward_normal
            } else {
                outward_normal.neg_spec()
            }),
            r is Ok ==> final(self).p == old(self).p && final(self).t == old(self).t
                && final(self).mat == old(self).mat,
    {
        if unit_error.gt(Scalar::from_bits(UNIT_TOLERANCE_BITS)) {
            return Err(NOT_UNIT);
        }
        self.front_face = facing.lt(Scalar::zero());
        self.normal = if self.front_face {
            *outward_normal
        } else {
            outward_normal.neg()
        };
        Ok(())
    }

    /// Attaches the material of the surface that was met.
    pub fn set_material(&mut self, mat: &Arc<M>)
        ensures
            final(self).mat == Some(*mat),
            final(self).p == old(self).p,
            final(self).normal == old(self).normal,
            final(self).t == old(self).t,
            final(self).front_face == old(self).front_face,
    {
        self.mat = Some(Arc::clone(mat));
    }
}

/// A shape that a ray can meet. `hit` answers for the part of the ray whose
/// parameter lies strictly inside `ray_t`; `None` says that the ray misses
/// the shape there. An answer carries a parameter inside that range.
pub trait Hittable: Sync + Send {
    /// The material of the shape's surface.
    type Mat: Material;

    /// Whether the shape may give the answer `r` to the query. As it
    /// stands it allows every answer; a shape that knows more says so.
    open spec fn answers(&self, ray: Ray, ray_t: Interval, r: Option<HitRecord<Self::Mat>>) -> bool {
        true
    }

    fn hit(&self, ray: &Ray, ray_t: Interval) -> (r: Option<HitRecord<Self::Mat>>)
        ensures
            (r matches Some(rec) ==> ray_t.surrounds_spec(rec.t)),
            self.answers(*ray, ray_t, r),
    ;
}

/// The last hit among the answers that the shapes of a scene gave in turn;
/// none where every shape missed.
pub open spec fn last_hit<M>(given: Seq<Option<HitRecord<M>>>) -> Option<HitRecord<M>>
    decreases given.len(),
{
    if given.len() == 0 {
        None
    } else if given.last() is Some {
        given.last()
    } else {
        last_hit(given.drop_last())
    }
}

/// The part of `ray_t` that is still open once `best` is known: below the
/// parameter of `best`, if there is one.
pub open spec fn reach_spec<M>(best: Option<HitRecord<M>>, ray_t: Interval) -> Interval {
    match best {
        Some(rec) => Interval { min: ray_t.min, max: rec.t },
        None => ray_t,
    }
}

/// Whether the answer number `i` of `given` is a miss or lies strictly
/// inside the range that the answers before it left open.
pub open spec fn in_reach<M>(given: Seq<Option<HitRecord<M>>>, ray_t: Interval, i: int) -> bool {
    given[i] matches Some(rec) ==> reach_spec(last_hit(given.take(i)), ray_t).surrounds_spec(
        rec.t,
    )
}

/// Whether every answer of `given` is a miss or lies in the range that the
/// answers before it left open.
pub open spec fn narrowing<M>(given: Seq<Option<HitRecord<M>>>, ray_t: Interval) -> bool {
    forall|i: int| 0 <= i < given.len() ==> #[trigger] in_reach(given, ray_t, i)
}

/// The range in which the next shape is asked.
pub fn reach<M>(best: &Option<HitRecord<M>>, ray_t: Interval) -> (r: Interval)
    ensures
        r == reach_spec(*best, ray_t),
{
    match best {
        Some(rec) => Interval::new(ray_t.min, rec.t),
        None => ray_t,
    }
}

/// The nearest hit after one more shape has answered: its answer, if it
/// has one, since it was asked below `best` only; else `best`.
pub fn closer<M>(best: Option<HitRecord<M>>, found: Option<HitRecord<M>>) -> (r: Option<
    HitRecord<M>,
>)
    ensures
        r == (if found is Some {
            found
        } else {
            best
        }),
{
    match found {
        Some(rec) => Some(rec),
        None => best,
    }
}

/// A scene: shapes in the order in which they were added.
pub struct HittableList<H: Hittable> {
    pub objects: Vec<H>,
}

impl<H: Hittable> HittableList<H> {
    /// Whether the shape number `i` may have given the answer number `i`
    /// of `given`, asked in the range that the answers before it left open.
    pub open spec fn admits_at(
        &self,
        ray: Ray,
        ray_t: Interval,
        given: Seq<Option<HitRecord<H::Mat>>>,
        i: int,
    ) -> bool {
        &&& in_reach(given, ray_t, i)
        &&& self.objects@[i].answers(ray, reach_spec(last_hit(given.take(i)), ray_t), given[i])
    }

    /// Whether `given` may be the answers of the shapes, asked in turn,
    /// each below the last hit before it.
    pub open spec fn admits(
        &self,
        ray: Ray,
        ray_t: Interval,
        given: Seq<Option<HitRecord<H::Mat>>>,
    ) -> bool {
        &&& given.len() == self.objects@.len()
        &&& forall|i: int| 0 <= i < given.len() ==> #[trigger] self.admits_at(ray, ray_t, given, i)
    }

    /// The scene without shapes.
    pub fn new() -> (r: HittableList<H>)
        ensures
            r.objects@.len() == 0,
    {
        HittableList { objects: Vec::new() }
    }

    /// Adds a shape behind those already there.
    pub fn add(&mut self, object: H)
        ensures
            final(self).objects@ == old(self).objects@.push(object),
    {
        self.objects.push(object);
    }

    /// Removes every shape.
    pub fn clear(&mut self)
        ensures
            final(self).objects@.len() == 0,
    {
        self.objects.clear();
    }
}

impl<H: Hittable> Hittable for HittableList<H> {
    type Mat = H::Mat;

    /// The scene answers with the last hit of its shapes, where each shape
    /// was asked below the last hit before it.
    open spec fn answers(&self, ray: Ray, ray_t: Interval, r: Option<HitRecord<H::Mat>>) -> bool {
        exists|given: Seq<Option<HitRecord<H::Mat>>>|
            #[trigger] self.admits(ray, ray_t, given) && r == last_hit(given)
    }

    /// Asks every shape in turn, each below the nearest answer so far, and
    /// returns the last answer given: the nearest hit. Of two shapes met at
    /// the same parameter the one added first is returned.
    fn hit(&self, ray: &Ray, ray_t: Interval) -> (r: Option<HitRecord<H::Mat>>)
        ensures
            self.objects@.len() == 0 ==> r is None,
    {
        let mut best: Option<HitRecord<H::Mat>> = None;
        let ghost mut given: Seq<Option<HitRecord<H::Mat>>> = Seq::empty();
        let mut i: usize = 0;
        while i < self.objects.len()
            invariant
                i <= self.objects@.len(),
                given.len() == i,
                best == last_hit(given),
                forall|j: int| 0 <= j < i ==> #[trigger] self.admits_at(*ray, ray_t, given, j),
                (best matches Some(rec) ==> ray_t.surrounds_spec(rec.t)),
                self.objects@.len() == 0 ==> best is None,
            decreases self.objects@.len() - i,
        {
            let range = reach(&best, ray_t);
            let found = self.objects[i].hit(ray, range);
            proof {
                let longer = given.push(found);
                assert(longer.take(i as int) =~= given);
                assert(longer.drop_last() =~= given);
                assert forall|j: int| 0 <= j < i + 1 implies #[trigger] self.admits_at(
                    *ray,
                    ray_t,
                    longer,
                    j,
                ) by {
                    if j < i {
                        assert(self.admits_at(*ray, ray_t, given, j));
                        assert(longer.take(j) =~= given.take(j));
                    }
                }
                given = longer;
            }
            best = closer(best, found);
            i += 1;
        }
        proof {
            assert(self.admits(*ray, ray_t, given));
        }
        best
    }
}

/// The last hit is the nearest: where every answer lies in the range that
/// the answers before it left open, the last hit lies strictly inside the
/// whole range and no answer lies before it; and there is no last hit only
/// where every answer is a miss.
pub proof fn lemma_last_hit_is_nearest<M>(given: Seq<Option<HitRecord<M>>>, ray_t: Interval)
    requires
        narrowing(given, ray_t),
    ensures
        last_hit(given) is None <==> (forall|j: int| 0 <= j < given.len() ==> given[j] is None),
        (last_hit(given) matches Some(best) ==> ray_t.surrounds_spec(best.t) && (forall|j: int|
            0 <= j < given.len() ==> (#[trigger] given[j] matches Some(other) ==> best.t.le_spec(
                other.t,
            )))),
    decreases given.len(),
{
    if given.len() > 0 {
        let before = given.drop_last();
        let n = given.len() - 1;
        assert(given.take(n) =~= before);
        assert forall|i: int| 0 <= i < before.len() implies #[trigger] in_reach(
            before,
            ray_t,
            i,
        ) by {
            assert(in_reach(given, ray_t, i));
            assert(given.take(i) =~= before.take(i));
        }
        lemma_last_hit_is_nearest(before, ray_t);
        assert(in_reach(given, ray_t, n));
        assert forall|j: int| 0 <= j < given.len() && j != n implies given[j] == before[j] by {}
    }
}

/// Of two shapes met at the same parameter the first stays: every hit
/// among the answers lies strictly before every hit that was given before it.
pub proof fn lemma_later_hits_are_nearer<M>(
    given: Seq<Option<HitRecord<M>>>,
    ray_t: Interval,
    i: int,
    j: int,
)
    requires
        narrowing(given, ray_t),
        0 <= i < j < given.len(),
        given[i] is Some,
        given[j] is Some,
    ensures
        given[j]->0.t.lt_spec(given[i]->0.t),
{
    let before = given.take(j);
    assert forall|k: int| 0 <= k < before.len() implies #[trigger] in_reach(before, ray_t, k) by {
        assert(in_reach(given, ray_t, k));
        assert(given.take(k) =~= before.take(k));
    }
    lemma_last_hit_is_nearest(before, ray_t);
    assert(before[i] == given[i]);
    assert(in_reach(given, ray_t, j));
}

/// The tolerance on the length of a normal is the binary64 value nearest
/// to `5 / 1000`.
pub proof fn lemma_unit_tolerance()
    ensures
        (Scalar { bits: UNIT_TOLERANCE_BITS }).approximates(5, 1000),
{
    let c = Scalar { bits: UNIT_TOLERANCE_BITS };
    assert(c.exponent_field() == 1015 && c.fraction_field() == 0x4_7AE1_47AE_147B);
    vstd::arithmetic::power2::lemma2_to64_rest();
    crate::scalar::lemma_approximates(c, 5, 1000, 60);
}

} // verus!
