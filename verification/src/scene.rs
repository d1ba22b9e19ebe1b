//! Geometry: what a ray can strike, and where it strikes it.

use crate::fixed::{
    lemma_over_side, lemma_root_sign, lemma_times_unit, same_side, Fixed, SCALE,
};
use crate::material::Material;
use crate::point::Point;
use crate::ray::Ray;
use crate::vector::{lemma_normalize_near_unit, unit_excess, Vector3};
use core::ops::Neg;
use vstd::prelude::*;

verus! {

/// Where and how a ray strikes a surface.
#[derive(Clone, Copy)]
pub struct HitRecord<'a> {
    /// The ray parameter of the intersection.
    pub t: Fixed,
    /// The position of the intersection.
    pub p: Point,
    /// The surface normal there, normalised.
    pub normal: Vector3,
    /// The material of the surface, owned by the geometry that was struck.
    pub material: &'a Material,
}

/// The intersection `hit`, kept if its parameter does not exceed `t`.
pub open spec fn narrowed<'a>(hit: Option<HitRecord<'a>>, t: Fixed) -> Option<HitRecord<'a>> {
    match hit {
        Some(rec) => if rec.t.raw <= t.raw {
            Some(rec)
        } else {
            None
        },
        None => None,
    }
}

/// A surface, or a set of surfaces, that a ray can strike.
pub trait Hit {
    /// The intersection of `ray` with the surface whose parameter lies in
    /// `[t_min, t_max]`, if there is one.
    spec fn spec_hit(&self, ray: &Ray, t_min: Fixed, t_max: Fixed) -> Option<HitRecord>;

    /// The intersection of `ray` with the surface whose parameter lies in
    /// `[t_min, t_max]`, if there is one.
    fn hit(&self, ray: &Ray, t_min: Fixed, t_max: Fixed) -> (r: Option<HitRecord>)
        ensures
            r == self.spec_hit(ray, t_min, t_max),
            r matches Some(rec) ==> t_min.raw <= rec.t.raw <= t_max.raw,
    ;

    /// The reported parameter lies in the window, and lowering the upper
    /// bound to `t` keeps the intersection if it is still in the window and
    /// reports none otherwise.
    proof fn lemma_window(&self, ray: &Ray, t_min: Fixed, t: Fixed, t_max: Fixed)
        requires
            t.raw <= t_max.raw,
        ensures
            self.spec_hit(ray, t_min, t_max) matches Some(rec) ==> t_min.raw <= rec.t.raw
                <= t_max.raw,
            self.spec_hit(ray, t_min, t) == narrowed(self.spec_hit(ray, t_min, t_max), t),
    ;
}

/// The discriminant of `a·t² + 2·b·t + c = 0`, a quarter of the usual one:
/// `b² − a·c`.
pub open spec fn discriminant(a: Fixed, b: Fixed, c: Fixed) -> Fixed {
    b.times(b).minus(a.times(c))
}

/// For a positive discriminant `disc`, the number `−(b + sign(b)·√disc)`,
/// in which the two terms never cancel. Over `a` it is the root of larger
/// magnitude; the constant term over it is the other root.
pub open spec fn pivot(b: Fixed, disc: Fixed) -> Fixed {
    if b.raw > 0 {
        b.plus(disc.root()).negated()
    } else {
        b.minus(disc.root()).negated()
    }
}

/// The pivot of a positive discriminant is not zero, so the quotient by it
/// is a true quotient.
pub proof fn lemma_pivot_nonzero(b: Fixed, disc: Fixed)
    requires
        disc.raw > 0,
    ensures
        pivot(b, disc).raw != 0,
        b.raw > 0 ==> pivot(b, disc).raw < 0,
        b.raw <= 0 ==> pivot(b, disc).raw > 0,
{
    lemma_root_sign(disc);
}

/// The roots of `a·t² + 2·b·t + c = 0`, in ascending order: none if `a` is
/// zero or the discriminant is negative, one root twice if the discriminant
/// is zero. Note the convention: `b` is half the coefficient of `t`.
pub open spec fn spec_solve_quadratic(a: Fixed, b: Fixed, c: Fixed) -> Option<(Fixed, Fixed)> {
    let disc = discriminant(a, b, c);
    if a.raw == 0 || disc.raw < 0 {
        None
    } else if disc.raw == 0 {
        let x = b.negated().over(a);
        Some((x, x))
    } else {
        let q = pivot(b, disc);
        let t0 = q.over(a);
        let t1 = c.over(q);
        if t1.raw < t0.raw {
            Some((t1, t0))
        } else {
            Some((t0, t1))
        }
    }
}

/// The roots of `a·t² + 2·b·t + c = 0`, in ascending order.
#[verifier::when_used_as_spec(spec_solve_quadratic)]
pub fn solve_quadratic(a: Fixed, b: Fixed, c: Fixed) -> (r: Option<(Fixed, Fixed)>)
    ensures
        r == spec_solve_quadratic(a, b, c),
        r is None <==> a.raw == 0 || discriminant(a, b, c).raw < 0,
        r matches Some((t0, t1)) ==> t0.raw <= t1.raw,
        r matches Some((t0, t1)) ==> (discriminant(a, b, c).raw == 0 ==> t0 == t1),
{
    let disc = b * b - a * c;
    if a.raw == 0 || disc.raw < 0 {
        None
    } else if disc.raw == 0 {
        let x = b.neg() / a;
        Some((x, x))
    } else {
        let q = if b.raw > 0 {
            (b + disc.sqrt()).neg()
        } else {
            (b - disc.sqrt()).neg()
        };
        let t0 = q / a;
        let t1 = c / q;
        if t1.raw < t0.raw {
            Some((t1, t0))
        } else {
            Some((t0, t1))
        }
    }
}

/// The first of `t0` and `t1` that lies in `[t_min, t_max]`. For roots in
/// ascending order this is the smaller root in the window: the near root if
/// it is in the window, else the far root if that one is, as for a ray that
/// starts inside the surface.
pub open spec fn spec_select_root(t0: Fixed, t1: Fixed, t_min: Fixed, t_max: Fixed) -> Option<
    Fixed,
> {
    if t_min.raw <= t0.raw <= t_max.raw {
        Some(t0)
    } else if t_min.raw <= t1.raw <= t_max.raw {
        Some(t1)
    } else {
        None
    }
}

/// The first of `t0` and `t1` that lies in `[t_min, t_max]`.
#[verifier::when_used_as_spec(spec_select_root)]
pub fn select_root(t0: Fixed, t1: Fixed, t_min: Fixed, t_max: Fixed) -> (r: Option<Fixed>)
    ensures
        r == spec_select_root(t0, t1, t_min, t_max),
        r matches Some(t) ==> t_min.raw <= t.raw <= t_max.raw && (t == t0 || t == t1),
        r is None <==> !(t_min.raw <= t0.raw <= t_max.raw) && !(t_min.raw <= t1.raw
            <= t_max.raw),
        t_min.raw <= t0.raw <= t_max.raw ==> r == Some(t0),
{
    if t_min.raw <= t0.raw && t0.raw <= t_max.raw {
        Some(t0)
    } else if t_min.raw <= t1.raw && t1.raw <= t_max.raw {
        Some(t1)
    } else {
        None
    }
}

/// A sphere. A negative radius turns the normal inward, which models the
/// inner surface of a hollow shell.
pub struct Sphere {
    center: Point,
    radius: Fixed,
    material: Material,
    radius2: Fixed,
}

impl Sphere {
    /// The cached square of the radius never departs from the radius.
    #[verifier::type_invariant]
    closed spec fn inv(self) -> bool {
        self.radius2 == self.radius.times(self.radius)
    }

    /// The centre.
    pub closed spec fn spec_center(&self) -> Point {
        self.center
    }

    /// The radius, negative for a sphere turned inside out.
    pub closed spec fn spec_radius(&self) -> Fixed {
        self.radius
    }

    /// The material, which the sphere owns.
    pub closed spec fn spec_material(&self) -> &Material {
        &self.material
    }

    /// The sphere round `center` with the given radius and material.
    pub fn new(center: Point, radius: Fixed, material: Material) -> (s: Sphere)
        ensures
            s.center() == center,
            s.radius() == radius,
            s.material() == material,
    {
        Sphere { center, radius, material, radius2: radius * radius }
    }

    /// The centre.
    #[verifier::when_used_as_spec(spec_center)]
    pub fn center(&self) -> (c: Point)
        ensures
            c == self.spec_center(),
    {
        self.center
    }

    /// The radius.
    #[verifier::when_used_as_spec(spec_radius)]
    pub fn radius(&self) -> (r: Fixed)
        ensures
            r == self.spec_radius(),
    {
        self.radius
    }

    /// The material.
    #[verifier::when_used_as_spec(spec_material)]
    pub fn material(&self) -> (m: &Material)
        ensures
            m == self.spec_material(),
    {
        &self.material
    }

    /// The coefficients `(a, b, c)` of the equation `a·t² + 2·b·t + c = 0`
    /// whose roots are the parameters at which `ray` meets the sphere:
    /// `a = |d|²`, `b = d·(o − C)`, `c = |o − C|² − r²`.
    pub open spec fn coefficients(&self, ray: &Ray) -> (Fixed, Fixed, Fixed) {
        let oc = ray.origin.minus(self.center());
        (
            ray.direction.norm(),
            oc.dot(&ray.direction),
            oc.norm().minus(self.radius().times(self.radius())),
        )
    }

    /// The unit normal at the position `p` of the surface: the direction
    /// from the centre to `p`, turned round if the radius is negative.
    pub open spec fn normal_at(&self, p: Point) -> Vector3 {
        p.minus(self.center()).times(self.radius().sign()).normalize()
    }

    /// The record of the intersection at parameter `t` of `ray`.
    pub open spec fn record_at(&self, ray: &Ray, t: Fixed) -> HitRecord {
        HitRecord { t, p: ray.at(t), normal: self.normal_at(ray.at(t)), material: self.material() }
    }
}

impl Hit for Sphere {
    open spec fn spec_hit(&self, ray: &Ray, t_min: Fixed, t_max: Fixed) -> Option<HitRecord> {
        let (a, b, c) = self.coefficients(ray);
        match solve_quadratic(a, b, c) {
            Some((t0, t1)) => match select_root(t0, t1, t_min, t_max) {
                Some(t) => Some(self.record_at(ray, t)),
                None => None,
            },
            None => None,
        }
    }

    fn hit(&self, ray: &Ray, t_min: Fixed, t_max: Fixed) -> (r: Option<HitRecord>) {
        proof {
            use_type_invariant(self);
            self.lemma_window(ray, t_min, t_max, t_max);
        }
        let oc = ray.origin - self.center;
        let a = ray.direction.norm();
        let b = oc.dot(&ray.direction);
        let c = oc.norm() - self.radius2;
        match solve_quadratic(a, b, c) {
            Some((t0, t1)) => match select_root(t0, t1, t_min, t_max) {
                Some(t) => {
                    let p = ray.at(t);
                    Some(
                        HitRecord {
                            t,
                            p,
                            normal: ((p - self.center) * self.radius.signum()).normalize(),
                            material: &self.material,
                        },
                    )
                },
                None => None,
            },
            None => None,
        }
    }

    proof fn lemma_window(&self, ray: &Ray, t_min: Fixed, t: Fixed, t_max: Fixed) {
    }
}

/// What a sphere reports is the smaller root of its equation that lies in
/// the window, with the position of the ray at that parameter, the normal
/// there and the sphere's material; it reports nothing only if neither root
/// lies in the window. The near root is taken whenever it lies in the
/// window.
pub proof fn lemma_sphere_hit(s: &Sphere, ray: &Ray, t_min: Fixed, t_max: Fixed)
    ensures
        ({
            let (a, b, c) = s.coefficients(ray);
            match s.spec_hit(ray, t_min, t_max) {
                Some(rec) => {
                    &&& t_min.raw <= rec.t.raw <= t_max.raw
                    &&& rec.p == ray.at(rec.t)
                    &&& rec.normal == s.normal_at(rec.p)
                    &&& rec.material == s.material()
                    &&& solve_quadratic(a, b, c) matches Some((t0, t1)) && (rec.t == t0 || rec.t
                        == t1) && (t_min.raw <= t0.raw <= t_max.raw ==> rec.t == t0)
                },
                None => solve_quadratic(a, b, c) matches Some((t0, t1)) ==> !(t_min.raw <= t0.raw
                    <= t_max.raw) && !(t_min.raw <= t1.raw <= t_max.raw),
            }
        }),
{
}

/// The normal of a sphere points away from the centre, component by
/// component, if the radius is not negative, and toward it if the radius
/// is negative.
pub proof fn lemma_normal_side(s: &Sphere, p: Point)
    ensures
        ({
            let d = p.minus(s.center());
            let n = s.normal_at(p);
            if s.radius().raw >= 0 {
                same_side(d.x, n.x) && same_side(d.y, n.y) && same_side(d.z, n.z)
            } else {
                same_side(d.x.negated(), n.x) && same_side(d.y.negated(), n.y) && same_side(
                    d.z.negated(),
                    n.z,
                )
            }
        }),
{
    let d = p.minus(s.center());
    let v = d.times(s.radius().sign());
    let len = v.length();
    lemma_times_unit(d.x);
    lemma_times_unit(d.y);
    lemma_times_unit(d.z);
    lemma_root_sign(v.norm());
    lemma_over_side(v.x, len);
    lemma_over_side(v.y, len);
    lemma_over_side(v.z, len);
}

/// The normal of a sphere at `p` has squared length one, within nine steps
/// of `2^-32` below and `unit_excess(k)` above, if `p` is at least `1/k`
/// away from the centre and the squared distance is in range.
pub proof fn lemma_normal_unit(s: &Sphere, p: Point, k: int)
    requires
        1 <= k <= 0x1000,
        p.minus(s.center()).times(s.radius().sign()).length().raw * k >= SCALE,
        p.minus(s.center()).times(s.radius().sign()).norm().raw < i64::MAX,
    ensures
        SCALE - 9 <= s.normal_at(p).norm().raw <= SCALE + unit_excess(k),
{
    lemma_normalize_near_unit(p.minus(s.center()).times(s.radius().sign()), k);
}

/// The nearest of the intersections that the members of `data` report, each
/// asked on its own over the whole window `[t_min, t_max]`. Of two at the
/// same parameter the later member's is taken.
pub open spec fn nearest_of<T: Hit>(data: Seq<T>, ray: &Ray, t_min: Fixed, t_max: Fixed) -> Option<
    HitRecord,
>
    decreases data.len(),
{
    if data.len() == 0 {
        None
    } else {
        let before = nearest_of(data.drop_last(), ray, t_min, t_max);
        match (before, data.last().spec_hit(ray, t_min, t_max)) {
            (_, None) => before,
            (None, Some(own)) => Some(own),
            (Some(b), Some(own)) => if own.t.raw <= b.t.raw {
                Some(own)
            } else {
                Some(b)
            },
        }
    }
}

/// An ordered collection of surfaces, itself a surface: a ray strikes it
/// where it first strikes a member.
pub struct HitList<T: Hit> {
    data: Vec<T>,
}

impl<T: Hit> View for HitList<T> {
    type V = Seq<T>;

    closed spec fn view(&self) -> Seq<T> {
        self.data@
    }
}

impl<T: Hit> HitList<T> {
    /// An empty collection.
    pub fn new() -> (l: Self)
        ensures
            l@ == Seq::<T>::empty(),
    {
        HitList { data: Vec::new() }
    }

    /// Adds a member at the end.
    pub fn push(&mut self, hitable: T)
        ensures
            final(self)@ == old(self)@.push(hitable),
    {
        self.data.push(hitable);
    }
}

impl<T: Hit> Default for HitList<T> {
    fn default() -> (l: Self)
        ensures
            l@ == Seq::<T>::empty(),
    {
        HitList::new()
    }
}

impl<T: Hit> Hit for HitList<T> {
    open spec fn spec_hit(&self, ray: &Ray, t_min: Fixed, t_max: Fixed) -> Option<HitRecord> {
        nearest_of(self@, ray, t_min, t_max)
    }

    fn hit(&self, ray: &Ray, t_min: Fixed, t_max: Fixed) -> (r: Option<HitRecord>) {
        let mut closest: Option<HitRecord> = None;
        let mut t = t_max;
        let mut i: usize = 0;
        while i < self.data.len()
            invariant
                i <= self.data.len(),
                closest == nearest_of(self@.take(i as int), ray, t_min, t_max),
                t == (match closest {
                    Some(rec) => rec.t,
                    None => t_max,
                }),
                t.raw <= t_max.raw,
            decreases self.data.len() - i,
        {
            proof {
                self.data[i as int].lemma_window(ray, t_min, t, t_max);
                assert(self@.take(i + 1).drop_last() == self@.take(i as int));
                assert(self@.take(i + 1).last() == self.data[i as int]);
            }
            if let Some(rec) = self.data[i].hit(ray, t_min, t) {
                t = rec.t;
                closest = Some(rec);
            }
            i = i + 1;
        }
        proof {
            assert(self@.take(i as int) == self@);
            self.lemma_window(ray, t_min, t_max, t_max);
        }
        closest
    }

    proof fn lemma_window(&self, ray: &Ray, t_min: Fixed, t: Fixed, t_max: Fixed) {
        lemma_nearest_window(self@, ray, t_min, t, t_max);
    }
}

/// The nearest intersection of a collection lies in the window, and
/// lowering the upper bound to `t` keeps it if it is still in the window
/// and leaves none otherwise.
pub proof fn lemma_nearest_window<T: Hit>(
    data: Seq<T>,
    ray: &Ray,
    t_min: Fixed,
    t: Fixed,
    t_max: Fixed,
)
    requires
        t.raw <= t_max.raw,
    ensures
        nearest_of(data, ray, t_min, t_max) matches Some(rec) ==> t_min.raw <= rec.t.raw
            <= t_max.raw,
        nearest_of(data, ray, t_min, t) == narrowed(nearest_of(data, ray, t_min, t_max), t),
    decreases data.len(),
{
    if data.len() > 0 {
        lemma_nearest_window(data.drop_last(), ray, t_min, t, t_max);
        data.last().lemma_window(ray, t_min, t, t_max);
    }
}

/// The nearest intersection of a collection is the intersection that one
/// of its members reports when asked alone, and no member reports a nearer
/// one; there is none only if no member reports any.
pub proof fn lemma_nearest_is_minimum<T: Hit>(data: Seq<T>, ray: &Ray, t_min: Fixed, t_max: Fixed)
    ensures
        match nearest_of(data, ray, t_min, t_max) {
            Some(rec) => {
                &&& exists|i: int|
                    0 <= i < data.len() && #[trigger] data[i].spec_hit(ray, t_min, t_max) == Some(
                        rec,
                    )
                &&& forall|j: int|
                    0 <= j < data.len() ==> (#[trigger] data[j].spec_hit(ray, t_min, t_max)
                        matches Some(other) ==> rec.t.raw <= other.t.raw)
            },
            None => forall|j: int|
                0 <= j < data.len() ==> #[trigger] data[j].spec_hit(ray, t_min, t_max) is None,
        },
    decreases data.len(),
{
    if data.len() > 0 {
        let init = data.drop_last();
        lemma_nearest_is_minimum(init, ray, t_min, t_max);
        let last = data.len() - 1;
        assert(forall|j: int| 0 <= j < init.len() ==> init[j] == data[j]);
        match nearest_of(data, ray, t_min, t_max) {
            Some(rec) => {
                if data.last().spec_hit(ray, t_min, t_max) == Some(rec) {
                    assert(data[last].spec_hit(ray, t_min, t_max) == Some(rec));
                } else {
                    let i = choose|i: int|
                        0 <= i < init.len() && #[trigger] init[i].spec_hit(ray, t_min, t_max)
                            == Some(rec);
                    assert(data[i].spec_hit(ray, t_min, t_max) == Some(rec));
                }
                assert forall|j: int| 0 <= j < data.len() implies (#[trigger] data[j].spec_hit(
                    ray,
                    t_min,
                    t_max,
                ) matches Some(other) ==> rec.t.raw <= other.t.raw) by {
                    if j < last {
                        assert(init[j] == data[j]);
                    }
                }
            },
            None => {
                assert forall|j: int| 0 <= j < data.len() implies #[trigger] data[j].spec_hit(
                    ray,
                    t_min,
                    t_max,
                ) is None by {
                    if j < last {
                        assert(init[j] == data[j]);
                    }
                }
            },
        }
    }
}

} // verus!
