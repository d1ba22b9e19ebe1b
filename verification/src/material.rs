//! Surface materials: how a surface sends on the light that strikes it.

use crate::fixed::{Fixed, SCALE};
use crate::point::Point;
use crate::ray::Ray;
use crate::scene::HitRecord;
use crate::util::{inside_unit_sphere, random_in_unit_sphere, random_unit};
use crate::vector::Vector3;
use core::ops::Neg;
use vstd::prelude::*;

verus! {

/// What a material makes of a ray that struck it: the ray that leaves and
/// the factor by which each colour channel is attenuated.
#[derive(Clone, Copy, Debug, PartialEq, Eq, Structural)]
pub struct Scatter {
    pub scattered: Ray,
    pub attenuation: Vector3,
}

/// The random input of one scattering.
#[derive(Clone, Copy, Debug, PartialEq, Eq, Structural)]
pub struct Sample {
    /// A point strictly inside the unit sphere.
    pub offset: Point,
    /// A number in `[0, 1)`.
    pub chance: Fixed,
}

impl Sample {
    /// The offset lies inside the unit sphere and the chance in `[0, 1)`.
    pub open spec fn valid(&self) -> bool {
        &&& inside_unit_sphere(&self.offset.position())
        &&& 0 <= self.chance.raw < SCALE
    }
}

/// The mirror image of `v` in the plane with normal `n`: `v − 2(v·n)n`.
pub open spec fn spec_reflect(v: Vector3, n: Vector3) -> Vector3 {
    v.minus(n.times(Fixed::whole(2).times(v.dot(&n))))
}

/// The mirror image of `v` in the plane with normal `n`: `v − 2(v·n)n`.
#[verifier::when_used_as_spec(spec_reflect)]
pub fn reflect(v: Vector3, n: Vector3) -> (r: Vector3)
    ensures
        r == spec_reflect(v, n),
{
    v - Fixed::from_int(2) * v.dot(&n) * n
}

/// What is under the root in Snell's law for the unit vector `u`, the
/// normal `n` and the ratio `ni_over_nt` of the refractive indices:
/// `1 − ratio²·(1 − (u·n)²)`.
pub open spec fn refraction_discriminant(u: Vector3, n: Vector3, ni_over_nt: Fixed) -> Fixed {
    let dt = u.dot(&n);
    Fixed::whole(1).minus(
        ni_over_nt.times(ni_over_nt).times(Fixed::whole(1).minus(dt.times(dt))),
    )
}

/// The direction in which `v` is refracted at a surface with normal `n`,
/// by Snell's law; none if the discriminant is negative, which is total
/// internal reflection.
pub open spec fn spec_refract(v: Vector3, n: Vector3, ni_over_nt: Fixed) -> Option<Vector3> {
    let u = v.normalize();
    let dt = u.dot(&n);
    let disc = refraction_discriminant(u, n, ni_over_nt);
    if disc.raw >= 0 {
        Some(u.minus(n.times(dt)).times(ni_over_nt).minus(n.times(disc.root())))
    } else {
        None
    }
}

/// The direction in which `v` is refracted at a surface with normal `n`.
#[verifier::when_used_as_spec(spec_refract)]
pub fn refract(v: Vector3, n: Vector3, ni_over_nt: Fixed) -> (r: Option<Vector3>)
    ensures
        r == spec_refract(v, n, ni_over_nt),
        r is Some <==> refraction_discriminant(v.normalize(), n, ni_over_nt).raw >= 0,
{
    let u = v.normalize();
    let dt = u.dot(&n);
    let disc = Fixed::one() - ni_over_nt * ni_over_nt * (Fixed::one() - dt * dt);
    if disc.raw >= 0 {
        Some(ni_over_nt * (u - n * dt) - n * disc.sqrt())
    } else {
        None
    }
}

/// Schlick's approximation of the share of light that a boundary between
/// refractive indices one and `ref_idx` reflects, seen under an angle of
/// cosine `cosine`: `r0 + (1 − r0)(1 − cosine)⁵` with
/// `r0 = ((1 − ref_idx) / (1 + ref_idx))²`.
pub open spec fn spec_schlick(cosine: Fixed, ref_idx: Fixed) -> Fixed {
    let r = Fixed::whole(1).minus(ref_idx).over(Fixed::whole(1).plus(ref_idx));
    let r0 = r.times(r);
    r0.plus(Fixed::whole(1).minus(r0).times(Fixed::whole(1).minus(cosine).power(5)))
}

/// Schlick's approximation of the reflectance.
#[verifier::when_used_as_spec(spec_schlick)]
pub fn schlick(cosine: Fixed, ref_idx: Fixed) -> (r: Fixed)
    ensures
        r == spec_schlick(cosine, ref_idx),
{
    let r0 = (Fixed::one() - ref_idx) / (Fixed::one() + ref_idx);
    let r0 = r0 * r0;
    r0 + (Fixed::one() - r0) * (Fixed::one() - cosine).powi(5)
}

/// A diffuse surface.
#[derive(Clone, Copy, Debug, PartialEq, Eq, Structural)]
pub struct Lambertian {
    pub albedo: Vector3,
}

impl Lambertian {
    /// The ray leaves the point that was struck along the normal plus the
    /// sample's offset, attenuated by the albedo, whatever came in.
    pub open spec fn spec_scatter(&self, ray: &Ray, rec: &HitRecord, sample: &Sample) -> Option<
        Scatter,
    > {
        Some(
            Scatter {
                scattered: Ray {
                    origin: rec.p,
                    direction: rec.normal.plus(sample.offset.position()),
                },
                attenuation: self.albedo,
            },
        )
    }

    /// Scatters with the given sample.
    pub fn scatter_with(&self, ray: &Ray, rec: &HitRecord, sample: &Sample) -> (r: Option<
        Scatter,
    >)
        ensures
            r == self.spec_scatter(ray, rec, sample),
            r matches Some(s) && s.attenuation == self.albedo && s.scattered.origin == rec.p,
    {
        Some(
            Scatter {
                scattered: Ray {
                    origin: rec.p,
                    direction: rec.normal + Vector3::from(sample.offset),
                },
                attenuation: self.albedo,
            },
        )
    }

    /// Scatters with a random offset: always, and with the albedo as
    /// attenuation.
    pub fn scatter(&self, ray: &Ray, rec: &HitRecord) -> (r: Option<Scatter>)
        ensures
            exists|sample: Sample| sample.valid() && r == self.spec_scatter(ray, rec, &sample),
            r matches Some(s) && s.attenuation == self.albedo && s.scattered.origin == rec.p,
    {
        let sample = Sample { offset: random_in_unit_sphere(), chance: Fixed::zero() };
        let r = self.scatter_with(ray, rec, &sample);
        assert(sample.valid() && r == self.spec_scatter(ray, rec, &sample));
        r
    }
}

/// A metallic surface. `fuzz`, from zero for a mirror to one, blurs the
/// reflection.
#[derive(Clone, Copy, Debug, PartialEq, Eq, Structural)]
pub struct Metal {
    pub albedo: Vector3,
    pub fuzz: Fixed,
}

impl Metal {
    /// The direction in which the ray would leave: the mirror image of the
    /// normalised incoming direction, plus `fuzz` times the sample's offset.
    pub open spec fn outgoing(&self, ray: &Ray, rec: &HitRecord, sample: &Sample) -> Vector3 {
        reflect(ray.direction.normalize(), rec.normal).plus(
            sample.offset.times(self.fuzz).position(),
        )
    }

    /// The ray leaves in the `outgoing` direction, attenuated by the albedo,
    /// if that direction points away from the surface; else it is absorbed.
    pub open spec fn spec_scatter(&self, ray: &Ray, rec: &HitRecord, sample: &Sample) -> Option<
        Scatter,
    > {
        let direction = self.outgoing(ray, rec, sample);
        if direction.dot(&rec.normal).raw > 0 {
            Some(Scatter { scattered: Ray { origin: rec.p, direction }, attenuation: self.albedo })
        } else {
            None
        }
    }

    /// Scatters with the given sample.
    pub fn scatter_with(&self, ray: &Ray, rec: &HitRecord, sample: &Sample) -> (r: Option<
        Scatter,
    >)
        ensures
            r == self.spec_scatter(ray, rec, sample),
            r is Some <==> self.outgoing(ray, rec, sample).dot(&rec.normal).raw > 0,
            r matches Some(s) ==> s.attenuation == self.albedo && s.scattered.origin == rec.p,
    {
        let reflected = reflect(ray.direction.normalize(), rec.normal);
        let scattered = Ray {
            origin: rec.p,
            direction: reflected + Vector3::from(self.fuzz * sample.offset),
        };
        if scattered.direction.dot(&rec.normal).raw > 0 {
            Some(Scatter { scattered, attenuation: self.albedo })
        } else {
            None
        }
    }

    /// Scatters with a random offset.
    pub fn scatter(&self, ray: &Ray, rec: &HitRecord) -> (r: Option<Scatter>)
        ensures
            exists|sample: Sample| sample.valid() && r == self.spec_scatter(ray, rec, &sample),
            r matches Some(s) ==> s.attenuation == self.albedo && s.scattered.origin == rec.p,
    {
        let sample = Sample { offset: random_in_unit_sphere(), chance: Fixed::zero() };
        let r = self.scatter_with(ray, rec, &sample);
        assert(sample.valid() && r == self.spec_scatter(ray, rec, &sample));
        r
    }
}

/// The attenuation that takes nothing away: one in each channel.
pub open spec fn clear() -> Vector3 {
    Vector3 { x: Fixed::whole(1), y: Fixed::whole(1), z: Fixed::whole(1) }
}

/// A transparent surface with refractive index `ref_idx`, such as glass.
#[derive(Clone, Copy, Debug, PartialEq, Eq, Structural)]
pub struct Dialectric {
    pub ref_idx: Fixed,
}

impl Dialectric {
    /// Whether the ray leaves the medium: its direction points along the
    /// normal.
    pub open spec fn leaves(&self, ray: &Ray, rec: &HitRecord) -> bool {
        ray.direction.dot(&rec.normal).raw > 0
    }

    /// The normal turned against the ray.
    pub open spec fn outward_normal(&self, ray: &Ray, rec: &HitRecord) -> Vector3 {
        if self.leaves(ray, rec) {
            rec.normal.negated()
        } else {
            rec.normal
        }
    }

    /// The ratio of the refractive indices across the surface, in the
    /// direction of the ray.
    pub open spec fn ratio(&self, ray: &Ray, rec: &HitRecord) -> Fixed {
        if self.leaves(ray, rec) {
            self.ref_idx
        } else {
            Fixed::whole(1).over(self.ref_idx)
        }
    }

    /// The cosine that weighs reflection against refraction.
    pub open spec fn cosine(&self, ray: &Ray, rec: &HitRecord) -> Fixed {
        let d = ray.direction.dot(&rec.normal);
        if self.leaves(ray, rec) {
            self.ref_idx.times(d).over(ray.direction.length())
        } else {
            d.negated().over(ray.direction.length())
        }
    }

    /// The probability with which a ray that could be refracted is
    /// reflected instead.
    pub open spec fn reflect_prob(&self, ray: &Ray, rec: &HitRecord) -> Fixed {
        schlick(self.cosine(ray, rec), self.ref_idx)
    }

    /// Whether the ray is reflected: refraction is impossible, or the
    /// sample's chance falls below the reflection probability.
    pub open spec fn reflects(&self, ray: &Ray, rec: &HitRecord, sample: &Sample) -> bool {
        refract(ray.direction, self.outward_normal(ray, rec), self.ratio(ray, rec)) is None
            || sample.chance.raw < self.reflect_prob(ray, rec).raw
    }

    /// The ray always leaves, unattenuated: reflected if `reflects`, else
    /// refracted.
    pub open spec fn spec_scatter(&self, ray: &Ray, rec: &HitRecord, sample: &Sample) -> Option<
        Scatter,
    > {
        let direction = if self.reflects(ray, rec, sample) {
            reflect(ray.direction, rec.normal)
        } else {
            refract(
                ray.direction,
                self.outward_normal(ray, rec),
                self.ratio(ray, rec),
            )->Some_0
        };
        Some(
            Scatter {
                scattered: Ray { origin: rec.p, direction },
                attenuation: clear(),
            },
        )
    }

    /// Scatters with the given sample.
    pub fn scatter_with(&self, ray: &Ray, rec: &HitRecord, sample: &Sample) -> (r: Option<
        Scatter,
    >)
        ensures
            r == self.spec_scatter(ray, rec, sample),
            r matches Some(s) && s.attenuation == clear() && s.scattered.origin == rec.p,
    {
        let d = ray.direction.dot(&rec.normal);
        let (outward_normal, ni_over_nt, cosine) = if d.raw > 0 {
            (rec.normal.neg(), self.ref_idx, self.ref_idx * d / ray.direction.length())
        } else {
            (rec.normal, Fixed::one() / self.ref_idx, d.neg() / ray.direction.length())
        };
        let reflect_prob = schlick(cosine, self.ref_idx);
        let direction = match refract(ray.direction, outward_normal, ni_over_nt) {
            Some(refracted) => if sample.chance.raw < reflect_prob.raw {
                reflect(ray.direction, rec.normal)
            } else {
                refracted
            },
            None => reflect(ray.direction, rec.normal),
        };
        Some(
            Scatter {
                scattered: Ray { origin: rec.p, direction },
                attenuation: Vector3 { x: Fixed::one(), y: Fixed::one(), z: Fixed::one() },
            },
        )
    }

    /// Scatters with a random chance: always, and without attenuation.
    pub fn scatter(&self, ray: &Ray, rec: &HitRecord) -> (r: Option<Scatter>)
        ensures
            exists|sample: Sample| sample.valid() && r == self.spec_scatter(ray, rec, &sample),
            r matches Some(s) && s.attenuation == clear() && s.scattered.origin == rec.p,
    {
        let sample = Sample { offset: Point::origin(), chance: random_unit() };
        proof {
            crate::util::lemma_origin_inside();
        }
        let r = self.scatter_with(ray, rec, &sample);
        assert(sample.valid() && r == self.spec_scatter(ray, rec, &sample));
        r
    }
}

/// The material of a surface: one of three kinds.
#[derive(Clone, Copy, Debug, PartialEq, Eq, Structural)]
pub enum Material {
    Lambertian(Lambertian),
    Metal(Metal),
    Dialectric(Dialectric),
}

impl Material {
    /// The ray that leaves and its attenuation, or none if the ray is
    /// absorbed, for the given sample.
    pub open spec fn spec_scatter(&self, ray: &Ray, rec: &HitRecord, sample: &Sample) -> Option<
        Scatter,
    > {
        match self {
            Material::Lambertian(m) => m.spec_scatter(ray, rec, sample),
            Material::Metal(m) => m.spec_scatter(ray, rec, sample),
            Material::Dialectric(m) => m.spec_scatter(ray, rec, sample),
        }
    }

    /// Scatters with the given sample.
    pub fn scatter_with(&self, ray: &Ray, rec: &HitRecord, sample: &Sample) -> (r: Option<
        Scatter,
    >)
        ensures
            r == self.spec_scatter(ray, rec, sample),
            r matches Some(s) ==> s.scattered.origin == rec.p,
            self matches Material::Lambertian(m) ==> r matches Some(s) && s.attenuation
                == m.albedo,
            self is Dialectric ==> r is Some,
    {
        match self {
            Material::Lambertian(m) => m.scatter_with(ray, rec, sample),
            Material::Metal(m) => m.scatter_with(ray, rec, sample),
            Material::Dialectric(m) => m.scatter_with(ray, rec, sample),
        }
    }

    /// Scatters with a random sample. A diffuse surface always scatters,
    /// with its albedo as attenuation; a transparent one always scatters.
    pub fn scatter(&self, ray: &Ray, rec: &HitRecord) -> (r: Option<Scatter>)
        ensures
            exists|sample: Sample| sample.valid() && r == self.spec_scatter(ray, rec, &sample),
            r matches Some(s) ==> s.scattered.origin == rec.p,
            self matches Material::Lambertian(m) ==> r matches Some(s) && s.attenuation
                == m.albedo,
            self is Dialectric ==> r is Some,
    {
        match self {
            Material::Lambertian(m) => {
                let r = m.scatter(ray, rec);
                proof {
                    let sample = choose|sample: Sample|
                        sample.valid() && r == m.spec_scatter(ray, rec, &sample);
                    assert(sample.valid() && r == self.spec_scatter(ray, rec, &sample));
                }
                r
            },
            Material::Metal(m) => {
                let r = m.scatter(ray, rec);
                proof {
                    let sample = choose|sample: Sample|
                        sample.valid() && r == m.spec_scatter(ray, rec, &sample);
                    assert(sample.valid() && r == self.spec_scatter(ray, rec, &sample));
                }
                r
            },
            Material::Dialectric(m) => {
                let r = m.scatter(ray, rec);
                proof {
                    let sample = choose|sample: Sample|
                        sample.valid() && r == m.spec_scatter(ray, rec, &sample);
                    assert(sample.valid() && r == self.spec_scatter(ray, rec, &sample));
                }
                r
            },
        }
    }
}

} // verus!
