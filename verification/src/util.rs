//! Random sampling and the radiance integrator.

use crate::color::Color;
use crate::fixed::{Fixed, SCALE};
use crate::material::Sample;
use crate::point::Point;
use crate::ray::Ray;
use crate::scene::Hit;
use crate::vector::{lemma_normalize_near_unit, unit_excess, Vector3};
use rand::Rng;
use vstd::prelude::*;

verus! {

/// The greatest number of scatterings that one traced ray may undergo.
pub const MAX_DEPTH: usize = 50;

/// How many candidates a rejection sampler draws before it gives up and
/// returns the centre of its shape.
pub const MAX_DRAWS: u32 = 64;

/// Thirty-two random bits: `rand::thread_rng().gen::<u32>()`, which hands on
/// the next 32-bit output of the thread's generator.
///
/// Trusted, not proved. The bits depend on chance, so nothing is claimed of
/// them: every caller is verified for all values. The first call on a
/// thread seeds the generator from the operating system, and `rand` panics
/// if the system gives no entropy.
#[verifier::external_body]
pub(crate) fn random_bits() -> (bits: u32) {
    rand::thread_rng().gen::<u32>()
}

/// The number in `[0, 1)` that `bits` steps of `2^-32` make.
pub open spec fn spec_unit_from_bits(bits: u32) -> Fixed {
    Fixed { raw: bits as i64 }
}

/// The number in `[-1, 1)` that `bits` steps of `2^-31` above `-1` make.
pub open spec fn spec_signed_unit_from_bits(bits: u32) -> Fixed {
    Fixed { raw: (2 * bits - SCALE) as i64 }
}

/// The point of the cube `[-1, 1)³` that three draws of bits select.
pub open spec fn spec_cube_point(bx: u32, by: u32, bz: u32) -> Vector3 {
    Vector3 {
        x: spec_signed_unit_from_bits(bx),
        y: spec_signed_unit_from_bits(by),
        z: spec_signed_unit_from_bits(bz),
    }
}

/// The point of the square `[-1, 1)²`, in the plane `z = 0`, that two draws
/// of bits select.
pub open spec fn spec_square_point(bx: u32, by: u32) -> Vector3 {
    Vector3 {
        x: spec_signed_unit_from_bits(bx),
        y: spec_signed_unit_from_bits(by),
        z: Fixed::whole(0),
    }
}

/// Whether `p` lies strictly inside the unit sphere: its squared length is
/// below one.
pub open spec fn spec_inside_unit_sphere(p: &Vector3) -> bool {
    p.norm().raw < SCALE
}

/// The number in `[0, 1)` that `bits` steps of `2^-32` make.
#[verifier::when_used_as_spec(spec_unit_from_bits)]
pub fn unit_from_bits(bits: u32) -> (r: Fixed)
    ensures
        r == spec_unit_from_bits(bits),
        0 <= r.raw < SCALE,
{
    Fixed { raw: bits as i64 }
}

/// The number in `[-1, 1)` that `bits` steps of `2^-31` above `-1` make.
#[verifier::when_used_as_spec(spec_signed_unit_from_bits)]
pub fn signed_unit_from_bits(bits: u32) -> (r: Fixed)
    ensures
        r == spec_signed_unit_from_bits(bits),
        -SCALE <= r.raw < SCALE,
{
    Fixed { raw: 2 * (bits as i64) - SCALE }
}

/// The point of the cube `[-1, 1)³` that three draws of bits select.
#[verifier::when_used_as_spec(spec_cube_point)]
pub fn cube_point(bx: u32, by: u32, bz: u32) -> (p: Vector3)
    ensures
        p == spec_cube_point(bx, by, bz),
{
    Vector3 {
        x: signed_unit_from_bits(bx),
        y: signed_unit_from_bits(by),
        z: signed_unit_from_bits(bz),
    }
}

/// The point of the square `[-1, 1)²`, in the plane `z = 0`, that two draws
/// of bits select.
#[verifier::when_used_as_spec(spec_square_point)]
pub fn square_point(bx: u32, by: u32) -> (p: Vector3)
    ensures
        p == spec_square_point(bx, by),
{
    Vector3 { x: signed_unit_from_bits(bx), y: signed_unit_from_bits(by), z: Fixed::zero() }
}

/// Whether `p` lies strictly inside the unit sphere.
#[verifier::when_used_as_spec(spec_inside_unit_sphere)]
pub fn inside_unit_sphere(p: &Vector3) -> (b: bool)
    ensures
        b == spec_inside_unit_sphere(p),
{
    p.norm().raw < SCALE
}

/// A random number in `[0, 1)`: thirty-two random bits as steps of `2^-32`.
pub fn random_unit() -> (r: Fixed)
    ensures
        0 <= r.raw < SCALE,
{
    unit_from_bits(random_bits())
}

/// Whether a rejection sampler draws exactly the candidates `draws`, in
/// this order: it draws again while the candidate lies outside the unit
/// sphere, and stops at the first candidate inside, or after `MAX_DRAWS`
/// candidates.
pub open spec fn rejection_run(draws: Seq<Vector3>) -> bool {
    &&& 1 <= draws.len() <= MAX_DRAWS
    &&& forall|i: int| 0 <= i < draws.len() - 1 ==> !inside_unit_sphere(&#[trigger] draws[i])
    &&& (inside_unit_sphere(&draws.last()) || draws.len() == MAX_DRAWS)
}

/// What a rejection sampler returns that drew the candidates `draws`: the
/// last candidate, at which it stopped, if that one lies inside the unit
/// sphere, and else, all having been rejected, the centre.
pub open spec fn rejection_result(draws: Seq<Vector3>) -> Point {
    if draws.len() > 0 && inside_unit_sphere(&draws.last()) {
        Point { x: draws.last().x, y: draws.last().y, z: draws.last().z }
    } else {
        Point::origin()
    }
}

/// The points of the cube `[-1, 1)³` that the draws of bits `bits` select,
/// three draws to a point.
pub open spec fn cube_points(bits: Seq<(u32, u32, u32)>) -> Seq<Vector3> {
    Seq::new(bits.len(), |i: int| cube_point(bits[i].0, bits[i].1, bits[i].2))
}

/// The points of the square `[-1, 1)²` that the draws of bits `bits`
/// select, two draws to a point.
pub open spec fn square_points(bits: Seq<(u32, u32)>) -> Seq<Vector3> {
    Seq::new(bits.len(), |i: int| square_point(bits[i].0, bits[i].1))
}

/// A random point strictly inside the unit sphere, by rejection: points of
/// the cube `[-1, 1)³` are drawn, three draws of random bits to a point,
/// until one lies inside, and that one is returned. After `MAX_DRAWS`
/// rejections in a row, which chance all but excludes, the centre is
/// returned.
pub fn random_in_unit_sphere() -> (p: Point)
    ensures
        inside_unit_sphere(&p.position()),
        exists|bits: Seq<(u32, u32, u32)>| #[trigger]
            rejection_run(cube_points(bits)) && p == rejection_result(cube_points(bits)),
{
    let mut draws: u32 = 0;
    let ghost mut bits: Seq<(u32, u32, u32)> = Seq::empty();
    while draws < MAX_DRAWS
        invariant
            draws <= MAX_DRAWS,
            bits.len() == draws,
            forall|i: int|
                0 <= i < bits.len() ==> !inside_unit_sphere(&#[trigger] cube_points(bits)[i]),
        decreases MAX_DRAWS - draws,
    {
        let bx = random_bits();
        let by = random_bits();
        let bz = random_bits();
        let c = cube_point(bx, by, bz);
        proof {
            let before = bits;
            bits = bits.push((bx, by, bz));
            assert(cube_points(bits).last() == c);
            assert forall|i: int| 0 <= i < before.len() implies cube_points(bits)[i]
                == cube_points(before)[i] by {
                assert(bits[i] == before[i]);
            }
        }
        if inside_unit_sphere(&c) {
            let p = Point { x: c.x, y: c.y, z: c.z };
            assert(rejection_run(cube_points(bits)) && p == rejection_result(cube_points(bits)));
            return p;
        }
        draws = draws + 1;
    }
    let p = Point::origin();
    proof {
        lemma_origin_inside();
        assert(rejection_run(cube_points(bits)) && p == rejection_result(cube_points(bits)));
    }
    p
}

/// The centre lies inside the unit sphere.
pub proof fn lemma_origin_inside()
    ensures
        inside_unit_sphere(&Point::origin().position()),
{
    let z = Fixed::whole(0);
    assert(z.raw * z.raw == 0) by (nonlinear_arith)
        requires
            z.raw == 0,
    ;
    assert(z.times(z) == z);
}

/// The least ray parameter at which a hit counts: a thousandth. A scattered
/// ray starts on the surface it left, and must not strike it at once.
pub open spec fn spec_shadow_bias() -> Fixed {
    Fixed::ratio(1, 1000)
}

/// The least ray parameter at which a hit counts.
#[verifier::when_used_as_spec(spec_shadow_bias)]
pub fn shadow_bias() -> (r: Fixed)
    ensures
        r == spec_shadow_bias(),
{
    Fixed::from_ratio(1, 1000)
}

/// The colour without light.
pub open spec fn black() -> Color {
    Color { r: Fixed::whole(0), g: Fixed::whole(0), b: Fixed::whole(0) }
}

/// The colour of the background straight below: white.
pub open spec fn white() -> Color {
    Color { r: Fixed::whole(1), g: Fixed::whole(1), b: Fixed::whole(1) }
}

/// The colour of the background straight above: a light blue.
pub open spec fn sky_blue() -> Color {
    Color { r: Fixed::ratio(1, 2), g: Fixed::ratio(7, 10), b: Fixed::whole(1) }
}

/// The weight of sky blue in the background behind `ray`: half of the sum
/// of one and the height of the normalised direction, so zero straight
/// below, a half at the horizon and one straight above.
pub open spec fn sky_weight(ray: &Ray) -> Fixed {
    Fixed::ratio(1, 2).times(ray.direction.normalize().y.plus(Fixed::whole(1)))
}

/// For a ray whose direction is at least `1/k` long, with its squared
/// length in range, the weight of sky blue lies between zero and one, give
/// or take `unit_excess(k)` steps of `2^-32`.
pub proof fn lemma_sky_weight_range(ray: &Ray, k: int)
    requires
        1 <= k <= 0x1000,
        ray.direction.length().raw * k >= SCALE,
        ray.direction.norm().raw < i64::MAX,
    ensures
        -unit_excess(k) <= sky_weight(ray).raw <= SCALE + unit_excess(k),
{
    lemma_normalize_near_unit(ray.direction, k);
    let e = unit_excess(k);
    assert(0 <= e <= 0x400_0000) by (nonlinear_arith)
        requires
            1 <= k <= 0x1000,
            e == 3 * k * k + 3 * k - 1,
    ;
    let y = ray.direction.normalize().y;
    let t = y.plus(Fixed::whole(1));
    assert(-e - 1 <= t.raw <= 2 * SCALE + e + 1);
    let half = Fixed::ratio(1, 2);
    assert(half.raw == 0x8000_0000);
    let n = t.raw as int;
    let h: int = 0x8000_0000;
    assert(half.raw * t.raw == h * n);
    if n >= 0 {
        assert((h * n) / (SCALE as int) <= SCALE + e && h * n >= 0) by (nonlinear_arith)
            requires
                0 <= n <= 2 * 0x1_0000_0000 + e + 1,
                h == 0x8000_0000,
                e >= 0,
                SCALE == 0x1_0000_0000,
        ;
        vstd::arithmetic::div_mod::lemma_div_pos_is_pos(h * n, SCALE as int);
    } else {
        assert((-(h * n)) / (SCALE as int) <= e && h * n < 0) by (nonlinear_arith)
            requires
                -e - 1 <= n < 0,
                h == 0x8000_0000,
                e >= 0,
                SCALE == 0x1_0000_0000,
        ;
        vstd::arithmetic::div_mod::lemma_div_pos_is_pos(-(h * n), SCALE as int);
    }
}

/// The background behind a ray that strikes nothing: white and sky blue
/// mixed by `sky_weight`.
pub open spec fn spec_background(ray: &Ray) -> Color {
    let t = sky_weight(ray);
    white().times(Fixed::whole(1).minus(t)).plus(sky_blue().times(t))
}

/// The background behind a ray that strikes nothing.
#[verifier::when_used_as_spec(spec_background)]
pub fn background(ray: &Ray) -> (c: Color)
    ensures
        c == spec_background(ray),
{
    let unit_direction = ray.direction.normalize();
    let t = Fixed::from_ratio(1, 2) * (unit_direction.y + Fixed::one());
    let white = Color { r: Fixed::one(), g: Fixed::one(), b: Fixed::one() };
    let light_blue = Color {
        r: Fixed::from_ratio(1, 2),
        g: Fixed::from_ratio(7, 10),
        b: Fixed::one(),
    };
    (Fixed::one() - t) * white + t * light_blue
}

/// The colour `col` with each channel multiplied by the matching component
/// of `attenuation`.
pub open spec fn spec_attenuated(col: Color, attenuation: Vector3) -> Color {
    Color {
        r: col.r.times(attenuation.x),
        g: col.g.times(attenuation.y),
        b: col.b.times(attenuation.z),
    }
}

/// The colour `col` attenuated channel by channel.
#[verifier::when_used_as_spec(spec_attenuated)]
pub fn attenuated(col: Color, attenuation: Vector3) -> (c: Color)
    ensures
        c == spec_attenuated(col, attenuation),
{
    Color { r: col.r * attenuation.x, g: col.g * attenuation.y, b: col.b * attenuation.z }
}

/// How many scatterings a ray that has undergone `depth` may still undergo.
pub open spec fn bounces_left(depth: nat) -> nat {
    if depth < MAX_DEPTH {
        (MAX_DEPTH - depth) as nat
    } else {
        0
    }
}

/// The radiance that arrives along `ray` in the scene `world`, when the
/// ray has been scattered `depth` times and the scatterings that follow
/// take their random input from `samples` in order.
///
/// A ray that strikes nothing brings the background. A ray that strikes a
/// surface after `MAX_DEPTH` scatterings, or is absorbed there, brings
/// black. Otherwise it brings what the scattered ray brings, attenuated.
pub open spec fn radiance<T: Hit>(world: &T, ray: &Ray, depth: nat, samples: Seq<Sample>) -> Color
    decreases bounces_left(depth),
{
    match world.spec_hit(ray, shadow_bias(), Fixed::greatest()) {
        None => background(ray),
        Some(rec) => if depth < MAX_DEPTH {
            match rec.material.spec_scatter(ray, &rec, &samples[0]) {
                Some(s) => attenuated(
                    radiance(world, &s.scattered, depth + 1, samples.drop_first()),
                    s.attenuation,
                ),
                None => black(),
            }
        } else {
            black()
        },
    }
}

/// A ray that has been scattered `MAX_DEPTH` times brings black from any
/// surface it strikes, and the background if it strikes none, whatever the
/// samples.
pub proof fn lemma_radiance_at_limit<T: Hit>(
    world: &T,
    ray: &Ray,
    depth: nat,
    samples: Seq<Sample>,
)
    requires
        depth >= MAX_DEPTH,
    ensures
        radiance(world, ray, depth, samples) == (if world.spec_hit(
            ray,
            shadow_bias(),
            Fixed::greatest(),
        ) is Some {
            black()
        } else {
            background(ray)
        }),
{
}

/// The radiance rests on no more samples than scatterings are left: two
/// sequences that agree on that many samples give the same radiance. So a
/// ray is followed through `MAX_DEPTH` scatterings at most.
pub proof fn lemma_radiance_bounded<T: Hit>(
    world: &T,
    ray: &Ray,
    depth: nat,
    a: Seq<Sample>,
    b: Seq<Sample>,
)
    requires
        a.len() >= bounces_left(depth),
        b.len() >= bounces_left(depth),
        forall|i: int| 0 <= i < bounces_left(depth) ==> a[i] == b[i],
    ensures
        radiance(world, ray, depth, a) == radiance(world, ray, depth, b),
    decreases bounces_left(depth),
{
    if depth < MAX_DEPTH {
        match world.spec_hit(ray, shadow_bias(), Fixed::greatest()) {
            Some(rec) => {
                assert(a[0] == b[0]);
                match rec.material.spec_scatter(ray, &rec, &a[0]) {
                    Some(s) => {
                        assert forall|i: int| 0 <= i < bounces_left(depth + 1) implies a.drop_first()[i]
                            == b.drop_first()[i] by {
                            assert(a[i + 1] == b[i + 1]);
                        }
                        lemma_radiance_bounded(
                            world,
                            &s.scattered,
                            depth + 1,
                            a.drop_first(),
                            b.drop_first(),
                        );
                    },
                    None => {},
                }
            },
            None => {},
        }
    }
}

/// Whether `samples` holds a valid sample for each scattering that a ray at
/// `depth` may still undergo.
pub open spec fn samples_for(depth: nat, samples: Seq<Sample>) -> bool {
    &&& samples.len() == bounces_left(depth)
    &&& forall|i: int| 0 <= i < samples.len() ==> (#[trigger] samples[i]).valid()
}

/// The radiance that arrives along `ray`, which has been scattered `depth`
/// times; a primary ray has depth zero. Each scattering draws its own
/// random sample, so the result is the `radiance` for some valid samples.
pub fn render_ray<T: Hit>(ray: &Ray, world: &T, depth: usize) -> (c: Color)
    ensures
        exists|samples: Seq<Sample>|
            samples_for(depth as nat, samples) && c == radiance(world, ray, depth as nat, samples),
        world.spec_hit(ray, shadow_bias(), Fixed::greatest()) is None ==> c == background(ray),
        world.spec_hit(ray, shadow_bias(), Fixed::greatest()) is Some && depth >= MAX_DEPTH ==> c
            == black(),
    decreases bounces_left(depth as nat),
{
    let ghost filler = Sample { offset: Point::origin(), chance: Fixed::whole(0) };
    let ghost padding = Seq::new(bounces_left(depth as nat), |i: int| filler);
    proof {
        lemma_origin_inside();
        assert(samples_for(depth as nat, padding));
    }
    match world.hit(ray, shadow_bias(), Fixed::max_value()) {
        Some(rec) => {
            if depth < MAX_DEPTH {
                match rec.material.scatter(ray, &rec) {
                    Some(s) => {
                        let col = render_ray(&s.scattered, world, depth + 1);
                        let c = attenuated(col, s.attenuation);
                        proof {
                            let sample = choose|sample: Sample|
                                sample.valid() && Some(s) == rec.material.spec_scatter(
                                    ray,
                                    &rec,
                                    &sample,
                                );
                            let next = (depth + 1) as nat;
                            let rest = choose|rest: Seq<Sample>|
                                #[trigger] samples_for(next, rest) && col == radiance(
                                    world,
                                    &s.scattered,
                                    next,
                                    rest,
                                );
                            let samples = seq![sample] + rest;
                            assert(samples.drop_first() == rest);
                            assert(samples_for(depth as nat, samples));
                            assert(c == radiance(world, ray, depth as nat, samples));
                        }
                        c
                    },
                    None => {
                        let c = Color { r: Fixed::zero(), g: Fixed::zero(), b: Fixed::zero() };
                        proof {
                            let sample = choose|sample: Sample|
                                sample.valid() && None::<crate::material::Scatter>
                                    == rec.material.spec_scatter(ray, &rec, &sample);
                            let samples = padding.update(0, sample);
                            assert(samples_for(depth as nat, samples));
                            assert(c == radiance(world, ray, depth as nat, samples));
                        }
                        c
                    },
                }
            } else {
                let c = Color { r: Fixed::zero(), g: Fixed::zero(), b: Fixed::zero() };
                assert(c == radiance(world, ray, depth as nat, padding));
                c
            }
        },
        None => {
            let c = background(ray);
            assert(c == radiance(world, ray, depth as nat, padding));
            c
        },
    }
}

} // verus!
