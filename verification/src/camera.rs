//! The camera: from a position on the image to a ray into the scene.

use crate::fixed::Fixed;
use crate::point::Point;
use crate::ray::Ray;
use crate::util::{
    inside_unit_sphere, lemma_origin_inside, random_bits, rejection_result, rejection_run,
    square_point, square_points, MAX_DRAWS,
};
use crate::vector::Vector3;
use core::ops::Neg;
use vstd::prelude::*;

verus! {

/// A thin-lens camera. It is fixed by its construction and has no state
/// that changes.
pub struct Camera {
    origin: Point,
    start: Vector3,
    horizontal: Vector3,
    vertical: Vector3,
    u: Vector3,
    v: Vector3,
    lens_radius: Fixed,
}

/// The third axis of the camera's frame: the unit vector from the point
/// looked at to the camera.
pub open spec fn frame_w(origin: Point, look_at: Point) -> Vector3 {
    origin.minus(look_at).normalize()
}

/// The first axis of the camera's frame: the unit vector along `v_up × w`.
pub open spec fn frame_u(origin: Point, look_at: Point, v_up: Vector3) -> Vector3 {
    v_up.cross(&frame_w(origin, look_at)).normalize()
}

/// The second axis of the camera's frame: `u × w`.
pub open spec fn frame_v(origin: Point, look_at: Point, v_up: Vector3) -> Vector3 {
    frame_u(origin, look_at, v_up).cross(&frame_w(origin, look_at))
}

/// Whether a camera can stand at `origin`, look at `look_at` and hold
/// `v_up` upward: the two points differ, and `v_up` is not along the line
/// of sight.
pub open spec fn spec_sighted(origin: Point, look_at: Point, v_up: Vector3) -> bool {
    &&& origin.minus(look_at).length().raw > 0
    &&& v_up.cross(&frame_w(origin, look_at)).length().raw > 0
}

/// Whether a camera can stand at `origin`, look at `look_at` and hold
/// `v_up` upward.
#[verifier::when_used_as_spec(spec_sighted)]
pub fn sighted(origin: Point, look_at: Point, v_up: Vector3) -> (b: bool)
    ensures
        b == spec_sighted(origin, look_at, v_up),
{
    let back = origin - look_at;
    back.length().raw > 0 && v_up.cross(&back.normalize()).length().raw > 0
}

impl Camera {
    /// The position of the camera.
    pub closed spec fn spec_origin(&self) -> Point {
        self.origin
    }

    /// The vector from the camera to the corner of the image at `(0, 0)`.
    pub closed spec fn spec_start(&self) -> Vector3 {
        self.start
    }

    /// The vector along the image from `s = 0` to `s = 1`.
    pub closed spec fn spec_horizontal(&self) -> Vector3 {
        self.horizontal
    }

    /// The vector along the image from `t = 0` to `t = 1`.
    pub closed spec fn spec_vertical(&self) -> Vector3 {
        self.vertical
    }

    /// The first axis of the frame, along the lens and the image.
    pub closed spec fn spec_u(&self) -> Vector3 {
        self.u
    }

    /// The second axis of the frame, along the lens and the image.
    pub closed spec fn spec_v(&self) -> Vector3 {
        self.v
    }

    /// The radius of the lens: half the aperture.
    pub closed spec fn spec_lens_radius(&self) -> Fixed {
        self.lens_radius
    }

    /// The camera at `origin` that looks at `look_at` with `v_up` upward.
    ///
    /// `half_height` is the tangent of half the vertical field of view and
    /// `aspect_ratio` the width of the image over its height. The lens has
    /// diameter `aperture`; what lies at `focus_dist` is in focus.
    ///
    /// The image plane stands at `focus_dist` before the camera. `start`
    /// leads from the camera to the corner of the image at `(0, 0)`, on the
    /// negative side of both `u` and `v`; `horizontal` and `vertical` span
    /// the image from there.
    pub fn new(
        origin: Point,
        look_at: Point,
        v_up: Vector3,
        half_height: Fixed,
        aspect_ratio: Fixed,
        aperature: Fixed,
        focus_dist: Fixed,
    ) -> (cam: Camera)
        requires
            sighted(origin, look_at, v_up),
        ensures
            cam.origin() == origin,
            cam.u() == frame_u(origin, look_at, v_up),
            cam.v() == frame_v(origin, look_at, v_up),
            cam.lens_radius() == aperature.over(Fixed::whole(2)),
            cam.start() == cam.u().times(half_height.times(aspect_ratio)).plus(
                cam.v().times(half_height),
            ).negated().minus(frame_w(origin, look_at)).times(focus_dist),
            cam.horizontal() == cam.u().times(
                Fixed::whole(2).times(half_height.times(aspect_ratio)).times(focus_dist),
            ),
            cam.vertical() == cam.v().times(
                Fixed::whole(2).times(half_height).times(focus_dist),
            ),
    {
        let lens_radius = aperature / Fixed::from_int(2);
        let half_width = half_height * aspect_ratio;
        let w = (origin - look_at).normalize();
        let u = v_up.cross(&w).normalize();
        let v = u.cross(&w);
        let start = focus_dist * ((half_width * u + half_height * v).neg() - w);
        let horizontal = Fixed::from_int(2) * half_width * focus_dist * u;
        let vertical = Fixed::from_int(2) * half_height * focus_dist * v;
        Camera { origin, start, horizontal, vertical, u, v, lens_radius }
    }

    /// The position of the camera.
    #[verifier::when_used_as_spec(spec_origin)]
    pub fn origin(&self) -> (r: Point)
        ensures
            r == self.spec_origin(),
    {
        self.origin
    }

    /// The vector from the camera to the corner of the image at `(0, 0)`.
    #[verifier::when_used_as_spec(spec_start)]
    pub fn start(&self) -> (r: Vector3)
        ensures
            r == self.spec_start(),
    {
        self.start
    }

    /// The vector along the image from `s = 0` to `s = 1`.
    #[verifier::when_used_as_spec(spec_horizontal)]
    pub fn horizontal(&self) -> (r: Vector3)
        ensures
            r == self.spec_horizontal(),
    {
        self.horizontal
    }

    /// The vector along the image from `t = 0` to `t = 1`.
    #[verifier::when_used_as_spec(spec_vertical)]
    pub fn vertical(&self) -> (r: Vector3)
        ensures
            r == self.spec_vertical(),
    {
        self.vertical
    }

    /// The first axis of the frame, along the lens and the image.
    #[verifier::when_used_as_spec(spec_u)]
    pub fn u(&self) -> (r: Vector3)
        ensures
            r == self.spec_u(),
    {
        self.u
    }

    /// The second axis of the frame, along the lens and the image.
    #[verifier::when_used_as_spec(spec_v)]
    pub fn v(&self) -> (r: Vector3)
        ensures
            r == self.spec_v(),
    {
        self.v
    }

    /// The radius of the lens: half the aperture.
    #[verifier::when_used_as_spec(spec_lens_radius)]
    pub fn lens_radius(&self) -> (r: Fixed)
        ensures
            r == self.spec_lens_radius(),
    {
        self.lens_radius
    }

    /// How far, and which way, the lens point `lens` of the unit disc lies
    /// from the centre of the lens.
    pub open spec fn lens_offset(&self, lens: &Point) -> Vector3 {
        let lens_pt = lens.times(self.lens_radius());
        self.u().times(lens_pt.x).plus(self.v().times(lens_pt.y))
    }

    /// The ray through the lens point `lens` toward the position `(s, t)` of
    /// the image, where `s` and `t` run from zero to one across it.
    pub open spec fn ray_through(&self, s: Fixed, t: Fixed, lens: &Point) -> Ray {
        let offset = self.lens_offset(lens);
        Ray {
            origin: self.origin().moved(offset),
            direction: self.start().plus(self.horizontal().times(s)).plus(
                self.vertical().times(t),
            ).minus(offset),
        }
    }

    /// The ray through the lens point `lens` toward the position `(s, t)` of
    /// the image.
    pub fn get_ray_with(&self, s: Fixed, t: Fixed, lens: &Point) -> (r: Ray)
        ensures
            r == self.ray_through(s, t, lens),
    {
        let lens_pt = self.lens_radius * *lens;
        let offset = self.u * lens_pt.x + self.v * lens_pt.y;
        Ray {
            origin: self.origin + offset,
            direction: self.start + s * self.horizontal + t * self.vertical - offset,
        }
    }

    /// The ray toward the position `(s, t)` of the image, through a random
    /// point of the lens if the lens has a positive radius, else through
    /// its centre.
    pub fn get_ray(&self, s: Fixed, t: Fixed) -> (r: Ray)
        ensures
            exists|lens: Point| in_unit_disc(&lens) && r == self.ray_through(s, t, &lens),
            self.lens_radius().raw <= 0 ==> r == self.ray_through(s, t, &Point::origin()),
    {
        let lens = if self.lens_radius.raw > 0 {
            random_in_unit_disc()
        } else {
            proof {
                lemma_origin_inside();
            }
            Point::origin()
        };
        let r = self.get_ray_with(s, t, &lens);
        assert(in_unit_disc(&lens) && r == self.ray_through(s, t, &lens));
        r
    }
}

/// Whether `p` lies in the plane `z = 0`, strictly inside the unit circle.
pub open spec fn in_unit_disc(p: &Point) -> bool {
    p.z.raw == 0 && inside_unit_sphere(&p.position())
}

/// A random point of the unit disc in the plane `z = 0`, by rejection:
/// points of the square `[-1, 1)²` are drawn, two draws of random bits to a
/// point, until one lies inside the unit circle, and that one is returned.
/// After `MAX_DRAWS` rejections in a row, which chance all but excludes,
/// the centre is returned.
pub fn random_in_unit_disc() -> (p: Point)
    ensures
        in_unit_disc(&p),
        exists|bits: Seq<(u32, u32)>| #[trigger]
            rejection_run(square_points(bits)) && p == rejection_result(square_points(bits)),
{
    let mut draws: u32 = 0;
    let ghost mut bits: Seq<(u32, u32)> = Seq::empty();
    while draws < MAX_DRAWS
        invariant
            draws <= MAX_DRAWS,
            bits.len() == draws,
            forall|i: int|
                0 <= i < bits.len() ==> !inside_unit_sphere(&#[trigger] square_points(bits)[i]),
        decreases MAX_DRAWS - draws,
    {
        let bx = random_bits();
        let by = random_bits();
        let c = square_point(bx, by);
        proof {
            let before = bits;
            bits = bits.push((bx, by));
            assert(square_points(bits).last() == c);
            assert forall|i: int| 0 <= i < before.len() implies square_points(bits)[i]
                == square_points(before)[i] by {
                assert(bits[i] == before[i]);
            }
        }
        if inside_unit_sphere(&c) {
            let p = Point { x: c.x, y: c.y, z: c.z };
            assert(rejection_run(square_points(bits)) && p == rejection_result(
                square_points(bits),
            ));
            return p;
        }
        draws = draws + 1;
    }
    let p = Point::origin();
    proof {
        lemma_origin_inside();
        assert(rejection_run(square_points(bits)) && p == rejection_result(square_points(bits)));
    }
    p
}

} // verus!
