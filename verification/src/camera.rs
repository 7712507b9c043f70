//! The camera: viewport geometry, per-pixel sampling, recursive color
//! resolution, and assembly of the plain-text image.

use vstd::prelude::*;
use crate::fx::{
    FX_ONE, fxs_add, fxs_sub, fxs_mul, fxs_div, fxs_from_int, fx_add, fx_sub, fx_mul, fx_from_int,
};
use crate::vec3::{
    Vec3, V3, vadd, vsub, vscale, vdiv, vmul, vunit, vlen2, lemma_vlen_pos, lemma_vlen2_nonneg,
};
use crate::ray::{Ray, RayV};
use crate::interval::{Interval, IntervalV};
use crate::hittable::{HitV, Hittable};
use crate::material::scatter_outcome_valid;
use crate::color::{
    write_color, write_color_spec, push_decimal, dec_str, newline_count,
    lemma_newline_count_push, lemma_newline_count_concat, lemma_dec_str_no_newline,
    lemma_write_color_one_line,
};
use crate::utils::{random_scalar, INFINITY};

verus! {

/// Lower bound of the scene-scan interval, suppressing self-intersection
/// of scattered rays ("shadow acne"); about `0.001` at this scale.
pub const SHADOW_EPS: i64 = 66;

/// One half at this scale.
pub const FX_HALF: i64 = 32768;

/// Mathematical model of a camera and its derived viewport basis.
pub struct CameraV {
    pub aspect_ratio: int,
    pub image_width: int,
    pub samples_per_pixel: int,
    pub max_depth: int,
    pub image_height: int,
    pub center: V3,
    pub pixel00_loc: V3,
    pub pixel_delta_u: V3,
    pub pixel_delta_v: V3,
}

/// All camera state derived at construction: image height floored from
/// the nominal aspect ratio (at least one row), a viewport two world
/// units tall at focal length one, scaled by the actual image aspect
/// ratio, and the per-pixel step vectors and top-left pixel center.
pub open spec fn camera_spec(ar: int, iw: int, spp: int, depth: int) -> CameraV {
    let one = FX_ONE as int;
    let ih0 = (iw * one) / ar;
    let ih = if ih0 < 1 {
        1
    } else {
        ih0
    };
    let viewport_height = 2 * one;
    let viewport_width = fxs_mul(fxs_from_int(2), fxs_div(fxs_from_int(iw), fxs_from_int(ih)));
    let viewport_u = V3 { x: viewport_width, y: 0, z: 0 };
    let viewport_v = V3 { x: 0, y: -viewport_height, z: 0 };
    let pixel_delta_u = vdiv(viewport_u, fxs_from_int(iw));
    let pixel_delta_v = vdiv(viewport_v, fxs_from_int(ih));
    let center = V3 { x: 0, y: 0, z: 0 };
    let viewport_upper_left = vsub(
        vsub(vsub(center, V3 { x: 0, y: 0, z: one }), vdiv(viewport_u, fxs_from_int(2))),
        vdiv(viewport_v, fxs_from_int(2)),
    );
    let pixel00_loc = vadd(viewport_upper_left, vscale(vadd(pixel_delta_u, pixel_delta_v), FX_HALF as int));
    CameraV {
        aspect_ratio: ar,
        image_width: iw,
        samples_per_pixel: spp,
        max_depth: depth,
        image_height: ih,
        center,
        pixel00_loc,
        pixel_delta_u,
        pixel_delta_v,
    }
}

/// The ray through pixel column `i`, row `j`, offset inside the pixel by
/// the jitter `(px, py)` in pixel-step units.
pub open spec fn get_ray_spec(c: CameraV, i: int, j: int, px: int, py: int) -> RayV {
    let pixel_center = vadd(
        vadd(c.pixel00_loc, vscale(c.pixel_delta_u, fxs_from_int(i))),
        vscale(c.pixel_delta_v, fxs_from_int(j)),
    );
    let pixel_sample = vadd(
        pixel_center,
        vadd(vscale(c.pixel_delta_u, px), vscale(c.pixel_delta_v, py)),
    );
    RayV { orig: c.center, dir: vsub(pixel_sample, c.center) }
}

/// The forward half-line searched for intersections.
pub open spec fn shadow_interval() -> IntervalV {
    IntervalV { min: SHADOW_EPS as int, max: INFINITY as int }
}

/// The sky: a vertical white-to-blue gradient over the unit direction.
pub open spec fn background_spec(ray: RayV) -> V3 {
    let one = FX_ONE as int;
    let unit = vunit(ray.dir);
    let a = fxs_mul(fxs_add(unit.y, one), FX_HALF as int);
    vadd(
        vscale(V3 { x: one, y: one, z: one }, fxs_sub(one, a)),
        vscale(V3 { x: FX_HALF as int, y: 45875, z: one }, a),
    )
}

/// Everything resolving a ray's color can return: black at depth zero; on
/// a miss, the background gradient (black when the direction is too short
/// to normalize); on a hit, black when some admissible draw absorbs the
/// ray, or else the attenuation of some admissible scatter multiplied,
/// component-wise, by a recursively valid color of the scattered ray.
pub open spec fn ray_color_ok<H: Hittable>(world: &H, ray: RayV, depth: int, c: V3) -> bool
    decreases depth,
{
    if depth <= 0 {
        c == (V3 { x: 0, y: 0, z: 0 })
    } else {
        match world.hit_spec(ray, shadow_interval()) {
            None => if vlen2(ray.dir) >= 1 {
                c == background_spec(ray)
            } else {
                c == (V3 { x: 0, y: 0, z: 0 })
            },
            Some(h) => (scatter_outcome_valid(h.material, ray, h, None) && c == (V3 {
                x: 0,
                y: 0,
                z: 0,
            })) || exists|att: V3, sc: RayV|
                #[trigger] scatter_outcome_valid(h.material, ray, h, Some((att, sc))) && exists|
                    sub: V3,
                |
                    ray_color_ok(world, sc, depth - 1, sub) && c == #[trigger] vmul(att, sub),
        }
    }
}

/// A ray whose hit was absorbed resolves to black.
proof fn lemma_ray_color_ok_absorbed<H: Hittable>(world: &H, ray: RayV, depth: int, h: HitV)
    requires
        depth > 0,
        world.hit_spec(ray, shadow_interval()) == Some(h),
        scatter_outcome_valid(h.material, ray, h, None),
    ensures
        ray_color_ok(world, ray, depth, V3 { x: 0, y: 0, z: 0 }),
{
}

/// A ray whose hit scattered resolves to the attenuation times any
/// recursively valid color of the scattered ray.
proof fn lemma_ray_color_ok_scattered<H: Hittable>(
    world: &H,
    ray: RayV,
    depth: int,
    h: HitV,
    att: V3,
    sc: RayV,
    sub: V3,
)
    requires
        depth > 0,
        world.hit_spec(ray, shadow_interval()) == Some(h),
        scatter_outcome_valid(h.material, ray, h, Some((att, sc))),
        ray_color_ok(world, sc, depth - 1, sub),
    ensures
        ray_color_ok(world, ray, depth, vmul(att, sub)),
{
    let c = vmul(att, sub);
    assert(exists|s: V3| ray_color_ok(world, sc, depth - 1, s) && c == #[trigger] vmul(att, s));
}

/// The `P3` header of the output image.
pub open spec fn header_spec(c: CameraV) -> Seq<char> {
    seq!['P', '3', '\n'] + dec_str(c.image_width) + seq![' '] + dec_str(c.image_height) + seq![
        '\n',
        '2',
        '5',
        '5',
        '\n',
    ]
}

/// The pixel text of an image: one `write_color_spec` line per pixel, in
/// sequence order.
pub open spec fn pixel_rows(pix: Seq<V3>, samples_per_pixel: int) -> Seq<char>
    decreases pix.len(),
{
    if pix.len() == 0 {
        Seq::<char>::empty()
    } else {
        pixel_rows(pix.drop_last(), samples_per_pixel) + write_color_spec(
            pix.last(),
            samples_per_pixel,
        )
    }
}

/// The header holds exactly three newlines.
proof fn lemma_header_newlines(c: CameraV)
    requires
        c.image_width >= 0,
        c.image_height >= 0,
    ensures
        newline_count(header_spec(c)) == 3,
{
    let e = Seq::<char>::empty();
    let p3 = seq!['P', '3', '\n'];
    assert(p3 =~= e.push('P').push('3').push('\n'));
    lemma_newline_count_push(e, 'P');
    lemma_newline_count_push(e.push('P'), '3');
    lemma_newline_count_push(e.push('P').push('3'), '\n');
    let tail = seq!['\n', '2', '5', '5', '\n'];
    assert(tail =~= e.push('\n').push('2').push('5').push('5').push('\n'));
    lemma_newline_count_push(e, '\n');
    lemma_newline_count_push(e.push('\n'), '2');
    lemma_newline_count_push(e.push('\n').push('2'), '5');
    lemma_newline_count_push(e.push('\n').push('2').push('5'), '5');
    lemma_newline_count_push(e.push('\n').push('2').push('5').push('5'), '\n');
    let ws = dec_str(c.image_width);
    let hs = dec_str(c.image_height);
    lemma_dec_str_no_newline(c.image_width);
    lemma_dec_str_no_newline(c.image_height);
    assert(seq![' '].drop_last() =~= e);
    lemma_newline_count_concat(p3, ws);
    lemma_newline_count_concat(p3 + ws, seq![' ']);
    lemma_newline_count_concat(p3 + ws + seq![' '], hs);
    lemma_newline_count_concat(p3 + ws + seq![' '] + hs, tail);
}

pub struct Camera {
    aspect_ratio: i64,
    image_width: i32,
    samples_per_pixel: i32,
    max_depth: u32,
    image_height: i32,
    center: Vec3,
    pixel00_loc: Vec3,
    pixel_delta_u: Vec3,
    pixel_delta_v: Vec3,
}

impl View for Camera {
    type V = CameraV;

    closed spec fn view(&self) -> CameraV {
        CameraV {
            aspect_ratio: self.aspect_ratio as int,
            image_width: self.image_width as int,
            samples_per_pixel: self.samples_per_pixel as int,
            max_depth: self.max_depth as int,
            image_height: self.image_height as int,
            center: self.center@,
            pixel00_loc: self.pixel00_loc@,
            pixel_delta_u: self.pixel_delta_u@,
            pixel_delta_v: self.pixel_delta_v@,
        }
    }
}

impl Camera {
    #[verifier::type_invariant]
    spec fn wf(self) -> bool {
        1 <= self.image_width && 1 <= self.image_height <= 0x4000000 && 1
            <= self.samples_per_pixel
    }

    /// Derive the viewport basis. The sample count defaults to ten and
    /// the recursion depth to ten until a caller sets them.
    fn initialize(width: i32, aspect_ratio: i64) -> (r: Camera)
        requires
            1 <= width <= 65536,
            aspect_ratio >= 64,
        ensures
            r@ == camera_spec(aspect_ratio as int, width as int, 10, 10),
            1 <= r@.image_height <= 0x4000000,
    {
        let one_u = FX_ONE as u64;
        let scaled = (width as u64) * one_u;
        let ih0 = scaled / (aspect_ratio as u64);
        proof {
            vstd::arithmetic::div_mod::lemma_div_is_ordered_by_denominator(
                scaled as int,
                64,
                aspect_ratio as int,
            );
            vstd::arithmetic::div_mod::lemma_div_is_ordered(
                scaled as int,
                0x100000000,
                64,
            );
            assert(ih0 <= 0x4000000);
        }
        let image_height: i32 = if ih0 < 1 {
            1
        } else {
            ih0 as i32
        };
        let viewport_height: i64 = 2 * FX_ONE;
        let width_fx = fx_from_int(width as i64);
        let height_fx = fx_from_int(image_height as i64);
        let two_fx = fx_from_int(2);
        let viewport_width = fx_mul(two_fx, crate::fx::fx_div(width_fx, height_fx));
        let camera_center = Vec3::new(0, 0, 0);
        let viewport_u = Vec3::new(viewport_width, 0, 0);
        let viewport_v = Vec3::new(0, -viewport_height, 0);
        let pixel_delta_u = viewport_u.div(width_fx);
        let pixel_delta_v = viewport_v.div(height_fx);
        let viewport_upper_left = Vec3::sub(
            Vec3::sub(Vec3::sub(camera_center, Vec3::new(0, 0, FX_ONE)), viewport_u.div(two_fx)),
            viewport_v.div(two_fx),
        );
        let pixel00_loc = Vec3::add(
            viewport_upper_left,
            Vec3::add(pixel_delta_u, pixel_delta_v).scale(FX_HALF),
        );
        Camera {
            aspect_ratio,
            image_width: width,
            samples_per_pixel: 10,
            max_depth: 10,
            image_height,
            center: camera_center,
            pixel00_loc,
            pixel_delta_u,
            pixel_delta_v,
        }
    }

    /// A camera over a `width`-pixel image with the given nominal aspect
    /// ratio, sample count and recursion depth.
    pub fn new(aspect_ratio: i64, image_width: i32, samples_per_pixel: i32, max_depth: u32) -> (r:
        Camera)
        requires
            1 <= image_width <= 65536,
            aspect_ratio >= 64,
            samples_per_pixel >= 1,
        ensures
            r@ == camera_spec(
                aspect_ratio as int,
                image_width as int,
                samples_per_pixel as int,
                max_depth as int,
            ),
    {
        let mut s = Self::initialize(image_width, aspect_ratio);
        s.samples_per_pixel = samples_per_pixel;
        s.max_depth = max_depth;
        s
    }

    pub fn image_width(&self) -> (r: i32)
        ensures
            r as int == self@.image_width,
    {
        self.image_width
    }

    pub fn image_height(&self) -> (r: i32)
        ensures
            r as int == self@.image_height,
    {
        self.image_height
    }

    pub fn samples_per_pixel(&self) -> (r: i32)
        ensures
            r as int == self@.samples_per_pixel,
    {
        self.samples_per_pixel
    }

    pub fn max_depth(&self) -> (r: u32)
        ensures
            r as int == self@.max_depth,
    {
        self.max_depth
    }

    /// The ray through pixel `(i, j)` at an explicit in-pixel offset;
    /// deterministic, for callers that supply their own jitter.
    pub fn get_ray_at(&self, i: i32, j: i32, px: i64, py: i64) -> (r: Ray)
        ensures
            r@ == get_ray_spec(self@, i as int, j as int, px as int, py as int),
    {
        let pixel_center = Vec3::add(
            Vec3::add(self.pixel00_loc, self.pixel_delta_u.scale(fx_from_int(i as i64))),
            self.pixel_delta_v.scale(fx_from_int(j as i64)),
        );
        let pixel_sample = Vec3::add(
            pixel_center,
            Vec3::add(self.pixel_delta_u.scale(px), self.pixel_delta_v.scale(py)),
        );
        let ray_origin = self.center;
        let ray_direction = Vec3::sub(pixel_sample, ray_origin);
        Ray::new(ray_origin, ray_direction)
    }

    /// A uniformly random offset within one pixel's footprint.
    fn pixel_sample_square(&self) -> (r: Vec3)
        ensures
            exists|px: int, py: int|
                -(FX_HALF as int) <= px < FX_HALF as int && -(FX_HALF as int) <= py
                    < FX_HALF as int && r@ == vadd(
                    vscale(self@.pixel_delta_u, px),
                    vscale(self@.pixel_delta_v, py),
                ),
    {
        let px = fx_add(-FX_HALF, random_scalar());
        let py = fx_add(-FX_HALF, random_scalar());
        let r = Vec3::add(self.pixel_delta_u.scale(px), self.pixel_delta_v.scale(py));
        proof {
            assert(r@ == vadd(
                vscale(self@.pixel_delta_u, px as int),
                vscale(self@.pixel_delta_v, py as int),
            ));
        }
        r
    }

    /// A jittered sample ray through pixel `(i, j)`.
    pub fn get_ray(&self, i: i32, j: i32) -> (r: Ray)
        ensures
            exists|px: int, py: int|
                -(FX_HALF as int) <= px < FX_HALF as int && -(FX_HALF as int) <= py
                    < FX_HALF as int && r@ == get_ray_spec(self@, i as int, j as int, px, py),
    {
        let pixel_center = Vec3::add(
            Vec3::add(self.pixel00_loc, self.pixel_delta_u.scale(fx_from_int(i as i64))),
            self.pixel_delta_v.scale(fx_from_int(j as i64)),
        );
        let square = self.pixel_sample_square();
        let pixel_sample = Vec3::add(pixel_center, square);
        let ray_origin = self.center;
        let ray_direction = Vec3::sub(pixel_sample, ray_origin);
        let r = Ray::new(ray_origin, ray_direction);
        proof {
            let (px, py) = choose|px: int, py: int|
                -(FX_HALF as int) <= px < FX_HALF as int && -(FX_HALF as int) <= py
                    < FX_HALF as int && square@ == vadd(
                    vscale(self@.pixel_delta_u, px),
                    vscale(self@.pixel_delta_v, py),
                );
            assert(r@ == get_ray_spec(self@, i as int, j as int, px, py));
        }
        r
    }

    /// Resolve a ray's color through the scene. Depth zero contributes
    /// black; a miss returns the sky gradient (black for a direction too
    /// short to normalize); a hit recurses through the material's
    /// scattering with one less depth, multiplying by the attenuation:
    /// the result is always a recursively valid color of the ray.
    pub fn ray_color<H: Hittable>(ray: Ray, world: &H, depth: u32) -> (r: Vec3)
        ensures
            ray_color_ok(world, ray@, depth as int, r@),
            depth == 0 ==> r@ == (V3 { x: 0, y: 0, z: 0 }),
            depth > 0 && world.hit_spec(ray@, shadow_interval()) is None && vlen2(ray@.dir) >= 1
                ==> r@ == background_spec(ray@),
            depth > 0 && world.hit_spec(ray@, shadow_interval()) is None && vlen2(ray@.dir) < 1
                ==> r@ == (V3 { x: 0, y: 0, z: 0 }),
        decreases depth,
    {
        if depth == 0 {
            return Vec3::new(0, 0, 0);
        }
        let itv = Interval::new(SHADOW_EPS, INFINITY);
        match world.hit(&ray, &itv) {
            Some(hit) => {
                let scat = hit.material.scatter(&ray, &hit);
                match scat {
                    Some((attenuation, scattered)) => {
                        let sub = Self::ray_color(scattered, world, depth - 1);
                        let r = Vec3::mul(attenuation, sub);
                        proof {
                            lemma_ray_color_ok_scattered(
                                world,
                                ray@,
                                depth as int,
                                hit@,
                                attenuation@,
                                scattered@,
                                sub@,
                            );
                        }
                        r
                    },
                    None => {
                        proof {
                            lemma_ray_color_ok_absorbed(world, ray@, depth as int, hit@);
                        }
                        Vec3::new(0, 0, 0)
                    },
                }
            },
            None => {
                let lsq = ray.direction().length_squared();
                if lsq == 0 {
                    return Vec3::new(0, 0, 0);
                }
                proof {
                    lemma_vlen2_nonneg(ray@.dir);
                    lemma_vlen_pos(ray@.dir);
                }
                let unit_direction = Vec3::unit_vector(ray.direction());
                let a = fx_mul(fx_add(unit_direction.y(), FX_ONE), FX_HALF);
                Vec3::add(
                    Vec3::new(FX_ONE, FX_ONE, FX_ONE).scale(fx_sub(FX_ONE, a)),
                    Vec3::new(FX_HALF, 45875, FX_ONE).scale(a),
                )
            },
        }
    }

    /// Render the whole image: the `P3` header, then one `r g b` line per
    /// pixel, row-major, top to bottom, each pixel averaged over the
    /// camera's sample count.
    pub fn render<H: Hittable>(&self, world: &H) -> (s: String)
        ensures
            header_spec(self@).is_prefix_of(s@),
            newline_count(s@) == 3 + self@.image_height * self@.image_width,
            exists|pix: Seq<V3>|
                pix.len() == self@.image_height * self@.image_width && s@ == header_spec(self@)
                    + #[trigger] pixel_rows(pix, self@.samples_per_pixel),
    {
        proof {
            use_type_invariant(self);
        }
        let mut ppm_file = String::new();
        ppm_file.append("P3\n");
        push_decimal(&mut ppm_file, self.image_width as u64);
        ppm_file.append(" ");
        push_decimal(&mut ppm_file, self.image_height as u64);
        ppm_file.append("\n255\n");
        proof {
            reveal_strlit("P3\n");
            reveal_strlit(" ");
            reveal_strlit("\n255\n");
            assert(ppm_file@ =~= header_spec(self@));
            lemma_header_newlines(self@);
        }
        let ghost hdr = ppm_file@;
        let ghost mut pix: Seq<V3> = Seq::empty();
        proof {
            assert(hdr + pixel_rows(pix, self@.samples_per_pixel) =~= ppm_file@);
        }
        let mut i: i32 = 0;
        while i < self.image_height
            invariant
                hdr == header_spec(self@),
                hdr.is_prefix_of(ppm_file@),
                0 <= i <= self@.image_height,
                self@.image_height <= 0x4000000,
                self@.image_width >= 1,
                self@.samples_per_pixel >= 1,
                newline_count(ppm_file@) == 3 + i as int * self@.image_width,
                pix.len() == i as int * self@.image_width,
                ppm_file@ == hdr + pixel_rows(pix, self@.samples_per_pixel),
            decreases self@.image_height - i,
        {
            let mut j: i32 = 0;
            while j < self.image_width
                invariant
                    hdr == header_spec(self@),
                    hdr.is_prefix_of(ppm_file@),
                    0 <= j <= self@.image_width,
                    self@.image_width <= 0x7fffffff,
                    self@.samples_per_pixel >= 1,
                    newline_count(ppm_file@) == 3 + i as int * self@.image_width + j as int,
                    pix.len() == i as int * self@.image_width + j as int,
                    ppm_file@ == hdr + pixel_rows(pix, self@.samples_per_pixel),
                decreases self@.image_width - j,
            {
                let mut pixel_color = Vec3::new(0, 0, 0);
                let mut sample: i32 = 0;
                while sample < self.samples_per_pixel
                    invariant
                        0 <= sample <= self@.samples_per_pixel,
                        self@.samples_per_pixel <= 0x7fffffff,
                    decreases self@.samples_per_pixel - sample,
                {
                    let r = self.get_ray(j, i);
                    pixel_color.add_assign(Self::ray_color(r, world, self.max_depth));
                    sample = sample + 1;
                }
                let line = write_color(pixel_color, self.samples_per_pixel);
                let ghost before = ppm_file@;
                let ghost before_pix = pix;
                ppm_file.append(line.as_str());
                proof {
                    assert(ppm_file@.subrange(0, hdr.len() as int) =~= before.subrange(
                        0,
                        hdr.len() as int,
                    ));
                    lemma_newline_count_concat(before, line@);
                    lemma_write_color_one_line(pixel_color@, self@.samples_per_pixel);
                    pix = pix.push(pixel_color@);
                    assert(pix.drop_last() =~= before_pix);
                    assert(pixel_rows(pix, self@.samples_per_pixel) == pixel_rows(
                        before_pix,
                        self@.samples_per_pixel,
                    ) + write_color_spec(pixel_color@, self@.samples_per_pixel));
                    assert(ppm_file@ =~= hdr + pixel_rows(pix, self@.samples_per_pixel));
                }
                j = j + 1;
            }
            proof {
                assert(i as int * self@.image_width + self@.image_width == (i as int + 1)
                    * self@.image_width) by (nonlinear_arith);
            }
            i = i + 1;
        }
        proof {
            assert(pix.len() == self@.image_height * self@.image_width && ppm_file@ == header_spec(
                self@,
            ) + pixel_rows(pix, self@.samples_per_pixel));
        }
        ppm_file
    }
}

} // verus!
