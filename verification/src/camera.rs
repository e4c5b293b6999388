//! The camera: pose, projection mode, viewport geometry and the framebuffer.

use vstd::prelude::*;
use crate::fx::{absi, bnd, clamp_s, fmul, qz, CAMB, DIRB, MAXC, RAYB, SCALE, lemma_mul_mag,
    lemma_qz_mag, lemma_qz_mag_le, lemma_sqrt_floor_pos, divq, fmul_x, clamp_x, wmul};
use crate::vec3::{
    Vec3, vbnd, dot_raw, dot_s, minus_s, neg_s, norm2, normalize_s, cross_s, plus_s, scale_s,
    length_s, clamp_vs, lemma_dot_fits, lemma_cross_fits, lemma_norm2_nonneg, VLIM,
};
use crate::mat4::{Matrix4, mbnd4, xform_dir_s, xform_point_s, TRB};
use crate::transform::{rotation_around_axis, conjugate_s, rodrigues_s};
use crate::ray::{Ray, ray_ok};

verus! {

#[derive(Clone, Copy, PartialEq, Eq, Structural, Debug)]
pub enum Projection {
    Perspective,
    Ortographic,
    Oblique,
}

pub struct Viewport {
    /// World-space center of the viewport.
    pub pos: Vec3,
    pub width: i64,
    pub height: i64,
    pub cols: u32,
    pub rows: u32,
    /// World-space step between horizontally adjacent pixel centers.
    pub dx: Vec3,
    /// World-space step between vertically adjacent pixel centers.
    pub dy: Vec3,
    pub top_left_coords: Vec3,
    /// World-space center of the top-left pixel.
    pub p00: Vec3,
}

pub open spec fn viewport_ok(v: &Viewport) -> bool {
    &&& 1 <= v.cols <= 4096
    &&& 1 <= v.rows <= 4096
    &&& 0 < v.width <= MAXC
    &&& 0 < v.height <= MAXC
    &&& vbnd(v.pos, CAMB as int)
    &&& vbnd(v.top_left_coords, CAMB as int)
    &&& vbnd(v.p00, CAMB as int)
    &&& vbnd(v.dx, MAXC as int)
    &&& vbnd(v.dy, MAXC as int)
    &&& bnd(v.dx.x * v.cols, MAXC as int)
    &&& bnd(v.dx.y * v.cols, MAXC as int)
    &&& bnd(v.dx.z * v.cols, MAXC as int)
    &&& bnd(v.dy.x * v.rows, MAXC as int)
    &&& bnd(v.dy.y * v.rows, MAXC as int)
    &&& bnd(v.dy.z * v.rows, MAXC as int)
}

/// The derived viewport geometry: the top-left corner is
/// half the size away from the center, the steps split the size by the grid,
/// and the first pixel center is half a step in from the corner.
pub open spec fn viewport_new_s(pos: Vec3, width: i64, height: i64, cols: u32, rows: u32)
    -> Viewport {
    let tl = Vec3 {
        x: (pos.x - qz(width as int, 2)) as i64,
        y: (pos.y + qz(height as int, 2)) as i64,
        z: pos.z,
    };
    let dx = Vec3 { x: qz(width as int, cols as int) as i64, y: 0, z: 0 };
    let dy = Vec3 { x: 0, y: qz(height as int, rows as int) as i64, z: 0 };
    let p00 = Vec3 {
        x: (tl.x + qz(dx.x as int, 2)) as i64,
        y: (tl.y - qz(dy.y as int, 2)) as i64,
        z: tl.z,
    };
    Viewport { pos, width, height, cols, rows, dx, dy, top_left_coords: tl, p00 }
}

/// Splitting a nonnegative size by a positive count keeps the product of
/// step and count below the size.
pub proof fn lemma_split_step(w: int, n: int)
    requires
        0 <= w,
        1 <= n,
    ensures
        0 <= qz(w, n) <= w,
        qz(w, n) * n <= w,
{
    vstd::arithmetic::div_mod::lemma_fundamental_div_mod(w, n);
    assert(0 <= w % n < n);
    assert(qz(w, n) == w / n);
    assert(w / n >= 0) by {
        vstd::arithmetic::div_mod::lemma_div_pos_is_pos(w, n);
    }
    assert(w / n <= w) by {
        vstd::arithmetic::div_mod::lemma_div_nonincreasing(w, n);
    }
    assert((w / n) * n == n * (w / n)) by {
        vstd::arithmetic::mul::lemma_mul_is_commutative(w / n, n);
    }
}

impl Viewport {
    /// Constructor; the corner, steps and first pixel center are derived.
    #[verifier::rlimit(60)]
    pub fn new(pos: Vec3, width: i64, height: i64, cols: u32, rows: u32) -> (r: Viewport)
        requires
            vbnd(pos, CAMB as int - MAXC as int),
            0 < width <= MAXC,
            0 < height <= MAXC,
            1 <= cols <= 4096,
            1 <= rows <= 4096,
        ensures
            r == viewport_new_s(pos, width, height, cols, rows),
            viewport_ok(&r),
    {
        proof {
            lemma_split_step(width as int, 2);
            lemma_split_step(height as int, 2);
            lemma_split_step(width as int, cols as int);
            lemma_split_step(height as int, rows as int);
            lemma_split_step(qz(width as int, cols as int), 2);
            lemma_split_step(qz(height as int, rows as int), 2);
            assert(qz(width as int, cols as int) * (cols as int) >= 0) by (nonlinear_arith)
                requires
                    qz(width as int, cols as int) >= 0,
                    cols >= 1,
            ;
            assert(qz(height as int, rows as int) * (rows as int) >= 0) by (nonlinear_arith)
                requires
                    qz(height as int, rows as int) >= 0,
                    rows >= 1,
            ;
        }
        let half_w = divq(width as i128, 2) as i64;
        let half_h = divq(height as i128, 2) as i64;
        let tl = Vec3 { x: pos.x - half_w, y: pos.y + half_h, z: pos.z };
        let step_x = divq(width as i128, cols as i128) as i64;
        let step_y = divq(height as i128, rows as i128) as i64;
        let dx = Vec3 { x: step_x, y: 0, z: 0 };
        let dy = Vec3 { x: 0, y: step_y, z: 0 };
        let p00 = Vec3 {
            x: tl.x + divq(step_x as i128, 2) as i64,
            y: tl.y - divq(step_y as i128, 2) as i64,
            z: tl.z,
        };
        let r = Viewport { pos, width, height, cols, rows, dx, dy, top_left_coords: tl, p00 };
        proof {
            assert(1 <= r.cols <= 4096);
            assert(0 < r.width <= MAXC);
            assert(vbnd(r.pos, CAMB as int));
            assert(vbnd(r.top_left_coords, CAMB as int));
            assert(vbnd(r.p00, CAMB as int));
            assert(vbnd(r.dx, MAXC as int));
            assert(vbnd(r.dy, MAXC as int));
            assert(bnd(r.dx.x * r.cols, MAXC as int));
            assert(bnd(r.dx.y * r.cols, MAXC as int));
            assert(bnd(r.dx.z * r.cols, MAXC as int));
            assert(bnd(r.dy.x * r.rows, MAXC as int));
            assert(bnd(r.dy.y * r.rows, MAXC as int));
            assert(bnd(r.dy.z * r.rows, MAXC as int));
        }
        r
    }
}

pub struct Camera {
    /// The observer's position.
    pub pos: Vec3,
    /// Basis: `ex` points right, `ey` up, `ez` from the scene toward the
    /// observer (the view direction is `-ez`).
    pub ex: Vec3,
    pub ey: Vec3,
    pub ez: Vec3,
    pub focal_distance: i64,
    pub projection_type: Projection,
    /// Per-axis sines of the oblique shear angles.
    pub obl_sin: Vec3,
    /// Per-axis cosines of the oblique shear angles.
    pub obl_cos: Vec3,
    pub viewport: Viewport,
    /// BGRA bytes, row-major, `cols * rows * 4` of them.
    pub framebuffer: Vec<u8>,
}

pub open spec fn camera_ok(c: &Camera) -> bool {
    &&& vbnd(c.pos, MAXC as int)
    &&& vbnd(c.ex, 2 * SCALE as int)
    &&& vbnd(c.ey, 2 * SCALE as int)
    &&& vbnd(c.ez, 2 * SCALE as int)
    &&& norm2(c.ex) > 0
    &&& norm2(c.ey) > 0
    &&& norm2(c.ez) > 0
    &&& 0 < c.focal_distance <= MAXC
    &&& crate::fx::unit_pair(c.obl_sin.x as int, c.obl_cos.x as int)
    &&& crate::fx::unit_pair(c.obl_sin.y as int, c.obl_cos.y as int)
    &&& crate::fx::unit_pair(c.obl_sin.z as int, c.obl_cos.z as int)
    &&& viewport_ok(&c.viewport)
    &&& c.framebuffer@.len() == c.viewport.cols * c.viewport.rows * 4
}

/// The base point of pixel `(row, col)`: `p00 + col * dx - row * dy`.
pub open spec fn pixel_point_s(c: &Camera, row: int, col: int) -> Vec3 {
    minus_s(
        plus_s(c.viewport.p00, scale_s(c.viewport.dx, col * (SCALE as int))),
        scale_s(c.viewport.dy, row * (SCALE as int)),
    )
}

/// A direction clamped into the primary-direction envelope; the identity on
/// every direction a sane pose produces.
pub open spec fn cap_dir_s(v: Vec3) -> Vec3 {
    clamp_vs(v, -(DIRB as int), DIRB as int)
}

/// One oblique rotation step: the direction turned about `axis` by the angle
/// with the given sine and cosine, then kept inside the envelope.
pub open spec fn oblique_step_s(v: Vec3, axis: Vec3, sin_a: i64, cos_a: i64) -> Vec3 {
    cap_dir_s(
        xform_dir_s(
            crate::mat4::envelope_s(
                conjugate_s(Vec3 { x: 0, y: 0, z: 0 }, rodrigues_s(normalize_s(axis), sin_a, cos_a)),
            ),
            v,
        ),
    )
}

/// The primary ray of pixel `(row, col)` under the camera's projection.
pub open spec fn primary_ray_s(c: &Camera, row: int, col: int) -> Ray {
    let base = pixel_point_s(c, row, col);
    match c.projection_type {
        Projection::Perspective => {
            let dv = minus_s(base, c.pos);
            let dir = if norm2(dv) == 0 {
                Vec3 { x: 0, y: 0, z: 0 }
            } else {
                normalize_s(dv)
            };
            Ray { origin: c.pos, dr: dir }
        },
        Projection::Ortographic => Ray { origin: base, dr: neg_s(c.ez) },
        Projection::Oblique => {
            let d0 = neg_s(c.ez);
            let d1 = oblique_step_s(d0, c.ex, c.obl_sin.x, c.obl_cos.x);
            let d2 = oblique_step_s(d1, c.ey, c.obl_sin.y, c.obl_cos.y);
            let d3 = oblique_step_s(d2, c.ez, c.obl_sin.z, c.obl_cos.z);
            Ray { origin: base, dr: d3 }
        },
    }
}

/// A pixel step scaled by an in-range pixel index stays inside the scene
/// envelope, because the viewport keeps `|step| * count` bounded.
proof fn lemma_step_scaled(d: i64, count: int, idx: int)
    requires
        bnd(d * count, MAXC as int),
        0 <= idx < count,
    ensures
        bnd(fmul(d as int, idx * (SCALE as int)), MAXC as int),
{
    assert(absi(d * (idx * (SCALE as int))) <= (MAXC as int) * (SCALE as int)) by (nonlinear_arith)
        requires
            bnd(d * count, MAXC as int),
            0 <= idx < count,
    ;
    lemma_qz_mag_le(d * (idx * (SCALE as int)), (MAXC as int) * (SCALE as int), SCALE as int);
    assert(((MAXC as int) * (SCALE as int)) / (SCALE as int) == MAXC as int) by {
        vstd::arithmetic::div_mod::lemma_div_multiples_vanish(MAXC as int, SCALE as int);
    }
    assert(fmul(d as int, idx * (SCALE as int)) == qz(d * (idx * (SCALE as int)), SCALE as int));
}

impl Camera {
    /// Constructor: the basis starts on the world axes, the projection is
    /// perspective, the oblique angles are zero, and the viewport sits the
    /// focal distance in front of the observer along the third axis.
    pub fn new(pos: Vec3, n_cols: u32, n_rows: u32, viewport_w: i64, viewport_h: i64,
        focal_distance: i64) -> (r: Camera)
        requires
            vbnd(pos, MAXC as int),
            1 <= n_cols <= 4096,
            1 <= n_rows <= 4096,
            0 < viewport_w <= MAXC,
            0 < viewport_h <= MAXC,
            0 < focal_distance <= MAXC,
        ensures
            r.pos == pos,
            r.ex == (Vec3 { x: SCALE, y: 0, z: 0 }),
            r.ey == (Vec3 { x: 0, y: SCALE, z: 0 }),
            r.ez == (Vec3 { x: 0, y: 0, z: SCALE }),
            r.focal_distance == focal_distance,
            r.projection_type == Projection::Perspective,
            r.viewport == viewport_new_s(
                Vec3 { x: pos.x, y: pos.y, z: (pos.z - focal_distance) as i64 },
                viewport_w,
                viewport_h,
                n_cols,
                n_rows,
            ),
            camera_ok(&r),
            forall|k: int| 0 <= k < r.framebuffer@.len() ==> r.framebuffer@[k] == 0,
    {
        let vp_pos = Vec3 { x: pos.x, y: pos.y, z: pos.z - focal_distance };
        let viewport = Viewport::new(vp_pos, viewport_w, viewport_h, n_cols, n_rows);
        proof {
            assert((n_cols as int) * (n_rows as int) <= 4096 * 4096) by (nonlinear_arith)
                requires
                    1 <= n_cols <= 4096,
                    1 <= n_rows <= 4096,
            ;
        }
        let n_bytes: usize = (n_cols as usize) * (n_rows as usize) * 4;
        let framebuffer = alloc_bytes(n_bytes);
        proof {
            assert(norm2(Vec3 { x: SCALE, y: 0, z: 0 }) > 0) by (nonlinear_arith);
            assert(norm2(Vec3 { x: 0, y: SCALE, z: 0 }) > 0) by (nonlinear_arith);
            assert(norm2(Vec3 { x: 0, y: 0, z: SCALE }) > 0) by (nonlinear_arith);
            crate::fx::lemma_qz_exact(SCALE as int, SCALE as int);
            assert(0int * 0int == 0int) by (nonlinear_arith);
            crate::fx::lemma_qz_mag(0, SCALE as int);
            assert(crate::fx::fmul(0, 0) == 0);
            assert(crate::fx::unit_pair(0, SCALE as int));
        }
        Camera {
            pos,
            ex: Vec3 { x: SCALE, y: 0, z: 0 },
            ey: Vec3 { x: 0, y: SCALE, z: 0 },
            ez: Vec3 { x: 0, y: 0, z: SCALE },
            focal_distance,
            projection_type: Projection::Perspective,
            obl_sin: Vec3 { x: 0, y: 0, z: 0 },
            obl_cos: Vec3 { x: SCALE, y: SCALE, z: SCALE },
            viewport,
            framebuffer,
        }
    }

    /// Select the projection mode.
    pub fn set_projection(&mut self, projection: Projection)
        requires
            camera_ok(&*old(self)),
        ensures
            final(self).projection_type == projection,
            final(self).pos == old(self).pos,
            final(self).ex == old(self).ex,
            final(self).ey == old(self).ey,
            final(self).ez == old(self).ez,
            final(self).viewport == old(self).viewport,
            final(self).framebuffer == old(self).framebuffer,
            final(self).focal_distance == old(self).focal_distance,
            final(self).obl_sin == old(self).obl_sin,
            final(self).obl_cos == old(self).obl_cos,
            camera_ok(&*final(self)),
    {
        self.projection_type = projection;
    }

    /// Select the oblique shear angles by their sines and cosines.
    /// The per-axis pairs must be sines and cosines of real angles: each
    /// must satisfy the Pythagorean identity up to rounding.
    pub fn set_obliqueness(&mut self, obl_sin: Vec3, obl_cos: Vec3)
        requires
            camera_ok(&*old(self)),
            crate::fx::unit_pair(obl_sin.x as int, obl_cos.x as int),
            crate::fx::unit_pair(obl_sin.y as int, obl_cos.y as int),
            crate::fx::unit_pair(obl_sin.z as int, obl_cos.z as int),
        ensures
            final(self).obl_sin == obl_sin,
            final(self).obl_cos == obl_cos,
            final(self).pos == old(self).pos,
            final(self).ex == old(self).ex,
            final(self).ey == old(self).ey,
            final(self).ez == old(self).ez,
            final(self).viewport == old(self).viewport,
            final(self).framebuffer == old(self).framebuffer,
            final(self).focal_distance == old(self).focal_distance,
            final(self).projection_type == old(self).projection_type,
            camera_ok(&*final(self)),
    {
        self.obl_sin = obl_sin;
        self.obl_cos = obl_cos;
    }

    /// Express a world point in the camera's frame: translate by the
    /// observer, then project on the basis.
    pub fn world_to_camera(&self, point: Vec3) -> (r: Vec3)
        requires
            camera_ok(self),
            vbnd(point, CAMB as int),
        ensures
            r == world_to_camera_s(self, point),
    {
        let pt = point.minus(self.pos);
        proof {
            lemma_dot_fits(pt, self.ex, CAMB as int + MAXC as int, 2 * SCALE as int);
            lemma_dot_fits(pt, self.ey, CAMB as int + MAXC as int, 2 * SCALE as int);
            lemma_dot_fits(pt, self.ez, CAMB as int + MAXC as int, 2 * SCALE as int);
        }
        Vec3 { x: pt.dot(self.ex), y: pt.dot(self.ey), z: pt.dot(self.ez) }
    }

    /// Express a camera-frame point in world coordinates: combine the basis,
    /// then translate by the observer.
    pub fn camera_to_world(&self, point: Vec3) -> (r: Vec3)
        requires
            camera_ok(self),
            vbnd(point, CAMB as int),
        ensures
            r == camera_to_world_s(self, point),
    {
        proof {
            lemma_cam_scale(point.x as int, self.ex);
            lemma_cam_scale(point.y as int, self.ey);
            lemma_cam_scale(point.z as int, self.ez);
        }
        let rot = self.ex.scaled(point.x).plus(self.ey.scaled(point.y)).plus(
            self.ez.scaled(point.z),
        );
        rot.plus(self.pos)
    }

    /// The primary ray through pixel `(row, col)`.
    #[verifier::rlimit(100)]
    pub fn primary_ray(&self, row: u32, col: u32) -> (r: Ray)
        requires
            camera_ok(self),
            row < self.viewport.rows,
            col < self.viewport.cols,
        ensures
            r == primary_ray_s(self, row as int, col as int),
            ray_ok(r),
            vbnd(r.origin, CAMB as int + 2 * MAXC as int),
            vbnd(r.dr, DIRB as int),
    {
        let base = self.pixel_point(row, col);
        match self.projection_type {
            Projection::Perspective => {
                let dv = base.minus(self.pos);
                let n2 = dv.dot_wide(&dv);
                let dir = if n2 == 0 {
                    Vec3 { x: 0, y: 0, z: 0 }
                } else {
                    proof {
                        lemma_norm2_nonneg(dv);
                        lemma_sqrt_floor_pos(norm2(dv) as nat);
                    }
                    dv.normalize()
                };
                Ray { origin: self.pos, dr: dir }
            },
            Projection::Ortographic => Ray { origin: base, dr: self.ez.negated() },
            Projection::Oblique => {
                let d0 = self.ez.negated();
                let d1 = oblique_step(d0, self.ex, self.obl_sin.x, self.obl_cos.x);
                let d2 = oblique_step(d1, self.ey, self.obl_sin.y, self.obl_cos.y);
                let d3 = oblique_step(d2, self.ez, self.obl_sin.z, self.obl_cos.z);
                Ray { origin: base, dr: d3 }
            },
        }
    }

    /// The base point of pixel `(row, col)`.
    fn pixel_point(&self, row: u32, col: u32) -> (r: Vec3)
        requires
            camera_ok(self),
            row < self.viewport.rows,
            col < self.viewport.cols,
        ensures
            r == pixel_point_s(self, row as int, col as int),
            vbnd(r, CAMB as int + 2 * MAXC as int),
    {
        proof {
            lemma_step_scaled(self.viewport.dx.x, self.viewport.cols as int, col as int);
            lemma_step_scaled(self.viewport.dx.y, self.viewport.cols as int, col as int);
            lemma_step_scaled(self.viewport.dx.z, self.viewport.cols as int, col as int);
            lemma_step_scaled(self.viewport.dy.x, self.viewport.rows as int, row as int);
            lemma_step_scaled(self.viewport.dy.y, self.viewport.rows as int, row as int);
            lemma_step_scaled(self.viewport.dy.z, self.viewport.rows as int, row as int);
        }
        let colf = wmul(col as i64, SCALE) as i64;
        let rowf = wmul(row as i64, SCALE) as i64;
        self.viewport.p00.plus(self.viewport.dx.scaled(colf)).minus(self.viewport.dy.scaled(rowf))
    }
}

pub open spec fn world_to_camera_s(c: &Camera, point: Vec3) -> Vec3 {
    let pt = minus_s(point, c.pos);
    Vec3 { x: dot_s(pt, c.ex) as i64, y: dot_s(pt, c.ey) as i64, z: dot_s(pt, c.ez) as i64 }
}

pub open spec fn camera_to_world_s(c: &Camera, point: Vec3) -> Vec3 {
    plus_s(
        plus_s(plus_s(scale_s(c.ex, point.x as int), scale_s(c.ey, point.y as int)), scale_s(
            c.ez,
            point.z as int,
        )),
        c.pos,
    )
}

/// Scaling a basis vector by a camera-frame coordinate stays bounded.
proof fn lemma_cam_scale(k: int, e: Vec3)
    requires
        bnd(k, CAMB as int),
        vbnd(e, 2 * SCALE as int),
    ensures
        bnd(fmul(e.x as int, k), 2 * CAMB as int),
        bnd(fmul(e.y as int, k), 2 * CAMB as int),
        bnd(fmul(e.z as int, k), 2 * CAMB as int),
{
    lemma_mul_mag(e.x as int, k, 2 * SCALE as int, CAMB as int);
    lemma_mul_mag(e.y as int, k, 2 * SCALE as int, CAMB as int);
    lemma_mul_mag(e.z as int, k, 2 * SCALE as int, CAMB as int);
    lemma_qz_mag_le(e.x * k, (2 * SCALE as int) * (CAMB as int), SCALE as int);
    lemma_qz_mag_le(e.y * k, (2 * SCALE as int) * (CAMB as int), SCALE as int);
    lemma_qz_mag_le(e.z * k, (2 * SCALE as int) * (CAMB as int), SCALE as int);
    assert(((2 * SCALE as int) * (CAMB as int)) / (SCALE as int) == 2 * CAMB as int) by {
        vstd::arithmetic::div_mod::lemma_div_multiples_vanish(2 * CAMB as int, SCALE as int);
        assert((2 * SCALE as int) * (CAMB as int) == (2 * CAMB as int) * (SCALE as int))
            by (nonlinear_arith);
    }
}

/// One oblique rotation step of a direction about an axis.
fn oblique_step(v: Vec3, axis: Vec3, sin_a: i64, cos_a: i64) -> (r: Vec3)
    requires
        vbnd(v, DIRB as int),
        vbnd(axis, 2 * SCALE as int),
        norm2(axis) > 0,
        crate::fx::unit_pair(sin_a as int, cos_a as int),
    ensures
        r == oblique_step_s(v, axis, sin_a, cos_a),
        vbnd(r, DIRB as int),
{
    proof {
        lemma_sqrt_floor_pos(norm2(axis) as nat);
    }
    let m = rotation_around_axis(axis, sin_a, cos_a, Vec3 { x: 0, y: 0, z: 0 }).envelope();
    let rotated = m.transform_dir(v);
    Vec3 {
        x: clamp_x(rotated.x, -DIRB, DIRB),
        y: clamp_x(rotated.y, -DIRB, DIRB),
        z: clamp_x(rotated.z, -DIRB, DIRB),
    }
}

/// A zeroed byte buffer of the given length.
pub fn alloc_bytes(n: usize) -> (r: Vec<u8>)
    ensures
        r@.len() == n,
        forall|k: int| 0 <= k < n ==> r@[k] == 0,
{
    let mut v: Vec<u8> = Vec::new();
    let mut i: usize = 0;
    while i < n
        invariant
            0 <= i <= n,
            v@.len() == i,
            forall|k: int| 0 <= k < i ==> v@[k] == 0,
        decreases n - i,
    {
        v.push(0);
        i = i + 1;
    }
    v
}

} // verus!

verus! {

/// Whether the four viewport anchors shifted by `d` stay inside the camera
/// envelope.
pub open spec fn cam_shift_fits(c: &Camera, d: Vec3) -> bool {
    &&& crate::sphere::fits_envelope(c.pos, d)
    &&& fits_anchor(c.viewport.pos, d)
    &&& fits_anchor(c.viewport.p00, d)
    &&& fits_anchor(c.viewport.top_left_coords, d)
}

pub open spec fn fits_anchor(a: Vec3, d: Vec3) -> bool {
    bnd(a.x + d.x, CAMB as int) && bnd(a.y + d.y, CAMB as int) && bnd(a.z + d.z, CAMB as int)
}

fn within_anchor(a: Vec3, d: Vec3) -> (r: bool)
    ensures
        r == fits_anchor(a, d),
{
    let sx = (a.x as i128) + (d.x as i128);
    let sy = (a.y as i128) + (d.y as i128);
    let sz = (a.z as i128) + (d.z as i128);
    let b = CAMB as i128;
    -b <= sx && sx <= b && -b <= sy && sy <= b && -b <= sz && sz <= b
}

/// Whether a candidate viewport satisfies the viewport invariant.
fn viewport_valid(v: &Viewport) -> (r: bool)
    ensures
        r == viewport_ok(v),
{
    let e: bool = 1 <= v.cols && v.cols <= 4096 && 1 <= v.rows && v.rows <= 4096 && 0 < v.width
        && v.width <= MAXC && 0 < v.height && v.height <= MAXC;
    let zero = Vec3 { x: 0, y: 0, z: 0 };
    let b1 = within_anchor(v.pos, zero) && within_anchor(v.top_left_coords, zero)
        && within_anchor(v.p00, zero);
    let b2 = crate::sphere::within_envelope(zero, v.dx) && crate::sphere::within_envelope(
        zero,
        v.dy,
    );
    let px = wmul(v.dx.x, v.cols as i64);
    let py = wmul(v.dx.y, v.cols as i64);
    let pz = wmul(v.dx.z, v.cols as i64);
    let qx = wmul(v.dy.x, v.rows as i64);
    let qy = wmul(v.dy.y, v.rows as i64);
    let qz2 = wmul(v.dy.z, v.rows as i64);
    let m = MAXC as i128;
    let b3 = -m <= px && px <= m && -m <= py && py <= m && -m <= pz && pz <= m && -m <= qx && qx
        <= m && -m <= qy && qy <= m && -m <= qz2 && qz2 <= m;
    e && b1 && b2 && b3
}

/// The viewport rebuilt in camera-local space and re-expressed in world
/// coordinates: anchors through the basis, steps along the basis.
pub open spec fn rebuilt_viewport_s(c: &Camera, width: i64, height: i64) -> Viewport {
    let local = viewport_new_s(
        Vec3 { x: 0, y: 0, z: (-c.focal_distance) as i64 },
        width,
        height,
        c.viewport.cols,
        c.viewport.rows,
    );
    Viewport {
        pos: camera_to_world_s(c, local.pos),
        width,
        height,
        cols: c.viewport.cols,
        rows: c.viewport.rows,
        dx: scale_s(c.ex, local.dx.x as int),
        dy: scale_s(c.ey, local.dy.y as int),
        top_left_coords: camera_to_world_s(c, local.top_left_coords),
        p00: camera_to_world_s(c, local.p00),
    }
}

impl Camera {
    /// Move the camera by `d`: position and viewport anchors shift together.
    /// A move that would leave the working envelope leaves the camera
    /// unchanged.
    pub fn translate(&mut self, d: Vec3)
        requires
            camera_ok(&*old(self)),
        ensures
            final(self).ex == old(self).ex,
            final(self).ey == old(self).ey,
            final(self).ez == old(self).ez,
            final(self).focal_distance == old(self).focal_distance,
            final(self).projection_type == old(self).projection_type,
            final(self).framebuffer == old(self).framebuffer,
            cam_shift_fits(&*old(self), d) ==> {
                &&& final(self).pos == plus_s(old(self).pos, d)
                &&& final(self).viewport.pos == plus_s(old(self).viewport.pos, d)
                &&& final(self).viewport.p00 == plus_s(old(self).viewport.p00, d)
                &&& final(self).viewport.top_left_coords == plus_s(
                    old(self).viewport.top_left_coords,
                    d,
                )
                &&& final(self).viewport.dx == old(self).viewport.dx
                &&& final(self).viewport.dy == old(self).viewport.dy
            },
            !cam_shift_fits(&*old(self), d) ==> *final(self) == *old(self),
            camera_ok(&*final(self)),
    {
        if crate::sphere::within_envelope(self.pos, d) && within_anchor(self.viewport.pos, d)
            && within_anchor(self.viewport.p00, d) && within_anchor(
            self.viewport.top_left_coords,
            d,
        ) {
            self.pos = self.pos.plus(d);
            self.viewport.pos = self.viewport.pos.plus(d);
            self.viewport.p00 = self.viewport.p00.plus(d);
            self.viewport.top_left_coords = self.viewport.top_left_coords.plus(d);
        }
    }

    /// Move the camera to `pos` (a translation by the difference).
    pub fn set_position(&mut self, pos: Vec3)
        requires
            camera_ok(&*old(self)),
            vbnd(pos, MAXC as int),
        ensures
            camera_ok(&*final(self)),
            final(self).ex == old(self).ex,
            final(self).ey == old(self).ey,
            final(self).ez == old(self).ez,
            final(self).focal_distance == old(self).focal_distance,
            final(self).projection_type == old(self).projection_type,
            final(self).framebuffer == old(self).framebuffer,
            cam_shift_fits(&*old(self), minus_s(pos, old(self).pos)) ==> final(self).pos == pos
                && final(self).viewport.pos == plus_s(
                old(self).viewport.pos,
                minus_s(pos, old(self).pos),
            ) && final(self).viewport.p00 == plus_s(
                old(self).viewport.p00,
                minus_s(pos, old(self).pos),
            ) && final(self).viewport.top_left_coords == plus_s(
                old(self).viewport.top_left_coords,
                minus_s(pos, old(self).pos),
            ) && final(self).viewport.dx == old(self).viewport.dx && final(self).viewport.dy
                == old(self).viewport.dy,
            !cam_shift_fits(&*old(self), minus_s(pos, old(self).pos)) ==> *final(self)
                == *old(self),
    {
        let d = pos.minus(self.pos);
        self.translate(d);
        proof {
            if cam_shift_fits(&*old(self), minus_s(pos, old(self).pos)) {
                assert(self.pos == plus_s(old(self).pos, minus_s(pos, old(self).pos)));
            }
        }
    }

    /// Rebuild the viewport for the current pose and the given size; `None`
    /// when the rebuilt viewport would leave the working envelope.
    fn rebuild_viewport(&self, width: i64, height: i64) -> (r: Option<Viewport>)
        requires
            camera_ok(self),
            0 < width <= MAXC,
            0 < height <= MAXC,
        ensures
            r is Some <==> viewport_ok(&rebuilt_viewport_s(self, width, height)),
            r is Some ==> r->Some_0 == rebuilt_viewport_s(self, width, height),
    {
        let local = Viewport::new(
            Vec3 { x: 0, y: 0, z: -self.focal_distance },
            width,
            height,
            self.viewport.cols,
            self.viewport.rows,
        );
        proof {
            lemma_basis_step(self.ex, local.dx.x);
            lemma_basis_step(self.ey, local.dy.y);
        }
        let cand = Viewport {
            pos: self.camera_to_world(local.pos),
            width,
            height,
            cols: self.viewport.cols,
            rows: self.viewport.rows,
            dx: self.ex.scaled(local.dx.x),
            dy: self.ey.scaled(local.dy.y),
            top_left_coords: self.camera_to_world(local.top_left_coords),
            p00: self.camera_to_world(local.p00),
        };
        if viewport_valid(&cand) {
            Some(cand)
        } else {
            None
        }
    }

    /// Change the focal distance and rebuild the viewport in front of the
    /// current pose; out-of-envelope results leave the camera unchanged.
    pub fn set_focal_distance(&mut self, focal_distance: i64)
        requires
            camera_ok(&*old(self)),
        ensures
            final(self).pos == old(self).pos,
            final(self).ex == old(self).ex,
            final(self).ey == old(self).ey,
            final(self).ez == old(self).ez,
            final(self).projection_type == old(self).projection_type,
            final(self).framebuffer == old(self).framebuffer,
            (0 < focal_distance <= MAXC && viewport_ok(
                &rebuilt_viewport_s(&with_focal(&*old(self), focal_distance), old(self).viewport.width, old(self).viewport.height),
            )) ==> final(self).focal_distance == focal_distance && final(self).viewport
                == rebuilt_viewport_s(&with_focal(&*old(self), focal_distance), old(self).viewport.width, old(self).viewport.height),
            camera_ok(&*final(self)),
    {
        if !(0 < focal_distance && focal_distance <= MAXC) {
            return ;
        }
        let saved = self.focal_distance;
        self.focal_distance = focal_distance;
        match self.rebuild_viewport(self.viewport.width, self.viewport.height) {
            Some(vp) => {
                self.viewport = vp;
            },
            None => {
                self.focal_distance = saved;
            },
        }
    }

    /// Change the viewport's world size and rebuild it for the current pose;
    /// out-of-envelope results leave the camera unchanged.
    pub fn set_viewport_size(&mut self, width: i64, height: i64)
        requires
            camera_ok(&*old(self)),
        ensures
            final(self).pos == old(self).pos,
            final(self).ex == old(self).ex,
            final(self).ey == old(self).ey,
            final(self).ez == old(self).ez,
            final(self).focal_distance == old(self).focal_distance,
            final(self).projection_type == old(self).projection_type,
            final(self).framebuffer == old(self).framebuffer,
            (0 < width <= MAXC && 0 < height <= MAXC && viewport_ok(
                &rebuilt_viewport_s(&*old(self), width, height),
            )) ==> final(self).viewport == rebuilt_viewport_s(&*old(self), width, height),
            camera_ok(&*final(self)),
    {
        if !(0 < width && width <= MAXC && 0 < height && height <= MAXC) {
            return ;
        }
        match self.rebuild_viewport(width, height) {
            Some(vp) => {
                self.viewport = vp;
            },
            None => {},
        }
    }

    /// Reorient the camera so the view direction points from `pos` toward
    /// `target`, with the local horizontal axis aligned to `up x ez`, then
    /// rebuild the viewport. Degenerate targets or poses that would leave
    /// the working envelope leave the camera unchanged.
    pub fn look_at(&mut self, target: Vec3, up: Vec3)
        requires
            camera_ok(&*old(self)),
            vbnd(target, MAXC as int),
            vbnd(up, SCALE as int),
        ensures
            final(self).pos == old(self).pos,
            final(self).focal_distance == old(self).focal_distance,
            final(self).projection_type == old(self).projection_type,
            final(self).framebuffer == old(self).framebuffer,
            final(self).obl_sin == old(self).obl_sin,
            final(self).obl_cos == old(self).obl_cos,
            look_fits(&*old(self), target, up) ==> final(self).ez == look_ez_s(
                &*old(self),
                target,
            ) && final(self).ex == look_ex_s(&*old(self), target, up) && final(self).ey
                == look_ey_s(&*old(self), target, up) && final(self).viewport
                == rebuilt_viewport_s(
                &with_basis(
                    &*old(self),
                    look_ex_s(&*old(self), target, up),
                    look_ey_s(&*old(self), target, up),
                    look_ez_s(&*old(self), target),
                ),
                old(self).viewport.width,
                old(self).viewport.height,
            ),
            !look_fits(&*old(self), target, up) ==> final(self).ex == old(self).ex
                && final(self).ey == old(self).ey && final(self).ez == old(self).ez
                && final(self).viewport == old(self).viewport,
            camera_ok(&*final(self)),
    {
        let ezc = self.pos.minus(target);
        let n1 = ezc.dot_wide(&ezc);
        if n1 == 0 {
            return ;
        }
        proof {
            lemma_norm2_nonneg(ezc);
            crate::fx::lemma_sqrt_floor_pos(norm2(ezc) as nat);
            crate::vec3::lemma_normalize_box(ezc);
        }
        let ez2 = ezc.normalize();
        if ez2.dot_wide(&ez2) == 0 {
            return ;
        }
        proof {
            crate::vec3::lemma_cross_fits(up, ez2, SCALE as int, SCALE as int);
        }
        let exc = up.cross(ez2);
        let n2 = exc.dot_wide(&exc);
        if n2 == 0 {
            return ;
        }
        proof {
            lemma_norm2_nonneg(exc);
            crate::fx::lemma_sqrt_floor_pos(norm2(exc) as nat);
            crate::vec3::lemma_normalize_box(exc);
        }
        let ex2 = exc.normalize();
        if ex2.dot_wide(&ex2) == 0 {
            return ;
        }
        proof {
            crate::vec3::lemma_cross_fits(ez2, ex2, SCALE as int, SCALE as int);
        }
        let ey2 = ez2.cross(ex2);
        let n3 = ey2.dot_wide(&ey2);
        if n3 == 0 {
            return ;
        }
        proof {
            crate::vec3::lemma_cross_fits(ez2, ex2, SCALE as int, SCALE as int);
        }
        let (sex, sey, sez) = (self.ex, self.ey, self.ez);
        self.ex = ex2;
        self.ey = ey2;
        self.ez = ez2;
        proof {
            lemma_norm2_nonneg(ez2);
            lemma_norm2_nonneg(ex2);
            lemma_norm2_nonneg(ey2);
        }
        match self.rebuild_viewport(self.viewport.width, self.viewport.height) {
            Some(vp) => {
                self.viewport = vp;
            },
            None => {
                self.ex = sex;
                self.ey = sey;
                self.ez = sez;
            },
        }
    }
}

/// The rotation transform about the world origin for the given axis and
/// the angle with the given sine and cosine.
pub open spec fn rot_matrix_s(axis: Vec3, sin_a: i64, cos_a: i64) -> Matrix4 {
    conjugate_s(Vec3 { x: 0, y: 0, z: 0 }, rodrigues_s(normalize_s(axis), sin_a, cos_a))
}

/// A viewport anchor rotated about the camera's position.
pub open spec fn rot_anchor_s(c: &Camera, m: Matrix4, a: Vec3) -> Vec3 {
    plus_s(xform_point_s(m, minus_s(a, c.pos)), c.pos)
}

/// The viewport turned by a rotation about the camera's position: anchors
/// rotate about the position, the pixel steps rotate as directions, and the
/// sizes and grid stay.
pub open spec fn rot_viewport_s(c: &Camera, m: Matrix4) -> Viewport {
    Viewport {
        pos: rot_anchor_s(c, m, c.viewport.pos),
        width: c.viewport.width,
        height: c.viewport.height,
        cols: c.viewport.cols,
        rows: c.viewport.rows,
        dx: xform_dir_s(m, c.viewport.dx),
        dy: xform_dir_s(m, c.viewport.dy),
        top_left_coords: rot_anchor_s(c, m, c.viewport.top_left_coords),
        p00: rot_anchor_s(c, m, c.viewport.p00),
    }
}

/// Whether the rotated basis and viewport stay inside the working envelope.
pub open spec fn rot_fits(c: &Camera, m: Matrix4) -> bool {
    &&& vbnd(xform_dir_s(m, c.ex), 2 * SCALE as int)
    &&& vbnd(xform_dir_s(m, c.ey), 2 * SCALE as int)
    &&& vbnd(xform_dir_s(m, c.ez), 2 * SCALE as int)
    &&& norm2(xform_dir_s(m, c.ex)) != 0
    &&& norm2(xform_dir_s(m, c.ey)) != 0
    &&& norm2(xform_dir_s(m, c.ez)) != 0
    &&& absi(length_s(xform_dir_s(m, c.ex)) - length_s(c.ex)) <= 16
    &&& absi(length_s(xform_dir_s(m, c.ey)) - length_s(c.ey)) <= 16
    &&& absi(length_s(xform_dir_s(m, c.ez)) - length_s(c.ez)) <= 16
    &&& absi(dot_s(xform_dir_s(m, c.ex), xform_dir_s(m, c.ey))) <= 64
    &&& absi(dot_s(xform_dir_s(m, c.ex), xform_dir_s(m, c.ez))) <= 64
    &&& absi(dot_s(xform_dir_s(m, c.ey), xform_dir_s(m, c.ez))) <= 64
    &&& viewport_ok(&rot_viewport_s(c, m))
}

impl Camera {
    /// Rotate the camera about the axis through its own position, by the
    /// angle with the given sine and cosine. Basis and viewport turn
    /// together; the position stays. A result outside the working envelope
    /// leaves the camera unchanged.
    pub fn rotate(&mut self, axis: Vec3, sin_a: i64, cos_a: i64)
        requires
            camera_ok(&*old(self)),
            vbnd(axis, crate::vec3::VLIM as int),
            length_s(axis) > 0,
            crate::fx::unit_pair(sin_a as int, cos_a as int),
        ensures
            final(self).pos == old(self).pos,
            final(self).focal_distance == old(self).focal_distance,
            final(self).projection_type == old(self).projection_type,
            final(self).framebuffer == old(self).framebuffer,
            final(self).obl_sin == old(self).obl_sin,
            final(self).obl_cos == old(self).obl_cos,
            rot_fits(&*old(self), rot_matrix_s(axis, sin_a, cos_a)) ==> final(self).ex
                == xform_dir_s(rot_matrix_s(axis, sin_a, cos_a), old(self).ex) && final(self).ey
                == xform_dir_s(rot_matrix_s(axis, sin_a, cos_a), old(self).ey) && final(self).ez
                == xform_dir_s(rot_matrix_s(axis, sin_a, cos_a), old(self).ez)
                && final(self).viewport == rot_viewport_s(
                &*old(self),
                rot_matrix_s(axis, sin_a, cos_a),
            ),
            // the rotated basis stays near-orthonormal: lengths move by at
            // most 16 fixed-point steps and mutual products stay within 64
            rot_fits(&*old(self), rot_matrix_s(axis, sin_a, cos_a)) ==> absi(
                length_s(final(self).ex) - length_s(old(self).ex),
            ) <= 16 && absi(length_s(final(self).ey) - length_s(old(self).ey)) <= 16 && absi(
                length_s(final(self).ez) - length_s(old(self).ez),
            ) <= 16 && absi(dot_s(final(self).ex, final(self).ey)) <= 64 && absi(
                dot_s(final(self).ex, final(self).ez),
            ) <= 64 && absi(dot_s(final(self).ey, final(self).ez)) <= 64,
            !rot_fits(&*old(self), rot_matrix_s(axis, sin_a, cos_a)) ==> final(self).ex
                == old(self).ex && final(self).ey == old(self).ey && final(self).ez == old(self).ez
                && final(self).viewport == old(self).viewport,
            camera_ok(&*final(self)),
    {
        let m = crate::transform::rotation_around_axis(
            axis,
            sin_a,
            cos_a,
            Vec3 { x: 0, y: 0, z: 0 },
        );
        let ex2 = m.transform_dir(self.ex);
        let ey2 = m.transform_dir(self.ey);
        let ez2 = m.transform_dir(self.ez);
        let two_s = 2 * SCALE;
        let basis_ok = -two_s <= ex2.x && ex2.x <= two_s && -two_s <= ex2.y && ex2.y <= two_s
            && -two_s <= ex2.z && ex2.z <= two_s && -two_s <= ey2.x && ey2.x <= two_s && -two_s
            <= ey2.y && ey2.y <= two_s && -two_s <= ey2.z && ey2.z <= two_s && -two_s <= ez2.x
            && ez2.x <= two_s && -two_s <= ez2.y && ez2.y <= two_s && -two_s <= ez2.z && ez2.z
            <= two_s;
        if !basis_ok {
            return ;
        }
        proof {
            lemma_norm2_nonneg(ex2);
            lemma_norm2_nonneg(ey2);
            lemma_norm2_nonneg(ez2);
        }
        if ex2.dot_wide(&ex2) == 0 || ey2.dot_wide(&ey2) == 0 || ez2.dot_wide(&ez2) == 0 {
            return ;
        }
        // The rotation must preserve each basis vector's length and the
        // basis vectors' mutual orthogonality, up to rounding; a pair that
        // is not a real sine/cosine would fail here.
        let dlx = ex2.length() - self.ex.length();
        let dly = ey2.length() - self.ey.length();
        let dlz = ez2.length() - self.ez.length();
        if !(-16 <= dlx && dlx <= 16 && -16 <= dly && dly <= 16 && -16 <= dlz && dlz <= 16) {
            return ;
        }
        proof {
            lemma_dot_fits(ex2, ey2, 2 * SCALE as int, 2 * SCALE as int);
            lemma_dot_fits(ex2, ez2, 2 * SCALE as int, 2 * SCALE as int);
            lemma_dot_fits(ey2, ez2, 2 * SCALE as int, 2 * SCALE as int);
        }
        let oxy = ex2.dot(ey2);
        let oxz = ex2.dot(ez2);
        let oyz = ey2.dot(ez2);
        if !(-64 <= oxy && oxy <= 64 && -64 <= oxz && oxz <= 64 && -64 <= oyz && oyz <= 64) {
            return ;
        }
        let vpos2 = self.rotate_anchor(&m, self.viewport.pos);
        let p002 = self.rotate_anchor(&m, self.viewport.p00);
        let tl2 = self.rotate_anchor(&m, self.viewport.top_left_coords);
        let dx2 = m.transform_dir(self.viewport.dx);
        let dy2 = m.transform_dir(self.viewport.dy);
        let cand = Viewport {
            pos: vpos2,
            width: self.viewport.width,
            height: self.viewport.height,
            cols: self.viewport.cols,
            rows: self.viewport.rows,
            dx: dx2,
            dy: dy2,
            top_left_coords: tl2,
            p00: p002,
        };
        if viewport_valid(&cand) {
            self.ex = ex2;
            self.ey = ey2;
            self.ez = ez2;
            self.viewport = cand;
        }
    }

    /// Rotate a viewport anchor about the camera's position.
    fn rotate_anchor(&self, m: &Matrix4, a: Vec3) -> (r: Vec3)
        requires
            camera_ok(self),
            crate::mat4::mbnd4(*m, crate::mat4::TRB as int),
            vbnd(a, CAMB as int),
        ensures
            r == plus_s(
                crate::mat4::xform_point_s(*m, minus_s(a, self.pos)),
                self.pos,
            ),
    {
        let local = a.minus(self.pos);
        let rotated = m.transform_point(local);
        rotated.plus(self.pos)
    }
}

/// The reoriented view axis: the unit vector from the target toward the
/// observer (the view direction is its negation).
pub open spec fn look_ez_s(c: &Camera, target: Vec3) -> Vec3 {
    normalize_s(minus_s(c.pos, target))
}

/// The reoriented horizontal axis: the unit cross product of `up` with the
/// new view axis.
pub open spec fn look_ex_s(c: &Camera, target: Vec3, up: Vec3) -> Vec3 {
    normalize_s(cross_s(up, look_ez_s(c, target)))
}

/// The reoriented vertical axis: the cross product of the new view axis
/// with the new horizontal axis.
pub open spec fn look_ey_s(c: &Camera, target: Vec3, up: Vec3) -> Vec3 {
    cross_s(look_ez_s(c, target), look_ex_s(c, target, up))
}

/// Whether the reorientation is non-degenerate and its rebuilt viewport
/// stays inside the working envelope.
pub open spec fn look_fits(c: &Camera, target: Vec3, up: Vec3) -> bool {
    &&& norm2(minus_s(c.pos, target)) != 0
    &&& norm2(look_ez_s(c, target)) != 0
    &&& norm2(cross_s(up, look_ez_s(c, target))) != 0
    &&& norm2(look_ex_s(c, target, up)) != 0
    &&& norm2(look_ey_s(c, target, up)) != 0
    &&& viewport_ok(
        &rebuilt_viewport_s(
            &with_basis(
                c,
                look_ex_s(c, target, up),
                look_ey_s(c, target, up),
                look_ez_s(c, target),
            ),
            c.viewport.width,
            c.viewport.height,
        ),
    )
}

/// With the default axis basis the two frame changes invert each other
/// exactly: projecting a point into the camera frame and re-expressing it
/// in world coordinates returns the point. For a rotated basis the two
/// maps invert only up to rounding, since each rounds once per component.
pub proof fn lemma_frame_roundtrip_axes(c: &Camera, p: Vec3)
    requires
        c.ex == (Vec3 { x: SCALE, y: 0, z: 0 }),
        c.ey == (Vec3 { x: 0, y: SCALE, z: 0 }),
        c.ez == (Vec3 { x: 0, y: 0, z: SCALE }),
        vbnd(c.pos, MAXC as int),
        vbnd(p, CAMB as int),
    ensures
        camera_to_world_s(c, world_to_camera_s(c, p)) == p,
{
    let s = SCALE as int;
    let d = minus_s(p, c.pos);
    assert(d.x * 0 == 0 && d.y * 0 == 0 && d.z * 0 == 0) by (nonlinear_arith);
    crate::fx::lemma_qz_exact(d.x as int, s);
    crate::fx::lemma_qz_exact(d.y as int, s);
    crate::fx::lemma_qz_exact(d.z as int, s);
    let q = world_to_camera_s(c, p);
    assert(q == d);
    assert(s * q.x == q.x * s && s * q.y == q.y * s && s * q.z == q.z * s) by (nonlinear_arith);
    assert(0 * q.x == 0 && 0 * q.y == 0 && 0 * q.z == 0) by (nonlinear_arith);
    crate::fx::lemma_qz_exact(q.x as int, s);
    crate::fx::lemma_qz_exact(q.y as int, s);
    crate::fx::lemma_qz_exact(q.z as int, s);
    crate::fx::lemma_qz_mag(0, s);
    assert(camera_to_world_s(c, q) == p);
}

/// The camera with only the basis replaced.
pub open spec fn with_basis(c: &Camera, ex: Vec3, ey: Vec3, ez: Vec3) -> Camera {
    Camera {
        pos: c.pos,
        ex,
        ey,
        ez,
        focal_distance: c.focal_distance,
        projection_type: c.projection_type,
        obl_sin: c.obl_sin,
        obl_cos: c.obl_cos,
        viewport: c.viewport,
        framebuffer: c.framebuffer,
    }
}

/// The camera with only the focal distance replaced.
pub open spec fn with_focal(c: &Camera, f: i64) -> Camera {
    Camera {
        pos: c.pos,
        ex: c.ex,
        ey: c.ey,
        ez: c.ez,
        focal_distance: f,
        projection_type: c.projection_type,
        obl_sin: c.obl_sin,
        obl_cos: c.obl_cos,
        viewport: c.viewport,
        framebuffer: c.framebuffer,
    }
}

/// Scaling a basis vector by a nonnegative viewport step keeps the product
/// inside the scalar range.
proof fn lemma_basis_step(e: Vec3, step: i64)
    requires
        vbnd(e, 2 * SCALE as int),
        0 <= step <= MAXC,
    ensures
        bnd(fmul(e.x as int, step as int), 2 * MAXC as int),
        bnd(fmul(e.y as int, step as int), 2 * MAXC as int),
        bnd(fmul(e.z as int, step as int), 2 * MAXC as int),
{
    lemma_mul_mag(e.x as int, step as int, 2 * SCALE as int, MAXC as int);
    lemma_mul_mag(e.y as int, step as int, 2 * SCALE as int, MAXC as int);
    lemma_mul_mag(e.z as int, step as int, 2 * SCALE as int, MAXC as int);
    lemma_qz_mag_le(e.x * step, (2 * SCALE as int) * (MAXC as int), SCALE as int);
    lemma_qz_mag_le(e.y * step, (2 * SCALE as int) * (MAXC as int), SCALE as int);
    lemma_qz_mag_le(e.z * step, (2 * SCALE as int) * (MAXC as int), SCALE as int);
    assert(((2 * SCALE as int) * (MAXC as int)) / (SCALE as int) == 2 * MAXC as int) by {
        vstd::arithmetic::div_mod::lemma_div_multiples_vanish(2 * MAXC as int, SCALE as int);
        assert((2 * SCALE as int) * (MAXC as int) == (2 * MAXC as int) * (SCALE as int))
            by (nonlinear_arith);
    }
}

} // verus!
