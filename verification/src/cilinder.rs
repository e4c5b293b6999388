//! Capped cylinders and their ray intersection.

use vstd::prelude::*;
use crate::fx::{absi, bnd, qz, MAXC, RAYB, SCALE, TMAX, fmul, lemma_mul_mag, lemma_qz_mag,
    lemma_qz_mag_le, lemma_sqrt_floor_pos, lemma_fmul_unit_box, wmul2, divq, fmul_x};
use crate::vec3::{
    Vec3, vbnd, dot_raw, dot_s, minus_s, neg_s, norm2, normalize_s, orient_s, length_s, scale_s,
    plus_s, orient_against, lemma_dot_raw_bound, lemma_dot_fits, lemma_norm2_nonneg, VLIM,
};
use crate::mat3::{Matrix3, mbnd3, mul_vec3_s, minus_mat3_s, outer_s, identity3_s};
use crate::ray::{Ray, ray_ok, at_s};
use crate::material::{Material, material_ok};
use crate::solve::{quad_roots_s, quad_roots, cap_t, cap_root};

verus! {

#[derive(Clone, PartialEq, Eq, Structural, Debug)]
pub struct Cilinder {
    pub r: i64,
    pub h: i64,
    pub cb: Vec3,
    pub ct: Vec3,
    pub dc: Vec3,
    pub material: Material,
    pub has_base: bool,
    pub has_tampa: bool,
}

pub open spec fn cilinder_ok(c: &Cilinder) -> bool {
    &&& 0 < c.r <= MAXC
    &&& 0 < c.h <= MAXC
    &&& vbnd(c.cb, MAXC as int)
    &&& vbnd(c.ct, 2 * MAXC as int)
    &&& vbnd(c.dc, SCALE as int)
    &&& material_ok(c.material)
}

/// The candidate parameter on a cap disk: the ray meets the plane through
/// `center` with normal `axis`, inside radius `radius` of `center`.
pub open spec fn cap_candidate_s(center: Vec3, axis: Vec3, radius: i64, r: &Ray) -> Option<int> {
    let bot = dot_raw(r.dr, axis);
    if bot == 0 {
        None
    } else {
        let t = cap_t(qz((-dot_raw(minus_s(r.origin, center), axis)) * (SCALE as int), bot));
        if 0 <= t <= TMAX && length_s(minus_s(at_s(*r, t), center)) <= radius {
            Some(t)
        } else {
            None
        }
    }
}

/// Evaluate a cap candidate.
pub fn cap_candidate(center: Vec3, axis: Vec3, radius: i64, ray: &Ray) -> (res: Option<i64>)
    requires
        vbnd(center, 2 * MAXC as int),
        vbnd(axis, SCALE as int),
        0 < radius <= MAXC,
        ray_ok(*ray),
    ensures
        res is Some <==> cap_candidate_s(center, axis, radius, ray) is Some,
        res is Some ==> res->Some_0 == cap_candidate_s(center, axis, radius, ray)->Some_0,
        res is Some ==> 0 <= res->Some_0 <= TMAX,
{
    let oc = ray.origin.minus(center);
    proof {
        lemma_dot_raw_bound(ray.dr, axis, RAYB as int, SCALE as int);
        lemma_dot_raw_bound(oc, axis, RAYB as int + 2 * MAXC as int, SCALE as int);
    }
    let bot = ray.dr.dot_wide(&axis);
    if bot == 0 {
        None
    } else {
        let top = oc.dot_wide(&axis);
        let t = cap_root(divq(wmul2(-top, SCALE as i128), bot));
        if 0 <= t && t <= TMAX {
            let dv = ray.at(t).minus(center);
            proof {
                lemma_norm2_nonneg(dv);
            }
            let len = dv.length();
            if len <= radius {
                Some(t)
            } else {
                None
            }
        } else {
            None
        }
    }
}

/// The quadric coefficients of the infinite cylinder surface, in raw integer
/// units: with `M` the projection off the axis, `a = |M D|^2`,
/// `b = 2 (M D).(M s)`, `c = |M s|^2 - r^2`.
pub open spec fn cyl_coeffs(c: &Cilinder, r: &Ray) -> (int, int, int) {
    let q = outer_s(c.dc, c.dc);
    let m = minus_mat3_s(identity3_s(), q);
    let s = minus_s(r.origin, c.cb);
    let mdr = mul_vec3_s(m, r.dr);
    let ms = mul_vec3_s(m, s);
    (
        dot_raw(mdr, mdr),
        2 * dot_raw(mdr, ms),
        dot_raw(ms, ms) - c.r * c.r,
    )
}

/// Whether a side root is accepted: inside the parameter range, and the hit
/// point's axial projection lies strictly between base and top.
pub open spec fn cyl_side_accept(c: &Cilinder, r: &Ray, t: int) -> bool {
    let q = outer_s(c.dc, c.dc);
    let cbp = minus_s(at_s(*r, t), c.cb);
    let cbe = mul_vec3_s(q, cbp);
    &&& 0 <= t <= TMAX
    &&& dot_s(cbe, c.dc) > 0
    &&& length_s(cbe) < c.h
    &&& norm2(cyl_side_normal_pre(c, r, t)) != 0
}

/// The unnormalized side normal `M (P - Cb)`.
pub open spec fn cyl_side_normal_pre(c: &Cilinder, r: &Ray, t: int) -> Vec3 {
    let q = outer_s(c.dc, c.dc);
    let m = minus_mat3_s(identity3_s(), q);
    mul_vec3_s(m, minus_s(at_s(*r, t), c.cb))
}

/// The first accepted root on the side surface, with its unit normal.
pub open spec fn cyl_side_hit(c: &Cilinder, r: &Ray) -> Option<(int, Vec3)> {
    let abc = cyl_coeffs(c, r);
    match quad_roots_s(abc.0, abc.1, abc.2) {
        None => None,
        Some((lo, hi)) => if cyl_side_accept(c, r, lo) {
            Some((lo, normalize_s(cyl_side_normal_pre(c, r, lo))))
        } else if cyl_side_accept(c, r, hi) {
            Some((hi, normalize_s(cyl_side_normal_pre(c, r, hi))))
        } else {
            None
        },
    }
}

/// The nearest hit in the model: the side surface, then the top and base
/// disks, each replacing the current best only when strictly closer; the
/// normal is oriented against the ray at the end.
pub open spec fn cyl_hit_s(c: &Cilinder, r: &Ray) -> Option<(int, Vec3)> {
    let side = cyl_side_hit(c, r);
    let top = if c.has_tampa {
        cap_candidate_s(c.ct, c.dc, c.r, r)
    } else {
        Option::None
    };
    let cur = match top {
        Some(tt) => if side is None || tt < side->Some_0.0 {
            Some((tt, c.dc))
        } else {
            side
        },
        None => side,
    };
    let base = if c.has_base {
        cap_candidate_s(c.cb, neg_s(c.dc), c.r, r)
    } else {
        Option::None
    };
    let fin = match base {
        Some(tb) => if cur is None || tb < cur->Some_0.0 {
            Some((tb, c.dc))
        } else {
            cur
        },
        None => cur,
    };
    match fin {
        None => None,
        Some((t, n)) => Some((t, orient_s(n, r.dr))),
    }
}

impl Cilinder {
    /// Constructor; the axis is normalized here and the top center derived.
    pub fn new(
        r: i64,
        h: i64,
        cb: Vec3,
        dc: Vec3,
        material: Material,
        has_base: bool,
        has_tampa: bool,
    ) -> (res: Cilinder)
        requires
            0 < r <= MAXC,
            0 < h <= MAXC,
            vbnd(cb, MAXC as int),
            vbnd(dc, VLIM as int),
            length_s(dc) > 0,
            material_ok(material),
        ensures
            res.r == r,
            res.h == h,
            res.cb == cb,
            res.dc == normalize_s(dc),
            res.ct == plus_s(cb, scale_s(normalize_s(dc), h as int)),
            res.material == material,
            res.has_base == has_base,
            res.has_tampa == has_tampa,
            cilinder_ok(&res),
    {
        let dcn = dc.normalize();
        proof {
            lemma_scaled_axis_fits(dcn, h);
        }
        let ct = cb.plus(dcn.scaled(h));
        Cilinder { r, h, cb, ct, dc: dcn, material, has_base, has_tampa }
    }

    /// The nearest intersection of `ray` with the cylinder (side surface and
    /// optional caps): the parameter, the unit normal oriented against the
    /// ray, and the material.
    pub fn get_intersection(&self, ray: &Ray) -> (res: Option<(i64, Vec3, Material)>)
        requires
            cilinder_ok(self),
            ray_ok(*ray),
        ensures
            res is Some <==> cyl_hit_s(self, ray) is Some,
            res is Some ==> {
                let (t, n) = cyl_hit_s(self, ray)->Some_0;
                &&& res->Some_0.0 == t
                &&& res->Some_0.1 == n
                &&& res->Some_0.2 == self.material
                &&& 0 <= t <= TMAX
                &&& dot_raw(n, ray.dr) <= 0
                &&& vbnd(n, SCALE as int)
            },
            // the returned parameter is the smallest accepted candidate
            res is Some ==> {
                let t = res->Some_0.0;
                let abc = cyl_coeffs(self, ray);
                &&& (quad_roots_s(abc.0, abc.1, abc.2) matches Some((lo, hi)) ==> (
                    (cyl_side_accept(self, ray, lo) ==> t <= lo) && (cyl_side_accept(
                        self,
                        ray,
                        hi,
                    ) ==> t <= hi)))
                &&& (self.has_tampa && cap_candidate_s(self.ct, self.dc, self.r, ray) is Some
                    ==> t <= cap_candidate_s(self.ct, self.dc, self.r, ray)->Some_0)
                &&& (self.has_base && cap_candidate_s(self.cb, neg_s(self.dc), self.r, ray)
                    is Some ==> t <= cap_candidate_s(
                    self.cb,
                    neg_s(self.dc),
                    self.r,
                    ray,
                )->Some_0)
            },
    {
        let q = self.dc.projection_matrix();
        let m = self.dc.orth_projection_matrix();
        let s = ray.origin.minus(self.cb);
        let mdr = m.mul_vec(ray.dr);
        let ms = m.mul_vec(s);
        proof {
            lemma_dot_raw_bound(mdr, mdr, 0x1000_0000_0000_0000, 0x1000_0000_0000_0000);
            lemma_dot_raw_bound(mdr, ms, 0x1000_0000_0000_0000, 0x1000_0000_0000_0000);
            lemma_dot_raw_bound(ms, ms, 0x1000_0000_0000_0000, 0x1000_0000_0000_0000);
            lemma_mul_mag(self.r as int, self.r as int, MAXC as int, MAXC as int);
        }
        let a0 = mdr.dot_wide(&mdr);
        let b0 = 2 * mdr.dot_wide(&ms);
        let c0 = ms.dot_wide(&ms) - crate::fx::wmul(self.r, self.r);
        let side = match quad_roots(a0, b0, c0) {
            None => None,
            Some((lo, hi)) => {
                match self.side_check(ray, lo) {
                    Some(n) => Some((lo, n)),
                    None => match self.side_check(ray, hi) {
                        Some(n) => Some((hi, n)),
                        None => None,
                    },
                }
            },
        };
        let cur = if self.has_tampa {
            match cap_candidate(self.ct, self.dc, self.r, ray) {
                Some(tt) => if side.is_none() || tt < side.unwrap().0 {
                    Some((tt, self.dc))
                } else {
                    side
                },
                None => side,
            }
        } else {
            side
        };
        let fin = if self.has_base {
            match cap_candidate(self.cb, self.dc.negated(), self.r, ray) {
                Some(tb) => if cur.is_none() || tb < cur.unwrap().0 {
                    Some((tb, self.dc))
                } else {
                    cur
                },
                None => cur,
            }
        } else {
            cur
        };
        match fin {
            None => None,
            Some((t, n)) => Some((t, orient_against(n, ray.dr), self.material)),
        }
    }

    /// Test a side root; `Some` carries the unit side normal.
    fn side_check(&self, ray: &Ray, t: i64) -> (res: Option<Vec3>)
        requires
            cilinder_ok(self),
            ray_ok(*ray),
            bnd(t as int, TMAX as int + 1),
        ensures
            res is Some <==> cyl_side_accept(self, ray, t as int),
            res is Some ==> res->Some_0 == normalize_s(cyl_side_normal_pre(self, ray, t as int))
                && vbnd(res->Some_0, SCALE as int),
    {
        if !(0 <= t && t <= TMAX) {
            return None;
        }
        let q = self.dc.projection_matrix();
        let m = self.dc.orth_projection_matrix();
        proof {
            crate::mat3::lemma_outer_fits(self.dc, self.dc, SCALE as int);
        }
        let cbp = ray.at(t).minus(self.cb);
        let cbe = q.mul_vec(cbp);
        proof {
            lemma_dot_fits(cbe, self.dc, 0x1000_0000_0000_0000, SCALE as int);
        }
        let d = cbe.dot(self.dc);
        if !(d > 0) {
            return None;
        }
        proof {
            lemma_norm2_nonneg(cbe);
        }
        let len = cbe.length();
        if !(len < self.h) {
            return None;
        }
        let pre = m.mul_vec(cbp);
        let n2 = pre.dot_wide(&pre);
        if n2 == 0 {
            return None;
        }
        proof {
            lemma_norm2_nonneg(pre);
            lemma_sqrt_floor_pos(norm2(pre) as nat);
        }
        Some(pre.normalize())
    }
}

impl Cilinder {
    /// Move the cylinder by `d`; outside the working envelope it is left
    /// unchanged. Base and top centers move together.
    pub fn translate(&mut self, d: Vec3)
        requires
            cilinder_ok(&*old(self)),
        ensures
            cilinder_translate_rel(&*old(self), &*final(self), d),
            cilinder_ok(&*final(self)),
    {
        if crate::sphere::within_envelope(self.cb, d) && within_wide(self.ct, d) {
            self.cb = self.cb.plus(d);
            self.ct = self.ct.plus(d);
        }
    }
}

/// How a translation acts on a cylinder: inside the envelope base and top
/// centers shift together; outside it nothing changes.
pub open spec fn cilinder_translate_rel(pre: &Cilinder, post: &Cilinder, d: Vec3) -> bool {
    &&& post.r == pre.r
    &&& post.h == pre.h
    &&& post.dc == pre.dc
    &&& post.material == pre.material
    &&& post.has_base == pre.has_base
    &&& post.has_tampa == pre.has_tampa
    &&& (cyl_translated(pre, d) ==> post.cb == plus_s(pre.cb, d) && post.ct == plus_s(pre.ct, d))
    &&& (!cyl_translated(pre, d) ==> post.cb == pre.cb && post.ct == pre.ct)
}

/// Whether translating by `d` keeps both centers inside their envelopes.
pub open spec fn cyl_translated(c: &Cilinder, d: Vec3) -> bool {
    crate::sphere::fits_envelope(c.cb, d) && fits_wide(c.ct, d)
}

/// The wide envelope of derived centers (twice the scene bound).
pub open spec fn fits_wide(c: Vec3, v: Vec3) -> bool {
    bnd(c.x + v.x, 2 * MAXC as int) && bnd(c.y + v.y, 2 * MAXC as int) && bnd(
        c.z + v.z,
        2 * MAXC as int,
    )
}

pub fn within_wide(c: Vec3, v: Vec3) -> (r: bool)
    ensures
        r == fits_wide(c, v),
{
    let sx = (c.x as i128) + (v.x as i128);
    let sy = (c.y as i128) + (v.y as i128);
    let sz = (c.z as i128) + (v.z as i128);
    let b = 2 * (MAXC as i128);
    -b <= sx && sx <= b && -b <= sy && sy <= b && -b <= sz && sz <= b
}

/// An axis scaled by a height inside the envelope keeps bounded components.
proof fn lemma_scaled_axis_fits(dcn: Vec3, h: i64)
    requires
        vbnd(dcn, SCALE as int),
        0 < h <= MAXC,
    ensures
        bnd(fmul(dcn.x as int, h as int), MAXC as int),
        bnd(fmul(dcn.y as int, h as int), MAXC as int),
        bnd(fmul(dcn.z as int, h as int), MAXC as int),
{
    lemma_mul_mag(dcn.x as int, h as int, SCALE as int, MAXC as int);
    lemma_mul_mag(dcn.y as int, h as int, SCALE as int, MAXC as int);
    lemma_mul_mag(dcn.z as int, h as int, SCALE as int, MAXC as int);
    lemma_qz_mag_le(dcn.x * h, (SCALE as int) * (MAXC as int), SCALE as int);
    lemma_qz_mag_le(dcn.y * h, (SCALE as int) * (MAXC as int), SCALE as int);
    lemma_qz_mag_le(dcn.z * h, (SCALE as int) * (MAXC as int), SCALE as int);
    assert(((SCALE as int) * (MAXC as int)) / (SCALE as int) == MAXC as int) by {
        vstd::arithmetic::div_mod::lemma_div_multiples_vanish(MAXC as int, SCALE as int);
    }
}

} // verus!
