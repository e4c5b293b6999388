//! Cones with an optional base disk, and their ray intersection.

use vstd::prelude::*;
use crate::fx::{absi, bnd, qz, fmul, MAXC, RAYB, SCALE, TMAX, lemma_mul_mag, lemma_qz_mag_le,
    lemma_sqrt_floor_pos, wmulq, divq, fmul_x};
use crate::vec3::{
    Vec3, vbnd, dot_raw, dot_s, minus_s, neg_s, norm2, normalize_s, orient_s, length_s, scale_s,
    plus_s, orient_against, lemma_dot_raw_bound, lemma_dot_fits, lemma_norm2_nonneg, VLIM,
};
use crate::mat3::{Matrix3, mbnd3, mul_vec3_s, minus_mat3_s, outer_s, identity3_s,
    lemma_mul_vec_bound, lemma_outer_fits};
use crate::ray::{Ray, ray_ok, at_s};
use crate::material::{Material, material_ok};
use crate::solve::{quad_roots_s, quad_roots};
use crate::cilinder::{cap_candidate_s, cap_candidate};

verus! {

#[derive(Clone, PartialEq, Eq, Structural, Debug)]
pub struct Cone {
    pub r: i64,
    pub h: i64,
    pub cb: Vec3,
    /// The apex, `cb + h * dc`.
    pub v: Vec3,
    pub dc: Vec3,
    pub material: Material,
    pub has_base: bool,
}

pub open spec fn cone_ok(c: &Cone) -> bool {
    &&& 0 < c.r <= MAXC
    &&& 0 < c.h <= MAXC
    &&& vbnd(c.cb, MAXC as int)
    &&& vbnd(c.v, 2 * MAXC as int)
    &&& vbnd(c.dc, SCALE as int)
    &&& material_ok(c.material)
}

/// The quadric coefficients of the lateral surface in raw integer units:
/// `a = h^2 |M D|^2 - r^2 |Q D|^2`,
/// `b = 2 (h^2 (M D).(M s) + r^2 (Q D).(h dc - Q s))`,
/// `c = h^2 |M s|^2 - r^2 |h dc - Q s|^2`,
/// with each raw scalar product rescaled once before the products.
pub open spec fn cone_coeffs(c: &Cone, r: &Ray) -> (int, int, int) {
    let q = outer_s(c.dc, c.dc);
    let m = minus_mat3_s(identity3_s(), q);
    let s = minus_s(r.origin, c.cb);
    let mdr = mul_vec3_s(m, r.dr);
    let ms = mul_vec3_s(m, s);
    let qdr = mul_vec3_s(q, r.dr);
    let qs = mul_vec3_s(q, s);
    let hq = minus_s(scale_s(c.dc, c.h as int), qs);
    let h2 = fmul(c.h as int, c.h as int);
    let r2 = fmul(c.r as int, c.r as int);
    (
        h2 * qz(dot_raw(mdr, mdr), SCALE as int) - r2 * qz(dot_raw(qdr, qdr), SCALE as int),
        2 * (h2 * qz(dot_raw(mdr, ms), SCALE as int) + r2 * qz(
            dot_raw(qdr, hq),
            SCALE as int,
        )),
        h2 * qz(dot_raw(ms, ms), SCALE as int) - r2 * qz(dot_raw(hq, hq), SCALE as int),
    )
}

/// Whether a lateral root is accepted: inside the parameter range, with the
/// axial projection of the hit point strictly between base and apex, and the
/// normal construction non-degenerate.
pub open spec fn cone_side_accept(c: &Cone, r: &Ray, t: int) -> bool {
    let q = outer_s(c.dc, c.dc);
    let p = at_s(*r, t);
    let cbe = mul_vec3_s(q, minus_s(p, c.cb));
    &&& 0 <= t <= TMAX
    &&& dot_s(cbe, c.dc) > 0
    &&& length_s(cbe) < c.h
    &&& norm2(minus_s(c.v, p)) != 0
    &&& norm2(cone_side_normal_pre(c, r, t)) != 0
}

/// The unnormalized lateral normal: the axis direction projected off the
/// unit vector from the hit point toward the apex.
pub open spec fn cone_side_normal_pre(c: &Cone, r: &Ray, t: int) -> Vec3 {
    let p = at_s(*r, t);
    let pv = normalize_s(minus_s(c.v, p));
    let m_pv = minus_mat3_s(identity3_s(), outer_s(pv, pv));
    mul_vec3_s(m_pv, c.dc)
}

/// The first accepted root on the lateral surface, with its unit normal.
pub open spec fn cone_side_hit(c: &Cone, r: &Ray) -> Option<(int, Vec3)> {
    let abc = cone_coeffs(c, r);
    match quad_roots_s(abc.0, abc.1, abc.2) {
        None => None,
        Some((lo, hi)) => if cone_side_accept(c, r, lo) {
            Some((lo, normalize_s(cone_side_normal_pre(c, r, lo))))
        } else if cone_side_accept(c, r, hi) {
            Some((hi, normalize_s(cone_side_normal_pre(c, r, hi))))
        } else {
            None
        },
    }
}

/// The nearest hit in the model: the lateral surface, then the base disk
/// when it is strictly closer; the normal oriented against the ray.
pub open spec fn cone_hit_s(c: &Cone, r: &Ray) -> Option<(int, Vec3)> {
    let side = cone_side_hit(c, r);
    let base = if c.has_base {
        cap_candidate_s(c.cb, neg_s(c.dc), c.r, r)
    } else {
        Option::None
    };
    let fin = match base {
        Some(tb) => if side is None || tb < side->Some_0.0 {
            Some((tb, c.dc))
        } else {
            side
        },
        None => side,
    };
    match fin {
        None => None,
        Some((t, n)) => Some((t, orient_s(n, r.dr))),
    }
}

impl Cone {
    /// Constructor; the axis is normalized here and the apex derived.
    pub fn new(r: i64, h: i64, cb: Vec3, dc: Vec3, material: Material, has_base: bool) -> (res:
        Cone)
        requires
            0 < r <= MAXC,
            0 < h <= MAXC,
            vbnd(cb, MAXC as int),
            vbnd(dc, VLIM as int),
            length_s(dc) > 0,
            material_ok(material),
        ensures
            res.r == r,
            res.h == h,
            res.cb == cb,
            res.dc == normalize_s(dc),
            res.v == plus_s(cb, scale_s(normalize_s(dc), h as int)),
            res.material == material,
            res.has_base == has_base,
            cone_ok(&res),
    {
        let dcn = dc.normalize();
        proof {
            lemma_mul_mag(dcn.x as int, h as int, SCALE as int, MAXC as int);
            lemma_mul_mag(dcn.y as int, h as int, SCALE as int, MAXC as int);
            lemma_mul_mag(dcn.z as int, h as int, SCALE as int, MAXC as int);
            lemma_qz_mag_le(dcn.x * h, (SCALE as int) * (MAXC as int), SCALE as int);
            lemma_qz_mag_le(dcn.y * h, (SCALE as int) * (MAXC as int), SCALE as int);
            lemma_qz_mag_le(dcn.z * h, (SCALE as int) * (MAXC as int), SCALE as int);
            assert(((SCALE as int) * (MAXC as int)) / (SCALE as int) == MAXC as int) by {
                vstd::arithmetic::div_mod::lemma_div_multiples_vanish(MAXC as int, SCALE as int);
            }
        }
        let v = cb.plus(dcn.scaled(h));
        Cone { r, h, cb, v, dc: dcn, material, has_base }
    }

    /// The nearest intersection of `ray` with the cone (lateral surface and
    /// optional base disk): the parameter, the unit normal oriented against
    /// the ray, and the material.
    pub fn get_intersection(&self, ray: &Ray) -> (res: Option<(i64, Vec3, Material)>)
        requires
            cone_ok(self),
            ray_ok(*ray),
        ensures
            res is Some <==> cone_hit_s(self, ray) is Some,
            res is Some ==> {
                let (t, n) = cone_hit_s(self, ray)->Some_0;
                &&& res->Some_0.0 == t
                &&& res->Some_0.1 == n
                &&& res->Some_0.2 == self.material
                &&& 0 <= t <= TMAX
                &&& dot_raw(n, ray.dr) <= 0
                &&& vbnd(n, SCALE as int)
            },
            // the returned parameter is the smallest accepted candidate
            res is Some ==> {
                let t = res->Some_0.0;
                let abc = cone_coeffs(self, ray);
                &&& (quad_roots_s(abc.0, abc.1, abc.2) matches Some((lo, hi)) ==> (
                    (cone_side_accept(self, ray, lo) ==> t <= lo) && (cone_side_accept(
                        self,
                        ray,
                        hi,
                    ) ==> t <= hi)))
                &&& (self.has_base && cap_candidate_s(self.cb, neg_s(self.dc), self.r, ray)
                    is Some ==> t <= cap_candidate_s(
                    self.cb,
                    neg_s(self.dc),
                    self.r,
                    ray,
                )->Some_0)
            },
    {
        let q = self.dc.projection_matrix();
        let m = self.dc.orth_projection_matrix();
        proof {
            lemma_outer_fits(self.dc, self.dc, SCALE as int);
        }
        let s = ray.origin.minus(self.cb);
        let mdr = m.mul_vec(ray.dr);
        let ms = m.mul_vec(s);
        let qdr = q.mul_vec(ray.dr);
        let qs = q.mul_vec(s);
        proof {
            lemma_mul_vec_bound(m, ray.dr, 2 * SCALE as int, RAYB as int);
            lemma_mul_vec_bound(m, s, 2 * SCALE as int, RAYB as int + MAXC as int);
            lemma_mul_vec_bound(q, ray.dr, SCALE as int, RAYB as int);
            lemma_mul_vec_bound(q, s, SCALE as int, RAYB as int + MAXC as int);
            lemma_mul_mag(self.dc.x as int, self.h as int, SCALE as int, MAXC as int);
            lemma_mul_mag(self.dc.y as int, self.h as int, SCALE as int, MAXC as int);
            lemma_mul_mag(self.dc.z as int, self.h as int, SCALE as int, MAXC as int);
            lemma_qz_mag_le(self.dc.x * self.h, (SCALE as int) * (MAXC as int), SCALE as int);
            lemma_qz_mag_le(self.dc.y * self.h, (SCALE as int) * (MAXC as int), SCALE as int);
            lemma_qz_mag_le(self.dc.z * self.h, (SCALE as int) * (MAXC as int), SCALE as int);
            assert(((SCALE as int) * (MAXC as int)) / (SCALE as int) == MAXC as int) by {
                vstd::arithmetic::div_mod::lemma_div_multiples_vanish(MAXC as int, SCALE as int);
            }
            lemma_mul_mag(self.h as int, self.h as int, MAXC as int, MAXC as int);
            lemma_qz_mag_le(self.h * self.h, (MAXC as int) * (MAXC as int), SCALE as int);
            lemma_mul_mag(self.r as int, self.r as int, MAXC as int, MAXC as int);
            lemma_qz_mag_le(self.r * self.r, (MAXC as int) * (MAXC as int), SCALE as int);
        }
        let hdc = self.dc.scaled(self.h);
        let hq = hdc.minus(qs);
        let h2 = fmul_x(self.h, self.h) as i128;
        let r2 = fmul_x(self.r, self.r) as i128;
        proof {
            let big = 0x4000_0000_0000;
            lemma_dot_raw_bound(mdr, mdr, big, big);
            lemma_dot_raw_bound(mdr, ms, big, big);
            lemma_dot_raw_bound(qdr, qdr, big, big);
            lemma_dot_raw_bound(qdr, hq, big, big);
            lemma_dot_raw_bound(ms, ms, big, big);
            lemma_dot_raw_bound(hq, hq, big, big);
            lemma_qz_mag_le(dot_raw(mdr, mdr), 3 * (big * big), SCALE as int);
            lemma_qz_mag_le(dot_raw(mdr, ms), 3 * (big * big), SCALE as int);
            lemma_qz_mag_le(dot_raw(qdr, qdr), 3 * (big * big), SCALE as int);
            lemma_qz_mag_le(dot_raw(qdr, hq), 3 * (big * big), SCALE as int);
            lemma_qz_mag_le(dot_raw(ms, ms), 3 * (big * big), SCALE as int);
            lemma_qz_mag_le(dot_raw(hq, hq), 3 * (big * big), SCALE as int);
            let qb = (3 * (big * big)) / (SCALE as int);
            let hb = ((MAXC as int) * (MAXC as int)) / (SCALE as int);
            let h2s = fmul(self.h as int, self.h as int);
            let r2s = fmul(self.r as int, self.r as int);
            lemma_mul_mag(h2s, qz(dot_raw(mdr, mdr), SCALE as int), hb, qb);
            lemma_mul_mag(r2s, qz(dot_raw(qdr, qdr), SCALE as int), hb, qb);
            lemma_mul_mag(h2s, qz(dot_raw(mdr, ms), SCALE as int), hb, qb);
            lemma_mul_mag(r2s, qz(dot_raw(qdr, hq), SCALE as int), hb, qb);
            lemma_mul_mag(h2s, qz(dot_raw(ms, ms), SCALE as int), hb, qb);
            lemma_mul_mag(r2s, qz(dot_raw(hq, hq), SCALE as int), hb, qb);
        }
        let a0 = wmulq(h2, divq(mdr.dot_wide(&mdr), SCALE as i128)) - wmulq(
            r2,
            divq(qdr.dot_wide(&qdr), SCALE as i128),
        );
        let b0 = 2 * (wmulq(h2, divq(mdr.dot_wide(&ms), SCALE as i128)) + wmulq(
            r2,
            divq(qdr.dot_wide(&hq), SCALE as i128),
        ));
        let c0 = wmulq(h2, divq(ms.dot_wide(&ms), SCALE as i128)) - wmulq(
            r2,
            divq(hq.dot_wide(&hq), SCALE as i128),
        );
        let side = match quad_roots(a0, b0, c0) {
            None => None,
            Some((lo, hi)) => {
                match self.side_check(ray, lo) {
                    Some(n) => Some((lo, n)),
                    None => match self.side_check(ray, hi) {
                        Some(n) => Some((hi, n)),
                        None => None,
                    },
                }
            },
        };
        let fin = if self.has_base {
            match cap_candidate(self.cb, self.dc.negated(), self.r, ray) {
                Some(tb) => if side.is_none() || tb < side.unwrap().0 {
                    Some((tb, self.dc))
                } else {
                    side
                },
                None => side,
            }
        } else {
            side
        };
        match fin {
            None => None,
            Some((t, n)) => Some((t, orient_against(n, ray.dr), self.material)),
        }
    }

    /// Test a lateral root; `Some` carries the unit lateral normal.
    fn side_check(&self, ray: &Ray, t: i64) -> (res: Option<Vec3>)
        requires
            cone_ok(self),
            ray_ok(*ray),
            bnd(t as int, TMAX as int + 1),
        ensures
            res is Some <==> cone_side_accept(self, ray, t as int),
            res is Some ==> res->Some_0 == normalize_s(cone_side_normal_pre(self, ray, t as int))
                && vbnd(res->Some_0, SCALE as int),
    {
        if !(0 <= t && t <= TMAX) {
            return None;
        }
        let q = self.dc.projection_matrix();
        proof {
            lemma_outer_fits(self.dc, self.dc, SCALE as int);
        }
        let p = ray.at(t);
        let cbp = p.minus(self.cb);
        let cbe = q.mul_vec(cbp);
        proof {
            lemma_dot_fits(cbe, self.dc, 0x1000_0000_0000_0000, SCALE as int);
        }
        let d = cbe.dot(self.dc);
        if !(d > 0) {
            return None;
        }
        proof {
            lemma_norm2_nonneg(cbe);
        }
        let len = cbe.length();
        if !(len < self.h) {
            return None;
        }
        let pvc = self.v.minus(p);
        let pn2 = pvc.dot_wide(&pvc);
        if pn2 == 0 {
            return None;
        }
        proof {
            lemma_norm2_nonneg(pvc);
            lemma_sqrt_floor_pos(norm2(pvc) as nat);
        }
        let pv = pvc.normalize();
        let m_pv = pv.orth_projection_matrix();
        let pre = m_pv.mul_vec(self.dc);
        let n2 = pre.dot_wide(&pre);
        if n2 == 0 {
            return None;
        }
        proof {
            lemma_norm2_nonneg(pre);
            lemma_sqrt_floor_pos(norm2(pre) as nat);
        }
        Some(pre.normalize())
    }
}

} // verus!

verus! {

impl Cone {
    /// Move the cone by `d`; outside the working envelope it is left
    /// unchanged. Base center and apex move together.
    pub fn translate(&mut self, d: Vec3)
        requires
            cone_ok(&*old(self)),
        ensures
            cone_translate_rel(&*old(self), &*final(self), d),
            cone_ok(&*final(self)),
    {
        if crate::sphere::within_envelope(self.cb, d) && crate::cilinder::within_wide(
            self.v,
            d,
        ) {
            self.cb = self.cb.plus(d);
            self.v = self.v.plus(d);
        }
    }
}

impl Cone {
    /// Apply an affine transform: base center and apex move through the
    /// matrix and the axis is renormalized from them; a degenerate or
    /// out-of-envelope result leaves the cone unchanged.
    pub fn transform(&mut self, m: &crate::mat4::Matrix4)
        requires
            cone_ok(&*old(self)),
            crate::mat4::mbnd4(*m, crate::mat4::TRB as int),
        ensures
            cone_transform_rel(&*old(self), &*final(self), *m),
            cone_ok(&*final(self)),
    {
        let cb2 = m.transform_point(self.cb);
        let v2 = m.transform_point(self.v);
        let cb_ok = -MAXC <= cb2.x && cb2.x <= MAXC && -MAXC <= cb2.y && cb2.y <= MAXC && -MAXC
            <= cb2.z && cb2.z <= MAXC;
        let wide = 2 * MAXC;
        let v_ok = -wide <= v2.x && v2.x <= wide && -wide <= v2.y && v2.y <= wide && -wide
            <= v2.z && v2.z <= wide;
        if !(cb_ok && v_ok) {
            return ;
        }
        let axis = v2.minus(cb2);
        let n2 = axis.dot_wide(&axis);
        if n2 == 0 {
            return ;
        }
        proof {
            lemma_norm2_nonneg(axis);
            crate::fx::lemma_sqrt_floor_pos(norm2(axis) as nat);
            crate::vec3::lemma_normalize_box(axis);
        }
        let dc2 = axis.normalize();
        self.cb = cb2;
        self.v = v2;
        self.dc = dc2;
    }
}

/// Whether translating by `d` keeps base and apex inside their envelopes.
pub open spec fn cone_translated(c: &Cone, d: Vec3) -> bool {
    crate::sphere::fits_envelope(c.cb, d) && crate::cilinder::fits_wide(c.v, d)
}

/// How a translation acts on a cone: inside the envelope base center and
/// apex shift together; outside it nothing changes.
pub open spec fn cone_translate_rel(pre: &Cone, post: &Cone, d: Vec3) -> bool {
    &&& post.r == pre.r
    &&& post.h == pre.h
    &&& post.dc == pre.dc
    &&& post.material == pre.material
    &&& post.has_base == pre.has_base
    &&& (cone_translated(pre, d) ==> post.cb == plus_s(pre.cb, d) && post.v == plus_s(pre.v, d))
    &&& (!cone_translated(pre, d) ==> post.cb == pre.cb && post.v == pre.v)
}

/// Whether the transformed base and apex fit their envelopes and still span
/// a usable axis.
pub open spec fn cone_xform_fits(c: &Cone, m: crate::mat4::Matrix4) -> bool {
    &&& vbnd(crate::mat4::xform_point_s(m, c.cb), MAXC as int)
    &&& vbnd(crate::mat4::xform_point_s(m, c.v), 2 * MAXC as int)
    &&& norm2(
        minus_s(crate::mat4::xform_point_s(m, c.v), crate::mat4::xform_point_s(m, c.cb)),
    ) != 0
}

/// How an affine transform acts on a cone: inside the envelope base and
/// apex map through the matrix and the axis is renormalized from them;
/// otherwise nothing changes.
pub open spec fn cone_transform_rel(pre: &Cone, post: &Cone, m: crate::mat4::Matrix4) -> bool {
    &&& post.r == pre.r
    &&& post.h == pre.h
    &&& post.material == pre.material
    &&& post.has_base == pre.has_base
    &&& (cone_xform_fits(pre, m) ==> post.cb == crate::mat4::xform_point_s(m, pre.cb) && post.v
        == crate::mat4::xform_point_s(m, pre.v) && post.dc == normalize_s(
        minus_s(
            crate::mat4::xform_point_s(m, pre.v),
            crate::mat4::xform_point_s(m, pre.cb),
        ),
    ))
    &&& (!cone_xform_fits(pre, m) ==> post.cb == pre.cb && post.v == pre.v && post.dc == pre.dc)
}

} // verus!
