//! Triangle meshes: a vertex list, triangles as vertex-index triples, an
//! axis-aligned bounding box for fast rejection, and a centroid.
//!
//! The slab test and the triangle test are carried out on exact integer
//! cross-multiplied comparisons, so no rounding can reject a ray that the
//! rational arithmetic accepts.

use vstd::prelude::*;
use crate::fx::{absi, bnd, qz, MAXC, RAYB, SCALE, TMAX, lemma_mul_mag, lemma_qz_mag,
    lemma_sqrt_floor_pos, wmul, wmul2, wmulq, divq};
use crate::vec3::{
    Vec3, vbnd, dot_raw, minus_s, norm2, normalize_s, cross_s, crx, cry, crz, length_s,
    lemma_dot_raw_bound, lemma_cross_raw_bound, lemma_cross_fits, lemma_norm2_nonneg, VLIM,
};
use crate::ray::{Ray, ray_ok, at_s};
use crate::material::{Material, material_ok};
use crate::solve::{cap_t, cap_root};

verus! {

/// The epsilon of the parallel-ray test. The guarded triple product carries
/// three fixed-point factors (scale 65536 cubed), so this raw value is about
/// 1e-8 in whole units.
pub const TRI_EPS: i128 = 2814750;

pub struct Mesh {
    pub vertices: Vec<Vec3>,
    pub triangles: Vec<(usize, usize, usize)>,
    pub material: Material,
    pub min_bound: Vec3,
    pub max_bound: Vec3,
    pub centroid: Vec3,
}

pub open spec fn tri_ok(t: (usize, usize, usize), n: int) -> bool {
    t.0 < n && t.1 < n && t.2 < n
}

pub open spec fn inside_box(v: Vec3, mn: Vec3, mx: Vec3) -> bool {
    mn.x <= v.x <= mx.x && mn.y <= v.y <= mx.y && mn.z <= v.z <= mx.z
}

pub open spec fn mesh_ok(m: &Mesh) -> bool {
    &&& 1 <= m.vertices@.len() <= 1000000
    &&& m.triangles@.len() <= 1000000
    &&& forall|i: int|
        0 <= i < m.vertices@.len() ==> vbnd(#[trigger] m.vertices@[i], MAXC as int) && inside_box(
            m.vertices@[i],
            m.min_bound,
            m.max_bound,
        )
    &&& forall|i: int|
        0 <= i < m.triangles@.len() ==> tri_ok(
            #[trigger] m.triangles@[i],
            m.vertices@.len() as int,
        )
    &&& vbnd(m.min_bound, MAXC as int)
    &&& vbnd(m.max_bound, MAXC as int)
    &&& m.min_bound.x <= m.max_bound.x
    &&& m.min_bound.y <= m.max_bound.y
    &&& m.min_bound.z <= m.max_bound.z
    &&& vbnd(m.centroid, MAXC as int)
    &&& material_ok(m.material)
}

/// The exact slab test of the ray against the bounding box, stated over
/// cross-multiplied rational comparisons. For each axis with a nonzero
/// direction component the parameter interval is
/// `[lo_n / den, hi_n / den]` with a positive denominator; the ray meets the
/// box iff every lower bound is at most every upper bound, every upper bound
/// is nonnegative, and on each axis with a zero component the origin lies
/// between the slabs.
pub open spec fn slab_lo(o: int, mn: int, mx: int, d: int) -> int {
    if d > 0 {
        mn - o
    } else {
        o - mx
    }
}

pub open spec fn slab_hi(o: int, mn: int, mx: int, d: int) -> int {
    if d > 0 {
        mx - o
    } else {
        o - mn
    }
}

pub open spec fn slab_hit_s(m: &Mesh, r: &Ray) -> bool {
    let o = r.origin;
    let d = r.dr;
    let mn = m.min_bound;
    let mx = m.max_bound;
    let lx = slab_lo(o.x as int, mn.x as int, mx.x as int, d.x as int);
    let hx = slab_hi(o.x as int, mn.x as int, mx.x as int, d.x as int);
    let ly = slab_lo(o.y as int, mn.y as int, mx.y as int, d.y as int);
    let hy = slab_hi(o.y as int, mn.y as int, mx.y as int, d.y as int);
    let lz = slab_lo(o.z as int, mn.z as int, mx.z as int, d.z as int);
    let hz = slab_hi(o.z as int, mn.z as int, mx.z as int, d.z as int);
    let ax = absi(d.x as int);
    let ay = absi(d.y as int);
    let az = absi(d.z as int);
    &&& (d.x == 0 ==> mn.x <= o.x <= mx.x)
    &&& (d.y == 0 ==> mn.y <= o.y <= mx.y)
    &&& (d.z == 0 ==> mn.z <= o.z <= mx.z)
    &&& (d.x != 0 ==> hx >= 0)
    &&& (d.y != 0 ==> hy >= 0)
    &&& (d.z != 0 ==> hz >= 0)
    &&& (d.x != 0 && d.y != 0 ==> lx * ay <= hy * ax && ly * ax <= hx * ay)
    &&& (d.x != 0 && d.z != 0 ==> lx * az <= hz * ax && lz * ax <= hx * az)
    &&& (d.y != 0 && d.z != 0 ==> ly * az <= hz * ay && lz * ay <= hy * az)
}

/// The Moeller-Trumbore candidate for one triangle, with backface culling
/// against the exact geometric normal: `None` unless the ray meets the
/// triangle's front face at a parameter in `(0, TMAX]`.
pub open spec fn tri_candidate_s(v0: Vec3, v1: Vec3, v2: Vec3, r: &Ray) -> Option<(int, Vec3)> {
    let e1 = minus_s(v1, v0);
    let e2 = minus_s(v2, v0);
    let nx = crx(e1, e2);
    let ny = cry(e1, e2);
    let nz = crz(e1, e2);
    let culled = nx * r.dr.x + ny * r.dr.y + nz * r.dr.z >= 0;
    let a = e1.x * crx(r.dr, e2) + e1.y * cry(r.dr, e2) + e1.z * crz(r.dr, e2);
    let s = minus_s(r.origin, v0);
    let ua = s.x * crx(r.dr, e2) + s.y * cry(r.dr, e2) + s.z * crz(r.dr, e2);
    let va = r.dr.x * crx(s, e1) + r.dr.y * cry(s, e1) + r.dr.z * crz(s, e1);
    let ta = e2.x * crx(s, e1) + e2.y * cry(s, e1) + e2.z * crz(s, e1);
    if culled || -TRI_EPS < a < TRI_EPS {
        None
    } else if a > 0 && (0 <= ua <= a && 0 <= va && ua + va <= a) || a < 0 && (a <= ua <= 0 && va
        <= 0 && a <= ua + va) {
        let t = cap_t(qz(ta * (SCALE as int), a));
        if 0 < t <= TMAX && norm2(cross_s(e1, e2)) != 0 {
            Some((t, crate::vec3::orient_s(normalize_s(cross_s(e1, e2)), r.dr)))
        } else {
            None
        }
    } else {
        None
    }
}

/// The best (smallest-parameter) triangle candidate among the first `n`
/// triangles; on equal parameters the later triangle wins.
pub open spec fn mesh_best_s(m: &Mesh, r: &Ray, n: int) -> Option<(int, Vec3)>
    decreases n,
{
    if n <= 0 {
        None
    } else {
        let prev = mesh_best_s(m, r, n - 1);
        let tri = m.triangles@[n - 1];
        let cand = tri_candidate_s(
            m.vertices@[tri.0 as int],
            m.vertices@[tri.1 as int],
            m.vertices@[tri.2 as int],
            r,
        );
        match cand {
            None => prev,
            Some((t, nrm)) => match prev {
                None => Some((t, nrm)),
                Some((pt, pn)) => if t <= pt {
                    Some((t, nrm))
                } else {
                    Some((pt, pn))
                },
            },
        }
    }
}

/// The full mesh intersection in the model: nothing unless the slab test
/// passes; then the best triangle candidate.
pub open spec fn mesh_hit_s(m: &Mesh, r: &Ray) -> Option<(int, Vec3)> {
    if !slab_hit_s(m, r) {
        None
    } else {
        mesh_best_s(m, r, m.triangles@.len() as int)
    }
}

/// The component-wise minimum of two vectors.
pub open spec fn vmin_s(a: Vec3, b: Vec3) -> Vec3 {
    Vec3 {
        x: if b.x < a.x {
            b.x
        } else {
            a.x
        },
        y: if b.y < a.y {
            b.y
        } else {
            a.y
        },
        z: if b.z < a.z {
            b.z
        } else {
            a.z
        },
    }
}

/// The component-wise maximum of two vectors.
pub open spec fn vmax_s(a: Vec3, b: Vec3) -> Vec3 {
    Vec3 {
        x: if b.x > a.x {
            b.x
        } else {
            a.x
        },
        y: if b.y > a.y {
            b.y
        } else {
            a.y
        },
        z: if b.z > a.z {
            b.z
        } else {
            a.z
        },
    }
}

/// The component-wise minimum of the first `n` vertices.
pub open spec fn bbox_min_to(s: Seq<Vec3>, n: int) -> Vec3
    decreases n,
{
    if n <= 1 {
        s[0]
    } else {
        vmin_s(bbox_min_to(s, n - 1), s[n - 1])
    }
}

/// The component-wise maximum of the first `n` vertices.
pub open spec fn bbox_max_to(s: Seq<Vec3>, n: int) -> Vec3
    decreases n,
{
    if n <= 1 {
        s[0]
    } else {
        vmax_s(bbox_max_to(s, n - 1), s[n - 1])
    }
}

/// Component sums of the first `n` vertices.
pub open spec fn sum_x_to(s: Seq<Vec3>, n: int) -> int
    decreases n,
{
    if n <= 0 {
        0
    } else {
        sum_x_to(s, n - 1) + s[n - 1].x
    }
}

pub open spec fn sum_y_to(s: Seq<Vec3>, n: int) -> int
    decreases n,
{
    if n <= 0 {
        0
    } else {
        sum_y_to(s, n - 1) + s[n - 1].y
    }
}

pub open spec fn sum_z_to(s: Seq<Vec3>, n: int) -> int
    decreases n,
{
    if n <= 0 {
        0
    } else {
        sum_z_to(s, n - 1) + s[n - 1].z
    }
}

/// The centroid of a nonempty vertex list: the component sums divided by the
/// count, rounded toward zero.
pub open spec fn centroid_s(s: Seq<Vec3>) -> Vec3 {
    Vec3 {
        x: qz(sum_x_to(s, s.len() as int), s.len() as int) as i64,
        y: qz(sum_y_to(s, s.len() as int), s.len() as int) as i64,
        z: qz(sum_z_to(s, s.len() as int), s.len() as int) as i64,
    }
}

impl Mesh {
    /// The component-wise bounds of a nonempty vertex list.
    pub fn calculate_bounding_box(vertices: &Vec<Vec3>) -> (r: (Vec3, Vec3))
        requires
            1 <= vertices@.len(),
            forall|i: int| 0 <= i < vertices@.len() ==> vbnd(#[trigger] vertices@[i], MAXC as int),
        ensures
            r.0 == bbox_min_to(vertices@, vertices@.len() as int),
            r.1 == bbox_max_to(vertices@, vertices@.len() as int),
            vbnd(r.0, MAXC as int),
            vbnd(r.1, MAXC as int),
            r.0.x <= r.1.x && r.0.y <= r.1.y && r.0.z <= r.1.z,
            forall|i: int| 0 <= i < vertices@.len() ==> inside_box(#[trigger] vertices@[i], r.0, r.1),
    {
        let mut mn = vertices[0];
        let mut mx = vertices[0];
        let mut i: usize = 1;
        while i < vertices.len()
            invariant
                1 <= i <= vertices@.len(),
                vertices@.len() >= 1,
                forall|k: int| 0 <= k < vertices@.len() ==> vbnd(#[trigger] vertices@[k], MAXC as int),
                vbnd(mn, MAXC as int),
                vbnd(mx, MAXC as int),
                mn == bbox_min_to(vertices@, i as int),
                mx == bbox_max_to(vertices@, i as int),
                mn.x <= mx.x && mn.y <= mx.y && mn.z <= mx.z,
                forall|k: int| 0 <= k < i ==> inside_box(#[trigger] vertices@[k], mn, mx),
            decreases vertices@.len() - i,
        {
            let v = vertices[i];
            mn = Vec3 {
                x: if v.x < mn.x {
                    v.x
                } else {
                    mn.x
                },
                y: if v.y < mn.y {
                    v.y
                } else {
                    mn.y
                },
                z: if v.z < mn.z {
                    v.z
                } else {
                    mn.z
                },
            };
            mx = Vec3 {
                x: if v.x > mx.x {
                    v.x
                } else {
                    mx.x
                },
                y: if v.y > mx.y {
                    v.y
                } else {
                    mx.y
                },
                z: if v.z > mx.z {
                    v.z
                } else {
                    mx.z
                },
            };
            i = i + 1;
        }
        (mn, mx)
    }

    /// Constructor from a vertex list and triangle index triples; the
    /// bounding box and centroid are derived here.
    pub fn new(vertices: Vec<Vec3>, triangles: Vec<(usize, usize, usize)>, material: Material) -> (r:
        Mesh)
        requires
            1 <= vertices@.len() <= 1000000,
            triangles@.len() <= 1000000,
            forall|i: int| 0 <= i < vertices@.len() ==> vbnd(#[trigger] vertices@[i], MAXC as int),
            forall|i: int|
                0 <= i < triangles@.len() ==> tri_ok(#[trigger] triangles@[i], vertices@.len() as int),
            material_ok(material),
        ensures
            r.vertices@ == vertices@,
            r.triangles@ == triangles@,
            r.material == material,
            r.min_bound == bbox_min_to(vertices@, vertices@.len() as int),
            r.max_bound == bbox_max_to(vertices@, vertices@.len() as int),
            r.centroid == centroid_s(vertices@),
            mesh_ok(&r),
    {
        let bb = Self::calculate_bounding_box(&vertices);
        let mut sx: i128 = 0;
        let mut sy: i128 = 0;
        let mut sz: i128 = 0;
        let mut i: usize = 0;
        while i < vertices.len()
            invariant
                0 <= i <= vertices@.len(),
                vertices@.len() <= 1000000,
                forall|k: int| 0 <= k < vertices@.len() ==> vbnd(#[trigger] vertices@[k], MAXC as int),
                bnd(sx as int, i * (MAXC as int)),
                bnd(sy as int, i * (MAXC as int)),
                bnd(sz as int, i * (MAXC as int)),
                sx == sum_x_to(vertices@, i as int),
                sy == sum_y_to(vertices@, i as int),
                sz == sum_z_to(vertices@, i as int),
            decreases vertices@.len() - i,
        {
            let v = vertices[i];
            sx = sx + v.x as i128;
            sy = sy + v.y as i128;
            sz = sz + v.z as i128;
            i = i + 1;
        }
        let n = vertices.len() as i128;
        proof {
            crate::fx::lemma_qz_mag_le(sx as int, (MAXC as int) * (vertices@.len() as int), vertices@.len() as int);
            crate::fx::lemma_qz_mag_le(sy as int, (MAXC as int) * (vertices@.len() as int), vertices@.len() as int);
            crate::fx::lemma_qz_mag_le(sz as int, (MAXC as int) * (vertices@.len() as int), vertices@.len() as int);
            assert(((MAXC as int) * (vertices@.len() as int)) / (vertices@.len() as int) == MAXC as int) by {
                vstd::arithmetic::div_mod::lemma_div_multiples_vanish(MAXC as int, vertices@.len() as int);
            }
            assert(bnd(sx as int, (MAXC as int) * (vertices@.len() as int))) by (nonlinear_arith)
                requires
                    bnd(sx as int, (vertices@.len() as int) * (MAXC as int)),
            ;
            assert(bnd(sy as int, (MAXC as int) * (vertices@.len() as int))) by (nonlinear_arith)
                requires
                    bnd(sy as int, (vertices@.len() as int) * (MAXC as int)),
            ;
            assert(bnd(sz as int, (MAXC as int) * (vertices@.len() as int))) by (nonlinear_arith)
                requires
                    bnd(sz as int, (vertices@.len() as int) * (MAXC as int)),
            ;
        }
        let centroid = Vec3 {
            x: divq(sx, n) as i64,
            y: divq(sy, n) as i64,
            z: divq(sz, n) as i64,
        };
        Mesh { vertices, triangles, material, min_bound: bb.0, max_bound: bb.1, centroid }
    }

    /// The exact slab test against the bounding box.
    pub fn intersects_bounding_box(&self, ray: &Ray) -> (hit: bool)
        requires
            mesh_ok(self),
            ray_ok(*ray),
        ensures
            hit == slab_hit_s(self, ray),
    {
        let o = ray.origin;
        let d = ray.dr;
        let mn = self.min_bound;
        let mx = self.max_bound;
        if d.x == 0 && !(mn.x <= o.x && o.x <= mx.x) {
            return false;
        }
        if d.y == 0 && !(mn.y <= o.y && o.y <= mx.y) {
            return false;
        }
        if d.z == 0 && !(mn.z <= o.z && o.z <= mx.z) {
            return false;
        }
        let lx: i128 = if d.x > 0 {
            mn.x as i128 - o.x as i128
        } else {
            o.x as i128 - mx.x as i128
        };
        let hx: i128 = if d.x > 0 {
            mx.x as i128 - o.x as i128
        } else {
            o.x as i128 - mn.x as i128
        };
        let ly: i128 = if d.y > 0 {
            mn.y as i128 - o.y as i128
        } else {
            o.y as i128 - mx.y as i128
        };
        let hy: i128 = if d.y > 0 {
            mx.y as i128 - o.y as i128
        } else {
            o.y as i128 - mn.y as i128
        };
        let lz: i128 = if d.z > 0 {
            mn.z as i128 - o.z as i128
        } else {
            o.z as i128 - mx.z as i128
        };
        let hz: i128 = if d.z > 0 {
            mx.z as i128 - o.z as i128
        } else {
            o.z as i128 - mn.z as i128
        };
        let ax: i128 = if d.x >= 0 {
            d.x as i128
        } else {
            -(d.x as i128)
        };
        let ay: i128 = if d.y >= 0 {
            d.y as i128
        } else {
            -(d.y as i128)
        };
        let az: i128 = if d.z >= 0 {
            d.z as i128
        } else {
            -(d.z as i128)
        };
        if d.x != 0 && hx < 0 {
            return false;
        }
        if d.y != 0 && hy < 0 {
            return false;
        }
        if d.z != 0 && hz < 0 {
            return false;
        }
        proof {
            lemma_slab_products(lx as int, hx as int, ly as int, hy as int, lz as int, hz as int, ax as int, ay as int, az as int);
        }
        if d.x != 0 && d.y != 0 && !(lx * ay <= hy * ax && ly * ax <= hx * ay) {
            return false;
        }
        if d.x != 0 && d.z != 0 && !(lx * az <= hz * ax && lz * ax <= hx * az) {
            return false;
        }
        if d.y != 0 && d.z != 0 && !(ly * az <= hz * ay && lz * ay <= hy * az) {
            return false;
        }
        true
    }

    /// The nearest intersection of `ray` with the mesh. The bounding box is
    /// consulted first: a ray that misses it never produces a hit, and a ray
    /// that meets it is always tested against every triangle.
    pub fn get_intersection(&self, ray: &Ray) -> (res: Option<(i64, Vec3, Material)>)
        requires
            mesh_ok(self),
            ray_ok(*ray),
        ensures
            res is Some <==> mesh_hit_s(self, ray) is Some,
            res is Some ==> {
                let (t, n) = mesh_hit_s(self, ray)->Some_0;
                &&& res->Some_0.0 == t
                &&& res->Some_0.1 == n
                &&& res->Some_0.2 == self.material
                &&& 0 < t <= TMAX
                &&& dot_raw(n, ray.dr) <= 0
                &&& vbnd(n, SCALE as int)
            },
            // a ray that misses the box never reports a hit
            !slab_hit_s(self, ray) ==> res is None,
            // a ray that meets the box is decided by the triangles alone
            slab_hit_s(self, ray) ==> (res is Some <==> mesh_best_s(
                self,
                ray,
                self.triangles@.len() as int,
            ) is Some),
            // the returned parameter is the smallest accepted candidate
            res is Some ==> forall|j: int|
                0 <= j < self.triangles@.len() ==> (#[trigger] tri_candidate_s(
                    self.vertices@[self.triangles@[j].0 as int],
                    self.vertices@[self.triangles@[j].1 as int],
                    self.vertices@[self.triangles@[j].2 as int],
                    ray,
                )) is Some ==> res->Some_0.0 <= tri_candidate_s(
                    self.vertices@[self.triangles@[j].0 as int],
                    self.vertices@[self.triangles@[j].1 as int],
                    self.vertices@[self.triangles@[j].2 as int],
                    ray,
                )->Some_0.0,
    {
        if !self.intersects_bounding_box(ray) {
            return None;
        }
        let mut best: Option<(i64, Vec3)> = None;
        let mut i: usize = 0;
        while i < self.triangles.len()
            invariant
                mesh_ok(self),
                ray_ok(*ray),
                0 <= i <= self.triangles@.len(),
                best is Some <==> mesh_best_s(self, ray, i as int) is Some,
                best is Some ==> best->Some_0.0 == mesh_best_s(self, ray, i as int)->Some_0.0
                    && best->Some_0.1 == mesh_best_s(self, ray, i as int)->Some_0.1 && 0 < best->Some_0.0 <= TMAX
                    && dot_raw(best->Some_0.1, ray.dr) <= 0 && vbnd(best->Some_0.1, SCALE as int),
                best is Some ==> forall|j: int|
                    0 <= j < i ==> (#[trigger] tri_candidate_s(
                        self.vertices@[self.triangles@[j].0 as int],
                        self.vertices@[self.triangles@[j].1 as int],
                        self.vertices@[self.triangles@[j].2 as int],
                        ray,
                    )) is Some ==> best->Some_0.0 <= tri_candidate_s(
                        self.vertices@[self.triangles@[j].0 as int],
                        self.vertices@[self.triangles@[j].1 as int],
                        self.vertices@[self.triangles@[j].2 as int],
                        ray,
                    )->Some_0.0,
            decreases self.triangles@.len() - i,
        {
            proof {
                if best is None {
                    lemma_mesh_best_none(self, ray, i as int);
                }
            }
            let tri = self.triangles[i];
            let v0 = self.vertices[tri.0];
            let v1 = self.vertices[tri.1];
            let v2 = self.vertices[tri.2];
            let cand = tri_candidate(v0, v1, v2, ray);
            match cand {
                None => {},
                Some((t, nrm)) => {
                    match best {
                        None => {
                            best = Some((t, nrm));
                        },
                        Some((pt, _)) => {
                            if t <= pt {
                                best = Some((t, nrm));
                            }
                        },
                    }
                },
            }
            i = i + 1;
        }
        match best {
            None => None,
            Some((t, n)) => Some((t, n, self.material)),
        }
    }
}

/// Evaluate the Moeller-Trumbore candidate for one triangle.
fn tri_candidate(v0: Vec3, v1: Vec3, v2: Vec3, ray: &Ray) -> (res: Option<(i64, Vec3)>)
    requires
        vbnd(v0, MAXC as int),
        vbnd(v1, MAXC as int),
        vbnd(v2, MAXC as int),
        ray_ok(*ray),
    ensures
        res is Some <==> tri_candidate_s(v0, v1, v2, ray) is Some,
        res is Some ==> {
            let (t, n) = tri_candidate_s(v0, v1, v2, ray)->Some_0;
            res->Some_0.0 == t && res->Some_0.1 == n && 0 < t <= TMAX && vbnd(n, SCALE as int)
                && dot_raw(n, ray.dr) <= 0
        },
{
    let e1 = v1.minus(v0);
    let e2 = v2.minus(v0);
    proof {
        lemma_cross_raw_bound(e1, e2, 2 * MAXC as int, 2 * MAXC as int);
        lemma_cross_raw_bound(ray.dr, e2, RAYB as int, 2 * MAXC as int);
    }
    let nxx = wmul(e1.y, e2.z) - wmul(e1.z, e2.y);
    let nxy = wmul(e1.z, e2.x) - wmul(e1.x, e2.z);
    let nxz = wmul(e1.x, e2.y) - wmul(e1.y, e2.x);
    proof {
        lemma_mul_mag(crx(e1, e2), ray.dr.x as int, 0x100_0000_0000_0000_0000, RAYB as int);
        lemma_mul_mag(cry(e1, e2), ray.dr.y as int, 0x100_0000_0000_0000_0000, RAYB as int);
        lemma_mul_mag(crz(e1, e2), ray.dr.z as int, 0x100_0000_0000_0000_0000, RAYB as int);
    }
    let culldot = wmul2(nxx, ray.dr.x as i128) + wmul2(nxy, ray.dr.y as i128) + wmul2(
        nxz,
        ray.dr.z as i128,
    );
    if culldot >= 0 {
        return None;
    }
    let hxx = wmul(ray.dr.y, e2.z) - wmul(ray.dr.z, e2.y);
    let hxy = wmul(ray.dr.z, e2.x) - wmul(ray.dr.x, e2.z);
    let hxz = wmul(ray.dr.x, e2.y) - wmul(ray.dr.y, e2.x);
    proof {
        let cb = 2 * ((RAYB as int) * (2 * (MAXC as int)));
        lemma_mul_mag(e1.x as int, crx(ray.dr, e2), 2 * MAXC as int, cb);
        lemma_mul_mag(e1.y as int, cry(ray.dr, e2), 2 * MAXC as int, cb);
        lemma_mul_mag(e1.z as int, crz(ray.dr, e2), 2 * MAXC as int, cb);
    }
    let a = wmulq(e1.x as i128, hxx) + wmulq(e1.y as i128, hxy) + wmulq(e1.z as i128, hxz);
    if -TRI_EPS < a && a < TRI_EPS {
        return None;
    }
    let s = ray.origin.minus(v0);
    proof {
        let cb = 2 * ((RAYB as int) * (2 * (MAXC as int)));
        lemma_mul_mag(s.x as int, crx(ray.dr, e2), RAYB as int + MAXC as int, cb);
        lemma_mul_mag(s.y as int, cry(ray.dr, e2), RAYB as int + MAXC as int, cb);
        lemma_mul_mag(s.z as int, crz(ray.dr, e2), RAYB as int + MAXC as int, cb);
        lemma_cross_raw_bound(s, e1, RAYB as int + MAXC as int, 2 * MAXC as int);
    }
    let ua = wmulq(s.x as i128, hxx) + wmulq(s.y as i128, hxy) + wmulq(s.z as i128, hxz);
    let qxx = wmul(s.y, e1.z) - wmul(s.z, e1.y);
    let qxy = wmul(s.z, e1.x) - wmul(s.x, e1.z);
    let qxz = wmul(s.x, e1.y) - wmul(s.y, e1.x);
    proof {
        let cb2 = 2 * (((RAYB as int) + (MAXC as int)) * (2 * (MAXC as int)));
        lemma_mul_mag(ray.dr.x as int, crx(s, e1), RAYB as int, cb2);
        lemma_mul_mag(ray.dr.y as int, cry(s, e1), RAYB as int, cb2);
        lemma_mul_mag(ray.dr.z as int, crz(s, e1), RAYB as int, cb2);
        lemma_mul_mag(e2.x as int, crx(s, e1), 2 * MAXC as int, cb2);
        lemma_mul_mag(e2.y as int, cry(s, e1), 2 * MAXC as int, cb2);
        lemma_mul_mag(e2.z as int, crz(s, e1), 2 * MAXC as int, cb2);
    }
    let va = wmulq(ray.dr.x as i128, qxx) + wmulq(ray.dr.y as i128, qxy) + wmulq(
        ray.dr.z as i128,
        qxz,
    );
    let ta = wmulq(e2.x as i128, qxx) + wmulq(e2.y as i128, qxy) + wmulq(e2.z as i128, qxz);
    let inside = if a > 0 {
        0 <= ua && ua <= a && 0 <= va && ua + va <= a
    } else {
        a <= ua && ua <= 0 && va <= 0 && a <= ua + va
    };
    if !inside {
        return None;
    }
    let t = cap_root(divq(ta * (SCALE as i128), a));
    if !(0 < t && t <= TMAX) {
        return None;
    }
    proof {
        lemma_cross_fits(e1, e2, 2 * MAXC as int, 2 * MAXC as int);
    }
    let nc = e1.cross(e2);
    let n2 = nc.dot_wide(&nc);
    if n2 == 0 {
        return None;
    }
    proof {
        lemma_norm2_nonneg(nc);
        lemma_sqrt_floor_pos(norm2(nc) as nat);
    }
    Some((t, crate::vec3::orient_against(nc.normalize(), ray.dr)))
}

/// While the running best is empty, every earlier triangle candidate was
/// empty too.
proof fn lemma_mesh_best_none(m: &Mesh, r: &Ray, n: int)
    requires
        0 <= n <= m.triangles@.len(),
        mesh_best_s(m, r, n) is None,
    ensures
        forall|j: int|
            0 <= j < n ==> (#[trigger] tri_candidate_s(
                m.vertices@[m.triangles@[j].0 as int],
                m.vertices@[m.triangles@[j].1 as int],
                m.vertices@[m.triangles@[j].2 as int],
                r,
            )) is None,
    decreases n,
{
    if n > 0 {
        lemma_mesh_best_none(m, r, n - 1);
    }
}

/// The slab products of envelope-bounded numerators and denominators fit
/// comfortably in `i128`.
proof fn lemma_slab_products(
    lx: int,
    hx: int,
    ly: int,
    hy: int,
    lz: int,
    hz: int,
    ax: int,
    ay: int,
    az: int,
)
    requires
        absi(lx) <= 0x1000_0000_0000,
        absi(hx) <= 0x1000_0000_0000,
        absi(ly) <= 0x1000_0000_0000,
        absi(hy) <= 0x1000_0000_0000,
        absi(lz) <= 0x1000_0000_0000,
        absi(hz) <= 0x1000_0000_0000,
        absi(ax) <= 0x1000_0000_0000,
        absi(ay) <= 0x1000_0000_0000,
        absi(az) <= 0x1000_0000_0000,
    ensures
        absi(lx * ay) <= 0x100_0000_0000_0000_0000_0000,
        absi(hy * ax) <= 0x100_0000_0000_0000_0000_0000,
        absi(ly * ax) <= 0x100_0000_0000_0000_0000_0000,
        absi(hx * ay) <= 0x100_0000_0000_0000_0000_0000,
        absi(lx * az) <= 0x100_0000_0000_0000_0000_0000,
        absi(hz * ax) <= 0x100_0000_0000_0000_0000_0000,
        absi(lz * ax) <= 0x100_0000_0000_0000_0000_0000,
        absi(hx * az) <= 0x100_0000_0000_0000_0000_0000,
        absi(ly * az) <= 0x100_0000_0000_0000_0000_0000,
        absi(hz * ay) <= 0x100_0000_0000_0000_0000_0000,
        absi(lz * ay) <= 0x100_0000_0000_0000_0000_0000,
        absi(hy * az) <= 0x100_0000_0000_0000_0000_0000,
{
    lemma_mul_mag(lx, ay, 0x1000_0000_0000, 0x1000_0000_0000);
    lemma_mul_mag(hy, ax, 0x1000_0000_0000, 0x1000_0000_0000);
    lemma_mul_mag(ly, ax, 0x1000_0000_0000, 0x1000_0000_0000);
    lemma_mul_mag(hx, ay, 0x1000_0000_0000, 0x1000_0000_0000);
    lemma_mul_mag(lx, az, 0x1000_0000_0000, 0x1000_0000_0000);
    lemma_mul_mag(hz, ax, 0x1000_0000_0000, 0x1000_0000_0000);
    lemma_mul_mag(lz, ax, 0x1000_0000_0000, 0x1000_0000_0000);
    lemma_mul_mag(hx, az, 0x1000_0000_0000, 0x1000_0000_0000);
    lemma_mul_mag(ly, az, 0x1000_0000_0000, 0x1000_0000_0000);
    lemma_mul_mag(hz, ay, 0x1000_0000_0000, 0x1000_0000_0000);
    lemma_mul_mag(lz, ay, 0x1000_0000_0000, 0x1000_0000_0000);
    lemma_mul_mag(hy, az, 0x1000_0000_0000, 0x1000_0000_0000);
}

} // verus!

verus! {

/// The vertices of the unit cube.
pub open spec fn cube_vertices_s() -> Seq<Vec3> {
    seq![
        Vec3 { x: 0, y: 0, z: 0 },
        Vec3 { x: SCALE, y: 0, z: 0 },
        Vec3 { x: 0, y: SCALE, z: 0 },
        Vec3 { x: SCALE, y: SCALE, z: 0 },
        Vec3 { x: 0, y: 0, z: SCALE },
        Vec3 { x: SCALE, y: 0, z: SCALE },
        Vec3 { x: 0, y: SCALE, z: SCALE },
        Vec3 { x: SCALE, y: SCALE, z: SCALE },
    ]
}

/// The twelve triangles of the unit cube, front faces outward.
pub open spec fn cube_triangles_s() -> Seq<(usize, usize, usize)> {
    seq![
        (2usize, 1usize, 0usize),
        (1usize, 2usize, 3usize),
        (6usize, 2usize, 0usize),
        (6usize, 0usize, 4usize),
        (3usize, 5usize, 1usize),
        (3usize, 7usize, 5usize),
        (4usize, 5usize, 6usize),
        (7usize, 6usize, 5usize),
        (6usize, 3usize, 2usize),
        (6usize, 7usize, 3usize),
        (0usize, 1usize, 5usize),
        (0usize, 5usize, 4usize),
    ]
}

impl Mesh {
    /// The unit cube with one corner at the origin.
    pub fn cube(material: Material) -> (r: Mesh)
        requires
            material_ok(material),
        ensures
            r.vertices@ == cube_vertices_s(),
            r.triangles@ == cube_triangles_s(),
            r.material == material,
            r.min_bound == (Vec3 { x: 0, y: 0, z: 0 }),
            r.max_bound == (Vec3 { x: SCALE, y: SCALE, z: SCALE }),
            r.centroid == (Vec3 { x: 32768, y: 32768, z: 32768 }),
            mesh_ok(&r),
    {
        proof {
            lemma_cube_folds();
        }
        let mut vertices: Vec<Vec3> = Vec::new();
        vertices.push(Vec3 { x: 0, y: 0, z: 0 });
        vertices.push(Vec3 { x: SCALE, y: 0, z: 0 });
        vertices.push(Vec3 { x: 0, y: SCALE, z: 0 });
        vertices.push(Vec3 { x: SCALE, y: SCALE, z: 0 });
        vertices.push(Vec3 { x: 0, y: 0, z: SCALE });
        vertices.push(Vec3 { x: SCALE, y: 0, z: SCALE });
        vertices.push(Vec3 { x: 0, y: SCALE, z: SCALE });
        vertices.push(Vec3 { x: SCALE, y: SCALE, z: SCALE });
        let mut triangles: Vec<(usize, usize, usize)> = Vec::new();
        triangles.push((2, 1, 0));
        triangles.push((1, 2, 3));
        triangles.push((6, 2, 0));
        triangles.push((6, 0, 4));
        triangles.push((3, 5, 1));
        triangles.push((3, 7, 5));
        triangles.push((4, 5, 6));
        triangles.push((7, 6, 5));
        triangles.push((6, 3, 2));
        triangles.push((6, 7, 3));
        triangles.push((0, 1, 5));
        triangles.push((0, 5, 4));
        proof {
            assert(vertices@ =~= cube_vertices_s());
            assert(triangles@ =~= cube_triangles_s());
        }
        Self::new(vertices, triangles, material)
    }

    /// Move the mesh by `d`; outside the working envelope the mesh is left
    /// unchanged. The bounding box and centroid move with the vertices.
    pub fn translate(&mut self, d: Vec3)
        requires
            mesh_ok(&*old(self)),
        ensures
            mesh_translate_rel(&*old(self), &*final(self), d),
            mesh_ok(&*final(self)),
    {
        if !(-MAXC <= d.x && d.x <= MAXC && -MAXC <= d.y && d.y <= MAXC && -MAXC <= d.z && d.z
            <= MAXC) {
            return ;
        }
        if !(crate::sphere::within_envelope(self.min_bound, d)
            && crate::sphere::within_envelope(self.max_bound, d) && crate::sphere::within_envelope(
            self.centroid,
            d,
        )) {
            return ;
        }
        let mut moved: Vec<Vec3> = Vec::new();
        let mut i: usize = 0;
        while i < self.vertices.len()
            invariant
                mesh_ok(&*old(self)),
                *self == *old(self),
                crate::sphere::fits_envelope(self.min_bound, d),
                crate::sphere::fits_envelope(self.max_bound, d),
                bnd(d.x as int, MAXC as int),
                bnd(d.y as int, MAXC as int),
                bnd(d.z as int, MAXC as int),
                0 <= i <= self.vertices@.len(),
                moved@.len() == i,
                forall|k: int|
                    0 <= k < i ==> moved@[k] == crate::vec3::plus_s(
                        #[trigger] self.vertices@[k],
                        d,
                    ),
            decreases self.vertices@.len() - i,
        {
            let v = self.vertices[i];
            proof {
                assert(inside_box(self.vertices@[i as int], self.min_bound, self.max_bound));
            }
            moved.push(v.plus(d));
            i = i + 1;
        }
        proof {
            assert(moved@ =~= old(self).vertices@.map(
                |k: int, v: Vec3| crate::vec3::plus_s(v, d),
            ));
        }
        self.vertices = moved;
        self.min_bound = self.min_bound.plus(d);
        self.max_bound = self.max_bound.plus(d);
        self.centroid = self.centroid.plus(d);
    }
}

impl Mesh {
    /// Apply an affine transform to every vertex and the centroid, and
    /// recompute the bounding box; a transform that would move any vertex or
    /// the centroid outside the scene envelope leaves the mesh unchanged.
    pub fn apply_transform(&mut self, m: &crate::mat4::Matrix4)
        requires
            mesh_ok(&*old(self)),
            crate::mat4::mbnd4(*m, crate::mat4::TRB as int),
        ensures
            mesh_transform_rel(&*old(self), &*final(self), *m),
            mesh_ok(&*final(self)),
    {
        let mut moved: Vec<Vec3> = Vec::new();
        let mut i: usize = 0;
        while i < self.vertices.len()
            invariant
                mesh_ok(&*old(self)),
                *self == *old(self),
                crate::mat4::mbnd4(*m, crate::mat4::TRB as int),
                0 <= i <= self.vertices@.len(),
                moved@.len() == i,
                forall|k: int|
                    0 <= k < i ==> moved@[k] == crate::mat4::xform_point_s(
                        *m,
                        #[trigger] self.vertices@[k],
                    ) && vbnd(moved@[k], MAXC as int),
            decreases self.vertices@.len() - i,
        {
            let v2 = m.transform_point(self.vertices[i]);
            if !(-MAXC <= v2.x && v2.x <= MAXC && -MAXC <= v2.y && v2.y <= MAXC && -MAXC <= v2.z
                && v2.z <= MAXC) {
                proof {
                    assert(!mesh_xform_fits(&*old(self), *m)) by {
                        assert(!vbnd(
                            crate::mat4::xform_point_s(*m, old(self).vertices@[i as int]),
                            MAXC as int,
                        ));
                    }
                }
                return ;
            }
            moved.push(v2);
            i = i + 1;
        }
        let c2 = m.transform_point(self.centroid);
        if !(-MAXC <= c2.x && c2.x <= MAXC && -MAXC <= c2.y && c2.y <= MAXC && -MAXC <= c2.z
            && c2.z <= MAXC) {
            return ;
        }
        proof {
            assert forall|k: int|
                0 <= k < old(self).vertices@.len() implies vbnd(
                #[trigger] crate::mat4::xform_point_s(*m, old(self).vertices@[k]),
                MAXC as int,
            ) by {
                assert(moved@[k] == crate::mat4::xform_point_s(*m, self.vertices@[k]));
            }
            assert(mesh_xform_fits(&*old(self), *m));
        }
        proof {
            assert forall|k: int| 0 <= k < moved@.len() implies vbnd(
                #[trigger] moved@[k],
                MAXC as int,
            ) by {
                assert(moved@[k] == crate::mat4::xform_point_s(*m, self.vertices@[k]));
            }
        }
        let bb = Self::calculate_bounding_box(&moved);
        proof {
            assert(moved@ =~= old(self).vertices@.map(
                |k: int, v: Vec3| crate::mat4::xform_point_s(*m, v),
            ));
        }
        self.vertices = moved;
        self.centroid = c2;
        self.min_bound = bb.0;
        self.max_bound = bb.1;
    }

    /// Scale every vertex and the centroid component-wise, and recompute the
    /// bounding box; an out-of-envelope result leaves the mesh unchanged.
    #[verifier::rlimit(60)]
    pub fn scale(&mut self, sv: Vec3)
        requires
            mesh_ok(&*old(self)),
            vbnd(sv, MAXC as int),
        ensures
            mesh_scale_rel(&*old(self), &*final(self), sv),
            mesh_ok(&*final(self)),
    {
        let mut moved: Vec<Vec3> = Vec::new();
        let mut i: usize = 0;
        while i < self.vertices.len()
            invariant
                mesh_ok(&*old(self)),
                *self == *old(self),
                vbnd(sv, MAXC as int),
                0 <= i <= self.vertices@.len(),
                moved@.len() == i,
                forall|k: int|
                    0 <= k < i ==> moved@[k] == crate::vec3::hadamard_s(
                        #[trigger] self.vertices@[k],
                        sv,
                    ) && vbnd(moved@[k], MAXC as int),
            decreases self.vertices@.len() - i,
        {
            let v = self.vertices[i];
            proof {
                lemma_scale_fits(self.vertices@[i as int], sv);
            }
            let v2 = v.hadamard(sv);
            if !(-MAXC <= v2.x && v2.x <= MAXC && -MAXC <= v2.y && v2.y <= MAXC && -MAXC <= v2.z
                && v2.z <= MAXC) {
                proof {
                    assert(!mesh_scale_fits(&*old(self), sv)) by {
                        assert(!vbnd(
                            crate::vec3::hadamard_s(old(self).vertices@[i as int], sv),
                            MAXC as int,
                        ));
                    }
                }
                return ;
            }
            moved.push(v2);
            proof {
                assert(moved@[i as int] == crate::vec3::hadamard_s(self.vertices@[i as int], sv));
                assert(vbnd(moved@[i as int], MAXC as int));
            }
            i = i + 1;
        }
        proof {
            lemma_scale_fits(self.centroid, sv);
        }
        let c2 = self.centroid.hadamard(sv);
        if !(-MAXC <= c2.x && c2.x <= MAXC && -MAXC <= c2.y && c2.y <= MAXC && -MAXC <= c2.z
            && c2.z <= MAXC) {
            return ;
        }
        proof {
            assert forall|k: int|
                0 <= k < old(self).vertices@.len() implies vbnd(
                #[trigger] crate::vec3::hadamard_s(old(self).vertices@[k], sv),
                MAXC as int,
            ) by {
                assert(moved@[k] == crate::vec3::hadamard_s(self.vertices@[k], sv));
            }
            assert(mesh_scale_fits(&*old(self), sv));
        }
        proof {
            assert forall|k: int| 0 <= k < moved@.len() implies vbnd(
                #[trigger] moved@[k],
                MAXC as int,
            ) by {
                assert(moved@[k] == crate::vec3::hadamard_s(self.vertices@[k], sv));
            }
        }
        let bb = Self::calculate_bounding_box(&moved);
        proof {
            assert(moved@ =~= old(self).vertices@.map(
                |k: int, v: Vec3| crate::vec3::hadamard_s(v, sv),
            ));
        }
        self.vertices = moved;
        self.centroid = c2;
        self.min_bound = bb.0;
        self.max_bound = bb.1;
    }
}

/// Component products of envelope-bounded vectors stay representable.
proof fn lemma_scale_fits(v: Vec3, sv: Vec3)
    requires
        vbnd(v, MAXC as int),
        vbnd(sv, MAXC as int),
    ensures
        bnd(crate::fx::fmul(v.x as int, sv.x as int), i64::MAX as int),
        bnd(crate::fx::fmul(v.y as int, sv.y as int), i64::MAX as int),
        bnd(crate::fx::fmul(v.z as int, sv.z as int), i64::MAX as int),
{
    lemma_mul_mag(v.x as int, sv.x as int, MAXC as int, MAXC as int);
    lemma_mul_mag(v.y as int, sv.y as int, MAXC as int, MAXC as int);
    lemma_mul_mag(v.z as int, sv.z as int, MAXC as int, MAXC as int);
    crate::fx::lemma_qz_mag_le(v.x * sv.x, (MAXC as int) * (MAXC as int), SCALE as int);
    crate::fx::lemma_qz_mag_le(v.y * sv.y, (MAXC as int) * (MAXC as int), SCALE as int);
    crate::fx::lemma_qz_mag_le(v.z * sv.z, (MAXC as int) * (MAXC as int), SCALE as int);
}

/// The unit cube's bounds and centroid, by evaluating the folds over its
/// eight vertices.
proof fn lemma_cube_folds()
    ensures
        bbox_min_to(cube_vertices_s(), 8) == (Vec3 { x: 0, y: 0, z: 0 }),
        bbox_max_to(cube_vertices_s(), 8) == (Vec3 { x: SCALE, y: SCALE, z: SCALE }),
        centroid_s(cube_vertices_s()) == (Vec3 { x: 32768, y: 32768, z: 32768 }),
{
    let s = cube_vertices_s();
    reveal_with_fuel(bbox_min_to, 9);
    reveal_with_fuel(bbox_max_to, 9);
    reveal_with_fuel(sum_x_to, 9);
    reveal_with_fuel(sum_y_to, 9);
    reveal_with_fuel(sum_z_to, 9);
    assert(s.len() == 8);
    assert(sum_x_to(s, 8) == 4 * SCALE);
    assert(sum_y_to(s, 8) == 4 * SCALE);
    assert(sum_z_to(s, 8) == 4 * SCALE);
    assert(32768 * 8 == 4 * SCALE) by (nonlinear_arith);
    crate::fx::lemma_qz_exact(32768, 8);
}

/// How a translation acts on a mesh: inside the envelope the vertices,
/// bounds and centroid all shift by `d`; outside it nothing changes.
pub open spec fn mesh_translate_rel(pre: &Mesh, post: &Mesh, d: Vec3) -> bool {
    &&& post.triangles@ == pre.triangles@
    &&& post.material == pre.material
    &&& (mesh_translated(pre, d) ==> post.vertices@ == pre.vertices@.map(
        |i: int, v: Vec3| crate::vec3::plus_s(v, d),
    ) && post.min_bound == crate::vec3::plus_s(pre.min_bound, d) && post.max_bound
        == crate::vec3::plus_s(pre.max_bound, d) && post.centroid == crate::vec3::plus_s(
        pre.centroid,
        d,
    ))
    &&& (!mesh_translated(pre, d) ==> *post == *pre)
}

/// Whether the transform keeps every vertex image and the centroid image
/// inside the scene envelope.
pub open spec fn mesh_xform_fits(m: &Mesh, mat: crate::mat4::Matrix4) -> bool {
    &&& forall|i: int|
        0 <= i < m.vertices@.len() ==> vbnd(
            #[trigger] crate::mat4::xform_point_s(mat, m.vertices@[i]),
            MAXC as int,
        )
    &&& vbnd(crate::mat4::xform_point_s(mat, m.centroid), MAXC as int)
}

/// How an affine transform acts on a mesh: inside the envelope every vertex
/// and the centroid map through the matrix and the bounds are recomputed as
/// the componentwise extremes of the new vertices; outside it nothing
/// changes.
pub open spec fn mesh_transform_rel(pre: &Mesh, post: &Mesh, mat: crate::mat4::Matrix4) -> bool {
    &&& post.triangles@ == pre.triangles@
    &&& post.material == pre.material
    &&& (mesh_xform_fits(pre, mat) ==> post.vertices@ == pre.vertices@.map(
        |i: int, v: Vec3| crate::mat4::xform_point_s(mat, v),
    ) && post.centroid == crate::mat4::xform_point_s(mat, pre.centroid) && post.min_bound
        == bbox_min_to(post.vertices@, post.vertices@.len() as int) && post.max_bound
        == bbox_max_to(post.vertices@, post.vertices@.len() as int))
    &&& (!mesh_xform_fits(pre, mat) ==> *post == *pre)
}

/// Whether the component-wise scaling keeps every vertex image and the
/// centroid image inside the scene envelope.
pub open spec fn mesh_scale_fits(m: &Mesh, sv: Vec3) -> bool {
    &&& forall|i: int|
        0 <= i < m.vertices@.len() ==> vbnd(
            #[trigger] crate::vec3::hadamard_s(m.vertices@[i], sv),
            MAXC as int,
        )
    &&& vbnd(crate::vec3::hadamard_s(m.centroid, sv), MAXC as int)
}

/// How a component-wise scaling acts on a mesh, with the bounds recomputed
/// as the componentwise extremes of the new vertices.
pub open spec fn mesh_scale_rel(pre: &Mesh, post: &Mesh, sv: Vec3) -> bool {
    &&& post.triangles@ == pre.triangles@
    &&& post.material == pre.material
    &&& (mesh_scale_fits(pre, sv) ==> post.vertices@ == pre.vertices@.map(
        |i: int, v: Vec3| crate::vec3::hadamard_s(v, sv),
    ) && post.centroid == crate::vec3::hadamard_s(pre.centroid, sv) && post.min_bound
        == bbox_min_to(post.vertices@, post.vertices@.len() as int) && post.max_bound
        == bbox_max_to(post.vertices@, post.vertices@.len() as int))
    &&& (!mesh_scale_fits(pre, sv) ==> *post == *pre)
}

/// Whether translating by `d` keeps the mesh inside the scene envelope.
pub open spec fn mesh_translated(m: &Mesh, d: Vec3) -> bool {
    &&& bnd(d.x as int, MAXC as int)
    &&& bnd(d.y as int, MAXC as int)
    &&& bnd(d.z as int, MAXC as int)
    &&& crate::sphere::fits_envelope(m.min_bound, d)
    &&& crate::sphere::fits_envelope(m.max_bound, d)
    &&& crate::sphere::fits_envelope(m.centroid, d)
}

} // verus!
