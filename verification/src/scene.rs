//! Scenes: primitives and lights under an ambient light and a background.

use vstd::prelude::*;
use crate::fx::{clamp_s, fmul, MAXC, SCALE, TMAX, lemma_fmul_unit_box, fmul_x, clamp_x};
use crate::vec3::{Vec3, vbnd, dot_raw, scale_s, clamp_vs, hadamard_s};
use crate::ray::{Ray, ray_ok};
use crate::material::{Material, material_ok, coeff_ok};
use crate::light::{Light, light_ok};
use crate::shape::{Shape, shape_ok, shape_hit_s};

verus! {

/// The background color's fixed-point ceiling: 255 whole units.
pub const BGMAX: i64 = 16711680;

pub struct Scene {
    pub shapes: Vec<Shape>,
    pub lights: Vec<Light>,
    pub ambient_light: Vec3,
    /// Pre-scaled to `[0, 255]` whole units at construction.
    pub bg_color: Vec3,
}

pub open spec fn scene_ok(s: &Scene) -> bool {
    &&& s.shapes@.len() <= 100000
    &&& s.lights@.len() <= 100000
    &&& forall|i: int| 0 <= i < s.shapes@.len() ==> shape_ok(#[trigger] &s.shapes@[i])
    &&& forall|i: int| 0 <= i < s.lights@.len() ==> light_ok(#[trigger] s.lights@[i])
    &&& crate::light::intensity_ok(s.ambient_light)
    &&& 0 <= s.bg_color.x <= BGMAX
    &&& 0 <= s.bg_color.y <= BGMAX
    &&& 0 <= s.bg_color.z <= BGMAX
}

/// The stored background: the given color scaled by 255 and clamped into
/// `[0, 255]` whole units.
pub open spec fn bg_stored(bg: Vec3) -> Vec3 {
    clamp_vs(scale_s(bg, BGMAX as int), 0, BGMAX as int)
}

/// The nearest hit among the first `n` primitives, together with the index
/// of the primitive that produced it; on equal parameters the later
/// primitive wins.
pub open spec fn scene_best_s(s: &Scene, r: &Ray, n: int) -> Option<(int, int, Vec3, Material)>
    decreases n,
{
    if n <= 0 {
        None
    } else {
        let prev = scene_best_s(s, r, n - 1);
        match shape_hit_s(&s.shapes@[n - 1], r) {
            None => prev,
            Some((t, nrm, m)) => match prev {
                None => Some((n - 1, t, nrm, m)),
                Some((pi, pt, pn, pm)) => if t <= pt {
                    Some((n - 1, t, nrm, m))
                } else {
                    Some((pi, pt, pn, pm))
                },
            },
        }
    }
}

/// The scene-level intersection in the model.
pub open spec fn scene_hit_s(s: &Scene, r: &Ray) -> Option<(int, int, Vec3, Material)> {
    scene_best_s(s, r, s.shapes@.len() as int)
}

/// While the running best is empty, every earlier primitive missed.
pub proof fn lemma_scene_best_none(s: &Scene, r: &Ray, n: int)
    requires
        0 <= n <= s.shapes@.len(),
        scene_best_s(s, r, n) is None,
    ensures
        forall|j: int| 0 <= j < n ==> (#[trigger] shape_hit_s(&s.shapes@[j], r)) is None,
    decreases n,
{
    if n > 0 {
        lemma_scene_best_none(s, r, n - 1);
    }
}

impl Scene {
    /// Constructor; the background color arrives in `[0, 1]` and is scaled
    /// to `[0, 255]` whole units here.
    pub fn new(shapes: Vec<Shape>, lights: Vec<Light>, ambient_light: Vec3, bg_color: Vec3) -> (r:
        Scene)
        requires
            shapes@.len() <= 100000,
            lights@.len() <= 100000,
            forall|i: int| 0 <= i < shapes@.len() ==> shape_ok(#[trigger] &shapes@[i]),
            forall|i: int| 0 <= i < lights@.len() ==> light_ok(#[trigger] lights@[i]),
            crate::light::intensity_ok(ambient_light),
            coeff_ok(bg_color),
        ensures
            r.shapes@ == shapes@,
            r.lights@ == lights@,
            r.ambient_light == ambient_light,
            r.bg_color == bg_stored(bg_color),
            scene_ok(&r),
    {
        proof {
            lemma_fmul_unit_box(bg_color.x as int, BGMAX as int, BGMAX as int);
            lemma_fmul_unit_box(bg_color.y as int, BGMAX as int, BGMAX as int);
            lemma_fmul_unit_box(bg_color.z as int, BGMAX as int, BGMAX as int);
        }
        let bg = Vec3 {
            x: clamp_x(fmul_x(bg_color.x, BGMAX), 0, BGMAX),
            y: clamp_x(fmul_x(bg_color.y, BGMAX), 0, BGMAX),
            z: clamp_x(fmul_x(bg_color.z, BGMAX), 0, BGMAX),
        };
        Scene { shapes, lights, ambient_light, bg_color: bg }
    }

    /// Append a primitive; its index becomes `shapes.len() - 1`.
    pub fn add_shape(&mut self, s: Shape)
        requires
            scene_ok(&*old(self)),
            old(self).shapes@.len() < 100000,
            shape_ok(&s),
        ensures
            final(self).shapes@ == old(self).shapes@.push(s),
            final(self).lights@ == old(self).lights@,
            final(self).ambient_light == old(self).ambient_light,
            final(self).bg_color == old(self).bg_color,
            scene_ok(&*final(self)),
    {
        self.shapes.push(s);
    }

    /// Append a light.
    pub fn add_light(&mut self, l: Light)
        requires
            scene_ok(&*old(self)),
            old(self).lights@.len() < 100000,
            light_ok(l),
        ensures
            final(self).lights@ == old(self).lights@.push(l),
            final(self).shapes@ == old(self).shapes@,
            final(self).ambient_light == old(self).ambient_light,
            final(self).bg_color == old(self).bg_color,
            scene_ok(&*final(self)),
    {
        self.lights.push(l);
    }

    /// Remove the primitive at index `i`; later primitives shift down.
    pub fn remove_shape(&mut self, i: usize)
        requires
            scene_ok(&*old(self)),
            i < old(self).shapes@.len(),
        ensures
            final(self).shapes@ == old(self).shapes@.remove(i as int),
            final(self).lights@ == old(self).lights@,
            final(self).ambient_light == old(self).ambient_light,
            final(self).bg_color == old(self).bg_color,
            scene_ok(&*final(self)),
    {
        self.shapes.remove(i);
        proof {
            assert forall|k: int| 0 <= k < self.shapes@.len() implies shape_ok(
                #[trigger] &self.shapes@[k],
            ) by {
                if k < i {
                    assert(self.shapes@[k] == old(self).shapes@[k]);
                } else {
                    assert(self.shapes@[k] == old(self).shapes@[k + 1]);
                }
            }
        }
    }

    /// Remove the light at index `i`; later lights shift down.
    pub fn remove_light(&mut self, i: usize)
        requires
            scene_ok(&*old(self)),
            i < old(self).lights@.len(),
        ensures
            final(self).lights@ == old(self).lights@.remove(i as int),
            final(self).shapes@ == old(self).shapes@,
            final(self).ambient_light == old(self).ambient_light,
            final(self).bg_color == old(self).bg_color,
            scene_ok(&*final(self)),
    {
        self.lights.remove(i);
        proof {
            assert forall|k: int| 0 <= k < self.lights@.len() implies light_ok(
                #[trigger] self.lights@[k],
            ) by {
                if k < i {
                    assert(self.lights@[k] == old(self).lights@[k]);
                } else {
                    assert(self.lights@[k] == old(self).lights@[k + 1]);
                }
            }
        }
    }

    /// The nearest intersection of `ray` over every primitive: the index of
    /// the hit primitive, the parameter, the oriented unit normal and the
    /// material at the hit. The returned parameter is minimal over all
    /// primitives that report a hit.
    #[verifier::rlimit(60)]
    pub fn get_intersection(&self, ray: &Ray) -> (res: Option<(usize, i64, Vec3, Material)>)
        requires
            scene_ok(self),
            ray_ok(*ray),
        ensures
            res is Some <==> scene_hit_s(self, ray) is Some,
            res is Some ==> {
                let (i, t, n, m) = scene_hit_s(self, ray)->Some_0;
                &&& res->Some_0.0 == i
                &&& res->Some_0.1 == t
                &&& res->Some_0.2 == n
                &&& res->Some_0.3 == m
                &&& 0 <= i < self.shapes@.len()
                &&& 0 <= t <= TMAX
                &&& dot_raw(n, ray.dr) <= 0
                &&& vbnd(n, SCALE as int)
                &&& material_ok(m)
            },
            // the hit is the nearest over all primitives
            res is Some ==> forall|j: int|
                0 <= j < self.shapes@.len() ==> (#[trigger] shape_hit_s(&self.shapes@[j], ray))
                    is Some ==> res->Some_0.1 <= shape_hit_s(&self.shapes@[j], ray)->Some_0.0,
            res is Some ==> shape_hit_s(&self.shapes@[res->Some_0.0 as int], ray) is Some
                && shape_hit_s(&self.shapes@[res->Some_0.0 as int], ray)->Some_0.0 == res->Some_0.1,
    {
        let mut best: Option<(usize, i64, Vec3, Material)> = None;
        let mut i: usize = 0;
        while i < self.shapes.len()
            invariant
                scene_ok(self),
                ray_ok(*ray),
                0 <= i <= self.shapes@.len(),
                best is Some <==> scene_best_s(self, ray, i as int) is Some,
                best is Some ==> {
                    let (bi, bt, bn, bm) = scene_best_s(self, ray, i as int)->Some_0;
                    best->Some_0.0 == bi && best->Some_0.1 == bt && best->Some_0.2 == bn
                        && best->Some_0.3 == bm && 0 <= bi < i && 0 <= bt <= TMAX && dot_raw(
                        bn,
                        ray.dr,
                    ) <= 0 && vbnd(bn, SCALE as int) && material_ok(bm) && shape_hit_s(&self.shapes@[bi], ray) is Some && shape_hit_s(
                        &self.shapes@[bi],
                        ray,
                    )->Some_0.0 == bt
                },
                best is Some ==> forall|j: int|
                    0 <= j < i ==> (#[trigger] shape_hit_s(&self.shapes@[j], ray)) is Some
                        ==> best->Some_0.1 <= shape_hit_s(&self.shapes@[j], ray)->Some_0.0,
            decreases self.shapes@.len() - i,
        {
            proof {
                if best is None {
                    lemma_scene_best_none(self, ray, i as int);
                }
            }
            let cand = self.shapes[i].get_intersection(ray);
            match cand {
                None => {},
                Some((t, n, m)) => {
                    match &best {
                        None => {
                            best = Some((i, t, n, m));
                        },
                        Some((_, pt, _, _)) => {
                            if t <= *pt {
                                best = Some((i, t, n, m));
                            }
                        },
                    }
                },
            }
            i = i + 1;
        }
        best
    }
}

} // verus!
