//! The closed set of primitives a scene can hold.

use vstd::prelude::*;
use crate::fx::{MAXC, SCALE, TMAX};
use crate::vec3::{Vec3, vbnd, dot_raw};
use crate::ray::{Ray, ray_ok};
use crate::material::{Material, material_ok};
use crate::sphere::{Sphere, sphere_ok, sphere_hit_s};
use crate::plane::{Plane, plane_ok, plane_hit_s};
use crate::cilinder::{Cilinder, cilinder_ok, cyl_hit_s};
use crate::cone::{Cone, cone_ok, cone_hit_s};
use crate::mesh::{Mesh, mesh_ok, mesh_hit_s};

verus! {

pub enum Shape {
    Sphere(Sphere),
    Plane(Plane),
    Cilinder(Cilinder),
    Cone(Cone),
    Mesh(Mesh),
}

pub open spec fn shape_ok(s: &Shape) -> bool {
    match s {
        Shape::Sphere(p) => sphere_ok(p),
        Shape::Plane(p) => plane_ok(p),
        Shape::Cilinder(p) => cilinder_ok(p),
        Shape::Cone(p) => cone_ok(p),
        Shape::Mesh(p) => mesh_ok(p),
    }
}

/// The intersection of a ray with any primitive, in the model.
pub open spec fn shape_hit_s(s: &Shape, r: &Ray) -> Option<(int, Vec3, Material)> {
    match s {
        Shape::Sphere(p) => sphere_hit_s(p, r),
        Shape::Plane(p) => plane_hit_s(p, r),
        Shape::Cilinder(p) => match cyl_hit_s(p, r) {
            None => None,
            Some((t, n)) => Some((t, n, p.material)),
        },
        Shape::Cone(p) => match cone_hit_s(p, r) {
            None => None,
            Some((t, n)) => Some((t, n, p.material)),
        },
        Shape::Mesh(p) => match mesh_hit_s(p, r) {
            None => None,
            Some((t, n)) => Some((t, n, p.material)),
        },
    }
}

impl Shape {
    /// The material of the primitive itself (a textured primitive may report
    /// a different material at a specific hit).
    pub fn material(&self) -> (m: &Material)
        ensures
            *m == shape_material(self),
    {
        match self {
            Shape::Sphere(p) => &p.material,
            Shape::Plane(p) => &p.material,
            Shape::Cilinder(p) => &p.material,
            Shape::Cone(p) => &p.material,
            Shape::Mesh(p) => &p.material,
        }
    }

    /// The nearest intersection of `ray` with the primitive: the parameter,
    /// the unit surface normal oriented against the ray, and the material at
    /// the hit.
    pub fn get_intersection(&self, ray: &Ray) -> (res: Option<(i64, Vec3, Material)>)
        requires
            shape_ok(self),
            ray_ok(*ray),
        ensures
            res is Some <==> shape_hit_s(self, ray) is Some,
            res is Some ==> {
                let (t, n, m) = shape_hit_s(self, ray)->Some_0;
                &&& res->Some_0.0 == t
                &&& res->Some_0.1 == n
                &&& res->Some_0.2 == m
                &&& 0 <= t <= TMAX
                &&& dot_raw(n, ray.dr) <= 0
                &&& vbnd(n, SCALE as int)
                &&& material_ok(m)
            },
    {
        match self {
            Shape::Sphere(p) => p.get_intersection(ray),
            Shape::Plane(p) => p.get_intersection(ray),
            Shape::Cilinder(p) => p.get_intersection(ray),
            Shape::Cone(p) => p.get_intersection(ray),
            Shape::Mesh(p) => p.get_intersection(ray),
        }
    }
}

/// How a translation acts on any primitive: the variant is kept and that
/// variant's own translation relation holds between the old and new value.
pub open spec fn shape_translate_rel(pre: &Shape, post: &Shape, d: Vec3) -> bool {
    match pre {
        Shape::Sphere(a) => match post {
            Shape::Sphere(b) => crate::sphere::sphere_translate_rel(a, b, d),
            _ => false,
        },
        Shape::Plane(a) => match post {
            Shape::Plane(b) => crate::plane::plane_translate_rel(a, b, d),
            _ => false,
        },
        Shape::Cilinder(a) => match post {
            Shape::Cilinder(b) => crate::cilinder::cilinder_translate_rel(a, b, d),
            _ => false,
        },
        Shape::Cone(a) => match post {
            Shape::Cone(b) => crate::cone::cone_translate_rel(a, b, d),
            _ => false,
        },
        Shape::Mesh(a) => match post {
            Shape::Mesh(b) => crate::mesh::mesh_translate_rel(a, b, d),
            _ => false,
        },
    }
}

/// How an affine transform acts on any primitive: the variant is kept; the
/// sphere, cone and mesh follow their own transform relations, while the
/// plane and the cylinder do not support affine transforms and stay as they
/// are.
pub open spec fn shape_transform_rel(pre: &Shape, post: &Shape, m: crate::mat4::Matrix4) -> bool {
    match pre {
        Shape::Sphere(a) => match post {
            Shape::Sphere(b) => crate::sphere::sphere_transform_rel(a, b, m),
            _ => false,
        },
        Shape::Plane(a) => match post {
            Shape::Plane(b) => *b == *a,
            _ => false,
        },
        Shape::Cilinder(a) => match post {
            Shape::Cilinder(b) => *b == *a,
            _ => false,
        },
        Shape::Cone(a) => match post {
            Shape::Cone(b) => crate::cone::cone_transform_rel(a, b, m),
            _ => false,
        },
        Shape::Mesh(a) => match post {
            Shape::Mesh(b) => crate::mesh::mesh_transform_rel(a, b, m),
            _ => false,
        },
    }
}

impl Shape {
    /// Move the primitive by `d`; a move that would leave the working
    /// envelope leaves the primitive unchanged.
    pub fn translate(&mut self, d: Vec3)
        requires
            shape_ok(&*old(self)),
        ensures
            shape_translate_rel(&*old(self), &*final(self), d),
            shape_ok(&*final(self)),
    {
        match self {
            Shape::Sphere(p) => p.translate(d),
            Shape::Plane(p) => p.translate(d),
            Shape::Cilinder(p) => p.translate(d),
            Shape::Cone(p) => p.translate(d),
            Shape::Mesh(p) => p.translate(d),
        }
    }
}

impl Shape {
    /// Apply an affine transform. The sphere moves its center, the cone its
    /// base and apex, the mesh all its vertices; the plane and the cylinder
    /// do not support affine transforms and are left unchanged.
    pub fn transform(&mut self, m: &crate::mat4::Matrix4)
        requires
            shape_ok(&*old(self)),
            crate::mat4::mbnd4(*m, crate::mat4::TRB as int),
        ensures
            shape_transform_rel(&*old(self), &*final(self), *m),
            shape_ok(&*final(self)),
    {
        match self {
            Shape::Sphere(p) => p.transform(m),
            Shape::Plane(_) => {},
            Shape::Cilinder(_) => {},
            Shape::Cone(p) => p.transform(m),
            Shape::Mesh(p) => p.apply_transform(m),
        }
    }
}

pub open spec fn shape_material(s: &Shape) -> Material {
    match s {
        Shape::Sphere(p) => p.material,
        Shape::Plane(p) => p.material,
        Shape::Cilinder(p) => p.material,
        Shape::Cone(p) => p.material,
        Shape::Mesh(p) => p.material,
    }
}

} // verus!
