//! Vector algebra and single-primitive intersection behavior.

use raytracer::fx::SCALE;
use raytracer::vec3::Vec3;
use raytracer::ray::Ray;
use raytracer::material::Material;
use raytracer::sphere::Sphere;
use raytracer::plane::Plane;
use raytracer::cilinder::Cilinder;
use raytracer::cone::Cone;
use raytracer::mesh::Mesh;
use raytracer::angle::{atan2_fx, asin_fx, PI_FX, PI2_FX, PI4_FX};
use raytracer::mat3::Matrix3;
use raytracer::mat4::Matrix4;

fn gray(k: i64) -> Vec3 {
    Vec3::all(k)
}

fn mat_half() -> Material {
    Material::new(gray(SCALE / 2), gray(SCALE / 2), gray(0), 1)
}

#[test]
fn normalize_axis_multiple_is_exact() {
    let v = Vec3::new(7 * SCALE, 0, 0);
    let n = v.normalize();
    assert_eq!(n, Vec3::new(SCALE, 0, 0));
    assert_eq!(n.normalize(), n);
}

#[test]
fn normalize_idempotent_up_to_rounding() {
    let v = Vec3::new(3 * SCALE, 4 * SCALE, 0);
    let n1 = v.normalize();
    let n2 = n1.normalize();
    assert!((n1.x - n2.x).abs() <= 2);
    assert!((n1.y - n2.y).abs() <= 2);
    assert!((n1.z - n2.z).abs() <= 2);
}

#[test]
fn cross_is_orthogonal_to_both_factors() {
    let a = Vec3::new(SCALE, 0, 0);
    let b = Vec3::new(0, SCALE, 0);
    let c = a.cross(b);
    assert_eq!(c, Vec3::new(0, 0, SCALE));
    assert_eq!(a.dot(c), 0);
    assert_eq!(b.dot(c), 0);
}

#[test]
fn sphere_returns_smaller_positive_root() {
    let s = Sphere::new(Vec3::null(), SCALE, mat_half(), None);
    let ray = Ray::new(Vec3::new(0, 0, 3 * SCALE), Vec3::new(0, 0, -SCALE));
    let (t, n, _m) = s.get_intersection(&ray).expect("hit");
    assert_eq!(t, 2 * SCALE);
    assert_eq!(n, Vec3::new(0, 0, SCALE));
    assert!(n.dot(ray.dr) < 0);
}

#[test]
fn sphere_miss_has_no_hit() {
    let s = Sphere::new(Vec3::null(), SCALE, mat_half(), None);
    let ray = Ray::new(Vec3::new(0, 0, 3 * SCALE), Vec3::new(0, 0, SCALE));
    assert!(s.get_intersection(&ray).is_none());
}

#[test]
fn plane_parallel_ray_misses() {
    let p = Plane::new(Vec3::null(), Vec3::new(0, SCALE, 0), mat_half(), None, SCALE, SCALE);
    let ray = Ray::new(Vec3::new(0, SCALE, 0), Vec3::new(SCALE, 0, 0));
    assert!(p.get_intersection(&ray).is_none());
}

#[test]
fn plane_flips_normal_against_ray() {
    let p = Plane::new(Vec3::null(), Vec3::new(0, SCALE, 0), mat_half(), None, SCALE, SCALE);
    let from_above = Ray::new(Vec3::new(0, SCALE, 0), Vec3::new(0, -SCALE, 0));
    let (t, n, _m) = p.get_intersection(&from_above).expect("hit");
    assert_eq!(t, SCALE);
    assert_eq!(n, Vec3::new(0, SCALE, 0));
    let from_below = Ray::new(Vec3::new(0, -SCALE, 0), Vec3::new(0, SCALE, 0));
    let (_t2, n2, _m2) = p.get_intersection(&from_below).expect("hit");
    assert_eq!(n2, Vec3::new(0, -SCALE, 0));
}

#[test]
fn cylinder_side_hit_at_expected_parameter() {
    let c = Cilinder::new(
        SCALE,
        2 * SCALE,
        Vec3::null(),
        Vec3::new(0, SCALE, 0),
        mat_half(),
        true,
        true,
    );
    let ray = Ray::new(Vec3::new(3 * SCALE, SCALE, 0), Vec3::new(-SCALE, 0, 0));
    let (t, n, _m) = c.get_intersection(&ray).expect("hit");
    assert_eq!(t, 2 * SCALE);
    assert_eq!(n, Vec3::new(SCALE, 0, 0));
}

#[test]
fn cylinder_top_cap_hit_from_above() {
    let c = Cilinder::new(
        SCALE,
        2 * SCALE,
        Vec3::null(),
        Vec3::new(0, SCALE, 0),
        mat_half(),
        true,
        true,
    );
    let ray = Ray::new(Vec3::new(0, 4 * SCALE, 0), Vec3::new(0, -SCALE, 0));
    let (t, n, _m) = c.get_intersection(&ray).expect("hit");
    assert_eq!(t, 2 * SCALE);
    assert_eq!(n, Vec3::new(0, SCALE, 0));
}

#[test]
fn cone_lateral_hit_with_diagonal_normal() {
    let c = Cone::new(SCALE, SCALE, Vec3::null(), Vec3::new(0, SCALE, 0), mat_half(), true);
    let ray = Ray::new(Vec3::new(2 * SCALE, SCALE / 2, 0), Vec3::new(-SCALE, 0, 0));
    let (t, n, _m) = c.get_intersection(&ray).expect("hit");
    assert_eq!(t, 3 * SCALE / 2);
    assert_eq!(n.z, 0);
    assert!(n.x > 0 && n.y > 0);
    assert!((n.x - n.y).abs() < 16);
    assert!(n.dot(ray.dr) < 0);
}

#[test]
fn mesh_cube_front_face_hit() {
    let m = Mesh::cube(mat_half());
    let ray = Ray::new(
        Vec3::new(SCALE / 2, SCALE / 2, 2 * SCALE),
        Vec3::new(0, 0, -SCALE),
    );
    let (t, n, _m2) = m.get_intersection(&ray).expect("hit");
    assert_eq!(t, SCALE);
    assert_eq!(n, Vec3::new(0, 0, SCALE));
}

#[test]
fn mesh_cube_sideways_ray_misses_box() {
    let m = Mesh::cube(mat_half());
    let ray = Ray::new(
        Vec3::new(SCALE / 2, SCALE / 2, 2 * SCALE),
        Vec3::new(SCALE, 0, 0),
    );
    assert!(!m.intersects_bounding_box(&ray));
    assert!(m.get_intersection(&ray).is_none());
}

#[test]
fn mesh_backface_is_culled() {
    let m = Mesh::cube(mat_half());
    // From inside the cube toward the front face: the face's outward normal
    // points with the ray, so the face is culled.
    let ray = Ray::new(
        Vec3::new(SCALE / 2, SCALE / 2, SCALE / 2),
        Vec3::new(0, 0, SCALE),
    );
    let hit = m.get_intersection(&ray);
    assert!(hit.is_none());
}

#[test]
fn mesh_translate_moves_bounds() {
    let mut m = Mesh::cube(mat_half());
    m.translate(Vec3::new(SCALE, 2 * SCALE, 3 * SCALE));
    assert_eq!(m.min_bound, Vec3::new(SCALE, 2 * SCALE, 3 * SCALE));
    assert_eq!(m.max_bound, Vec3::new(2 * SCALE, 3 * SCALE, 4 * SCALE));
}

#[test]
fn texture_sample_reads_expected_texel() {
    // A 2x1 image: left texel red-ish, right texel blue-ish, 4 bytes each.
    let data = vec![255u8, 0, 0, 255, 0, 0, 255, 255];
    let tex = raytracer::texture::Texture::from_parts(data, 2, 1, 8, 4);
    let left = tex.sample(0, 0);
    assert_eq!(left.x, SCALE);
    assert_eq!(left.y, 0);
    assert_eq!(left.z, 0);
    let right = tex.sample(SCALE / 2, 0);
    assert_eq!(right.x, 0);
    assert_eq!(right.z, SCALE);
}

#[test]
fn cone_base_cap_hit_from_below() {
    let c = Cone::new(SCALE, SCALE, Vec3::null(), Vec3::new(0, SCALE, 0), mat_half(), true);
    let ray = Ray::new(Vec3::new(0, -2 * SCALE, 0), Vec3::new(0, SCALE, 0));
    let (t, n, _m) = c.get_intersection(&ray).expect("hit");
    assert_eq!(t, 2 * SCALE);
    // The base disk reports the axis direction, flipped against the ray.
    assert_eq!(n, Vec3::new(0, -SCALE, 0));
}

#[test]
fn cone_without_base_misses_from_below() {
    let c = Cone::new(SCALE, SCALE, Vec3::null(), Vec3::new(0, SCALE, 0), mat_half(), false);
    let ray = Ray::new(Vec3::new(0, -2 * SCALE, 0), Vec3::new(0, SCALE, 0));
    // Without the base disk the axis-aligned ray meets only the apex point,
    // which the lateral acceptance rejects.
    assert!(c.get_intersection(&ray).is_none());
}

#[test]
fn sphere_translate_moves_center_and_transform_applies() {
    let mut s = Sphere::new(Vec3::null(), SCALE, mat_half(), None);
    s.translate(Vec3::new(SCALE, 0, 0));
    assert_eq!(s.center, Vec3::new(SCALE, 0, 0));
    let m = raytracer::transform::translation_matrix(0, 2 * SCALE, 0);
    s.transform(&m);
    assert_eq!(s.center, Vec3::new(SCALE, 2 * SCALE, 0));
    assert_eq!(s.radius, SCALE);
}

#[test]
fn mesh_scale_stretches_bounds() {
    let mut m = Mesh::cube(mat_half());
    m.scale(Vec3::new(2 * SCALE, SCALE, SCALE));
    assert_eq!(m.max_bound, Vec3::new(2 * SCALE, SCALE, SCALE));
}

#[test]
fn rotation_matrix_turns_axis_vector() {
    // A quarter turn about the third axis sends the first axis to the second.
    let m = raytracer::transform::rotation_around_axis(
        Vec3::new(0, 0, SCALE),
        SCALE,
        0,
        Vec3::null(),
    );
    let r = m.transform_dir(Vec3::new(SCALE, 0, 0));
    assert_eq!(r, Vec3::new(0, SCALE, 0));
}

#[test]
fn householder_reflects_across_plane() {
    let m = raytracer::transform::householder_reflection(Vec3::null(), Vec3::new(0, SCALE, 0));
    let r = m.transform_point(Vec3::new(SCALE, 2 * SCALE, 0));
    assert_eq!(r, Vec3::new(SCALE, -2 * SCALE, 0));
}

#[test]
fn cube_bounds_and_centroid_are_exact() {
    let m = Mesh::cube(mat_half());
    assert_eq!(m.min_bound, Vec3::null());
    assert_eq!(m.max_bound, Vec3::new(SCALE, SCALE, SCALE));
    assert_eq!(m.centroid, Vec3::new(SCALE / 2, SCALE / 2, SCALE / 2));
}

#[test]
fn mesh_transform_maps_vertices_centroid_and_bounds() {
    let mut m = Mesh::cube(mat_half());
    let t = raytracer::transform::translation_matrix(SCALE, 0, 0);
    m.apply_transform(&t);
    assert_eq!(m.vertices[0], Vec3::new(SCALE, 0, 0));
    assert_eq!(m.min_bound, Vec3::new(SCALE, 0, 0));
    assert_eq!(m.max_bound, Vec3::new(2 * SCALE, SCALE, SCALE));
    assert_eq!(m.centroid, Vec3::new(SCALE + SCALE / 2, SCALE / 2, SCALE / 2));
}

#[test]
fn normalize_of_long_vector_is_near_unit() {
    let v = Vec3::new(3 * SCALE, 4 * SCALE, 0);
    let n = v.normalize();
    let len = n.length();
    assert!(SCALE - 4 <= len && len <= SCALE);
}

#[test]
fn textured_sphere_tints_material_by_normal() {
    // A 2x1 texture: left texel red, right texel blue. A hit whose outward
    // normal points along the third axis has longitude one half and
    // latitude one half, which selects the right texel.
    let data = vec![255u8, 0, 0, 255, 0, 0, 255, 255];
    let tex = raytracer::texture::Texture::from_parts(data, 2, 1, 8, 4);
    let s = Sphere::new(Vec3::null(), SCALE, mat_half(), Some(tex));
    let ray = Ray::new(Vec3::new(0, 0, 3 * SCALE), Vec3::new(0, 0, -SCALE));
    let (t, n, m) = s.get_intersection(&ray).expect("hit");
    assert_eq!(t, 2 * SCALE);
    assert_eq!(n, Vec3::new(0, 0, SCALE));
    // The blue texel keeps only the blue channel of the half-gray base.
    assert_eq!(m.k_amb, Vec3::new(0, 0, SCALE / 2));
    assert_eq!(m.k_dif, Vec3::new(0, 0, SCALE / 2));
}

#[test]
fn untextured_sphere_keeps_base_material() {
    let s = Sphere::new(Vec3::null(), SCALE, mat_half(), None);
    let ray = Ray::new(Vec3::new(0, 0, 3 * SCALE), Vec3::new(0, 0, -SCALE));
    let (_t, _n, m) = s.get_intersection(&ray).expect("hit");
    assert_eq!(m.k_amb, Vec3::all(SCALE / 2));
}

#[test]
fn arctangent_hits_the_axes_exactly() {
    assert_eq!(atan2_fx(0, SCALE), 0);
    assert_eq!(atan2_fx(SCALE, 0), PI2_FX);
    assert_eq!(atan2_fx(0, -SCALE), PI_FX);
    assert_eq!(atan2_fx(-SCALE, 0), -PI2_FX);
    assert_eq!(asin_fx(0), 0);
    assert_eq!(asin_fx(SCALE), PI2_FX);
    assert_eq!(asin_fx(-SCALE), -PI2_FX);
    // On the diagonal the rational approximation lands near an eighth turn.
    let d = atan2_fx(SCALE, SCALE);
    assert!((d - PI4_FX).abs() < 300);
}

#[test]
fn matrix_products_and_sums_behave() {
    let id3 = Matrix3::identity();
    let m = Matrix3::new(
        Vec3::new(SCALE, 2 * SCALE, 0),
        Vec3::new(0, SCALE, 0),
        Vec3::new(0, 0, SCALE),
    );
    assert_eq!(id3.mul_mat(&m), m);
    assert_eq!(m.mul_mat(&id3), m);
    assert_eq!(id3.plus(id3).negated().rx, Vec3::new(-2 * SCALE, 0, 0));
    let id4 = Matrix4::identity();
    assert_eq!(id4.plus(id4).minus(id4), id4);
}
