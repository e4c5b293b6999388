//! Scene-level queries, shading and full renders.

use raytracer::fx::SCALE;
use raytracer::vec3::Vec3;
use raytracer::ray::Ray;
use raytracer::material::Material;
use raytracer::light::Light;
use raytracer::sphere::Sphere;
use raytracer::plane::Plane;
use raytracer::shape::Shape;
use raytracer::scene::Scene;
use raytracer::camera::{Camera, Projection};
use raytracer::render::{shade, render_range, pixel_slice};

fn gray(k: i64) -> Vec3 {
    Vec3::all(k)
}

fn mat_half() -> Material {
    Material::new(gray(SCALE / 2), gray(SCALE / 2), gray(0), 1)
}

fn white() -> Vec3 {
    gray(SCALE)
}

/// Unit sphere at the origin, perspective camera at (0, 0, 3) looking down
/// the negative third axis, one white point light at the camera, ambient
/// white, 1x1 image: the center pixel saturates to white.
fn unit_sphere_scene() -> (Scene, Camera) {
    let sphere = Sphere::new(Vec3::null(), SCALE, mat_half(), None);
    let light = Light::point(Vec3::new(0, 0, 3 * SCALE), white(), SCALE);
    let scene = Scene::new(
        vec![Shape::Sphere(sphere)],
        vec![light],
        white(),
        Vec3::null(),
    );
    let camera = Camera::new(Vec3::new(0, 0, 3 * SCALE), 1, 1, SCALE, SCALE, SCALE);
    (scene, camera)
}

#[test]
fn unit_sphere_center_pixel_saturates() {
    let (scene, mut camera) = unit_sphere_scene();
    camera.draw_scene(&scene);
    assert_eq!(camera.framebuffer, vec![255u8, 255, 255, 255]);
}

#[test]
fn renders_are_deterministic() {
    let (scene, mut camera) = unit_sphere_scene();
    camera.draw_scene(&scene);
    let first = camera.framebuffer.clone();
    camera.draw_scene(&scene);
    assert_eq!(first, camera.framebuffer);
}

#[test]
fn alpha_byte_is_always_opaque() {
    let sphere = Sphere::new(Vec3::null(), SCALE, mat_half(), None);
    let light = Light::point(Vec3::new(0, 0, 3 * SCALE), white(), SCALE);
    let scene = Scene::new(
        vec![Shape::Sphere(sphere)],
        vec![light],
        white(),
        Vec3::new(SCALE / 4, SCALE / 2, SCALE),
    );
    let mut camera = Camera::new(Vec3::new(0, 0, 3 * SCALE), 4, 4, SCALE, SCALE, SCALE);
    camera.draw_scene(&scene);
    assert_eq!(camera.framebuffer.len(), 4 * 4 * 4);
    for p in 0..16 {
        assert_eq!(camera.framebuffer[4 * p + 3], 255u8);
    }
}

#[test]
fn background_pixels_use_background_color() {
    // An empty scene: every pixel takes the background, scaled to bytes,
    // stored blue-green-red.
    let scene = Scene::new(
        vec![],
        vec![],
        Vec3::null(),
        Vec3::new(SCALE, SCALE / 2, SCALE / 4),
    );
    let mut camera = Camera::new(Vec3::new(0, 0, 3 * SCALE), 2, 2, SCALE, SCALE, SCALE);
    camera.draw_scene(&scene);
    for p in 0..4 {
        let b = camera.framebuffer[4 * p];
        let g = camera.framebuffer[4 * p + 1];
        let r = camera.framebuffer[4 * p + 2];
        assert_eq!(r, 255);
        assert_eq!(g, 127);
        assert_eq!(b, 63);
    }
}

#[test]
fn render_range_matches_full_render() {
    let (scene, mut camera) = unit_sphere_scene();
    camera.draw_scene(&scene);
    let slice = render_range(&camera, &scene, 0, 1);
    assert_eq!(slice, camera.framebuffer);
}

#[test]
fn render_ranges_compose_to_full_render() {
    let sphere = Sphere::new(Vec3::null(), SCALE, mat_half(), None);
    let light = Light::point(Vec3::new(0, 0, 3 * SCALE), white(), SCALE);
    let scene = Scene::new(
        vec![Shape::Sphere(sphere)],
        vec![light],
        white(),
        Vec3::new(SCALE / 2, SCALE / 2, SCALE / 2),
    );
    let mut camera = Camera::new(Vec3::new(0, 0, 3 * SCALE), 4, 4, SCALE, SCALE, SCALE);
    camera.draw_scene(&scene);
    let mut stitched: Vec<u8> = Vec::new();
    let parts = 3;
    for i in 0..parts {
        let (start, count) = pixel_slice(16, parts, i);
        stitched.extend_from_slice(&render_range(&camera, &scene, start, count));
    }
    assert_eq!(stitched, camera.framebuffer);
}

/// Plane y = 0 seen by an orthographic camera just above it, looking down:
/// every primary ray hits at the focal offset with the upward normal.
#[test]
fn orthographic_camera_above_plane() {
    let plane = Plane::new(
        Vec3::null(),
        Vec3::new(0, SCALE, 0),
        mat_half(),
        None,
        SCALE,
        SCALE,
    );
    let scene = Scene::new(vec![Shape::Plane(plane)], vec![], white(), Vec3::null());
    let mut camera = Camera::new(Vec3::new(0, SCALE, 0), 2, 2, SCALE, SCALE, 1);
    camera.look_at(Vec3::null(), Vec3::new(0, 0, -SCALE));
    camera.set_projection(Projection::Ortographic);
    for row in 0..2 {
        for col in 0..2 {
            let ray = camera.primary_ray(row, col);
            assert_eq!(ray.dr, Vec3::new(0, -SCALE, 0));
            let (_i, t, n, _m) = scene.get_intersection(&ray).expect("hit");
            assert_eq!(t, SCALE - 1);
            assert_eq!(n, Vec3::new(0, SCALE, 0));
        }
    }
}

/// A sphere hanging between a plane point and the light: the point directly
/// beneath receives only the ambient term; a point aside receives ambient
/// plus diffuse.
#[test]
fn occluded_point_keeps_only_ambient() {
    let plane = Plane::new(
        Vec3::null(),
        Vec3::new(0, SCALE, 0),
        mat_half(),
        None,
        SCALE,
        SCALE,
    );
    let sphere = Sphere::new(Vec3::new(0, 2 * SCALE, 0), SCALE, mat_half(), None);
    let light = Light::point(Vec3::new(0, 4 * SCALE, 0), white(), SCALE);
    let scene = Scene::new(
        vec![Shape::Plane(plane), Shape::Sphere(sphere)],
        vec![light],
        white(),
        Vec3::null(),
    );
    let m = mat_half();
    let below = Ray::new(Vec3::new(0, SCALE, 0), Vec3::new(0, -SCALE, 0));
    let shaded = shade(&scene, &below, 0, SCALE, Vec3::new(0, SCALE, 0), &m);
    assert_eq!(shaded, Vec3::all(SCALE / 2));
    let aside = Ray::new(Vec3::new(3 * SCALE, SCALE, 0), Vec3::new(0, -SCALE, 0));
    let lit = shade(&scene, &aside, 0, SCALE, Vec3::new(0, SCALE, 0), &m);
    assert_eq!(lit, Vec3::all(32768 + 26214));
}

#[test]
fn send_ray_reports_hit_primitive_index() {
    let (scene, camera) = unit_sphere_scene();
    let (idx, point, normal) = camera.send_ray(0, 0, &scene).expect("hit");
    assert_eq!(idx, 0);
    assert_eq!(point, Vec3::new(0, 0, SCALE));
    assert_eq!(normal, Vec3::new(0, 0, SCALE));
}

#[test]
fn scene_returns_nearest_of_two_spheres() {
    let near = Sphere::new(Vec3::new(0, 0, SCALE), SCALE / 2, mat_half(), None);
    let far = Sphere::new(Vec3::new(0, 0, -2 * SCALE), SCALE / 2, mat_half(), None);
    let scene = Scene::new(
        vec![Shape::Sphere(far), Shape::Sphere(near)],
        vec![],
        white(),
        Vec3::null(),
    );
    let ray = Ray::new(Vec3::new(0, 0, 3 * SCALE), Vec3::new(0, 0, -SCALE));
    let (idx, t, _n, _m) = scene.get_intersection(&ray).expect("hit");
    assert_eq!(idx, 1);
    assert_eq!(t, 3 * SCALE / 2);
}

#[test]
fn removing_a_shape_shifts_indices() {
    let a = Sphere::new(Vec3::new(0, 0, SCALE), SCALE / 2, mat_half(), None);
    let b = Sphere::new(Vec3::new(0, 0, -2 * SCALE), SCALE / 2, mat_half(), None);
    let mut scene = Scene::new(
        vec![Shape::Sphere(a), Shape::Sphere(b)],
        vec![],
        white(),
        Vec3::null(),
    );
    scene.remove_shape(0);
    assert_eq!(scene.shapes.len(), 1);
    let ray = Ray::new(Vec3::new(0, 0, 3 * SCALE), Vec3::new(0, 0, -SCALE));
    let (idx, t, _n, _m) = scene.get_intersection(&ray).expect("hit");
    assert_eq!(idx, 0);
    assert_eq!(t, 9 * SCALE / 2);
}

#[test]
fn camera_translate_shifts_viewport() {
    let mut camera = Camera::new(Vec3::null(), 2, 2, SCALE, SCALE, SCALE);
    let p00 = camera.viewport.p00;
    camera.translate(Vec3::new(SCALE, 0, 0));
    assert_eq!(camera.pos, Vec3::new(SCALE, 0, 0));
    assert_eq!(camera.viewport.p00, Vec3::new(p00.x + SCALE, p00.y, p00.z));
}

#[test]
fn spot_light_outside_cone_contributes_nothing() {
    let plane = Plane::new(
        Vec3::null(),
        Vec3::new(0, SCALE, 0),
        mat_half(),
        None,
        SCALE,
        SCALE,
    );
    // A spot straight above, pointing down, with a very narrow cone
    // (cosine close to one): a point far aside falls outside the cone.
    let spot = Light::spotlight(
        Vec3::new(0, 4 * SCALE, 0),
        Vec3::new(0, -SCALE, 0),
        65530,
        white(),
        SCALE,
    );
    let scene = Scene::new(vec![Shape::Plane(plane)], vec![spot], white(), Vec3::null());
    let m = mat_half();
    let aside = Ray::new(Vec3::new(3 * SCALE, SCALE, 0), Vec3::new(0, -SCALE, 0));
    let shaded = shade(&scene, &aside, 0, SCALE, Vec3::new(0, SCALE, 0), &m);
    assert_eq!(shaded, Vec3::all(SCALE / 2));
}

#[test]
fn camera_rotate_turns_basis_and_viewport() {
    let mut camera = Camera::new(Vec3::null(), 2, 2, SCALE, SCALE, SCALE);
    let p00 = camera.viewport.p00;
    // A quarter turn about the view axis sends the horizontal axis to the
    // vertical one and turns the viewport anchors around the position.
    camera.rotate(Vec3::new(0, 0, SCALE), SCALE, 0);
    assert_eq!(camera.ex, Vec3::new(0, SCALE, 0));
    assert_eq!(camera.ey, Vec3::new(-SCALE, 0, 0));
    assert_eq!(camera.ez, Vec3::new(0, 0, SCALE));
    assert_eq!(camera.pos, Vec3::null());
    assert_eq!(camera.viewport.p00, Vec3::new(-p00.y, p00.x, p00.z));
}

#[test]
fn look_at_sets_basis_directly() {
    let mut camera = Camera::new(Vec3::new(0, 0, 3 * SCALE), 2, 2, SCALE, SCALE, SCALE);
    camera.look_at(Vec3::null(), Vec3::new(0, SCALE, 0));
    assert_eq!(camera.ez, Vec3::new(0, 0, SCALE));
    assert_eq!(camera.ex, Vec3::new(SCALE, 0, 0));
    assert_eq!(camera.ey, Vec3::new(0, SCALE, 0));
    assert_eq!(camera.pos, Vec3::new(0, 0, 3 * SCALE));
}

#[test]
fn shape_translate_dispatches_to_variant() {
    let mut s = Shape::Sphere(Sphere::new(Vec3::null(), SCALE, mat_half(), None));
    s.translate(Vec3::new(SCALE, 0, 0));
    match s {
        Shape::Sphere(p) => assert_eq!(p.center, Vec3::new(SCALE, 0, 0)),
        _ => panic!("variant changed"),
    }
}

#[test]
fn frame_changes_invert_on_the_default_basis() {
    let camera = Camera::new(Vec3::new(SCALE, 2 * SCALE, 3 * SCALE), 2, 2, SCALE, SCALE, SCALE);
    let p = Vec3::new(5 * SCALE, -4 * SCALE, 7 * SCALE);
    let q = camera.world_to_camera(p);
    assert_eq!(camera.camera_to_world(q), p);
}

#[test]
fn frame_changes_invert_up_to_rounding_after_rotation() {
    let mut camera = Camera::new(Vec3::null(), 2, 2, SCALE, SCALE, SCALE);
    // Turn by a real angle: sine and cosine of an eighth turn.
    camera.rotate(Vec3::new(0, 0, SCALE), 46341, 46341);
    // The guarded rotation must actually have been applied.
    assert_ne!(camera.ex, Vec3::new(SCALE, 0, 0));
    let p = Vec3::new(5 * SCALE, -4 * SCALE, 7 * SCALE);
    let q = camera.world_to_camera(p);
    let back = camera.camera_to_world(q);
    assert!((back.x - p.x).abs() <= 16);
    assert!((back.y - p.y).abs() <= 16);
    assert!((back.z - p.z).abs() <= 16);
}
