use raytrace::aabb::Aabb;
use raytrace::bvh;
use raytrace::camera::Camera;
use raytrace::fixed::{fx_div, fx_mul, fx_sqrt, i_sqrt, FX_ONE};
use raytrace::hitable::Hitable;
use raytrace::hitable_list::HitableList;
use raytrace::integrator::{color, Environment, MAX_DEPTH};
use raytrace::material::Material;
use raytrace::ray::Ray;
use raytrace::render::render_pixel;
use raytrace::rng::Rng48;
use raytrace::skymap::{radiance, IBLSkyMap, PI_FX};
use raytrace::texture::{ImageTexture, Texture};
use raytrace::triangle::Triangle;
use raytrace::vec3::Vec3;

const ONE: i128 = FX_ONE;

fn vec(x: i128, y: i128, z: i128) -> Vec3 {
    Vec3 { x, y, z }
}

#[test]
fn fixed_point_ops_exact() {
    assert_eq!(fx_mul(3 * ONE, 2 * ONE), 6 * ONE);
    assert_eq!(fx_mul(-3 * ONE, 2 * ONE), -6 * ONE);
    assert_eq!(fx_div(ONE, 2 * ONE), ONE / 2);
    assert_eq!(fx_div(-ONE, 2 * ONE), -ONE / 2);
    assert_eq!(i_sqrt(0), 0);
    assert_eq!(i_sqrt(15), 3);
    assert_eq!(i_sqrt(16), 4);
    assert_eq!(fx_sqrt(4 * ONE), 2 * ONE);
    assert_eq!(fx_sqrt(ONE), ONE);
}

#[test]
fn vector_algebra() {
    let a = vec(ONE, 2 * ONE, 3 * ONE);
    let b = vec(4 * ONE, 5 * ONE, 6 * ONE);
    assert_eq!(a.dot(&b), 32 * ONE);
    let c = a.cross(&b);
    assert_eq!(c, vec(-3 * ONE, 6 * ONE, -3 * ONE));
    let u = vec(3 * ONE, 0, 4 * ONE).unit();
    // length 5: components scale to 3/5 and 4/5
    assert_eq!(u, vec(3 * ONE / 5, 0, 4 * ONE / 5));
}

// The surrounding box of two boxes is the componentwise min/max and
// contains both.
#[test]
fn surrounding_box_is_minimal_union() {
    let a = Aabb { min: vec(0, 0, 0), max: vec(ONE, ONE, ONE) };
    let b = Aabb { min: vec(-ONE, ONE / 2, 0), max: vec(ONE / 2, 3 * ONE, ONE) };
    let s = a.surrounding_box(&b);
    assert_eq!(s.min, vec(-ONE, 0, 0));
    assert_eq!(s.max, vec(ONE, 3 * ONE, ONE));
    assert!(s.min.x <= a.min.x && a.max.x <= s.max.x);
    assert!(s.min.y <= b.min.y && b.max.y <= s.max.y);
}

// A sphere hit returns the nearer analytic root and the unit outward
// normal (point - center)/radius.
#[test]
fn sphere_nearer_root_and_outward_normal() {
    let s = Hitable::Sphere { center: vec(0, 0, 0), radius: ONE, mat: 0 };
    let r = Ray { origin: vec(0, 0, -5 * ONE), direction: vec(0, 0, ONE), time: 0 };
    let rec = s.hit(&r, 65, 1 << 44).expect("sphere should be hit");
    assert_eq!(rec.t, 4 * ONE);
    assert_eq!(rec.p, vec(0, 0, -ONE));
    assert_eq!(rec.normal, vec(0, 0, -ONE));
    // A ray pointing away misses.
    let away = Ray { origin: vec(0, 0, -5 * ONE), direction: vec(0, 0, -ONE), time: 0 };
    assert!(s.hit(&away, 65, 1 << 44).is_none());
}

#[test]
fn triangle_barycentric_hit() {
    let t = Triangle::new_normal(
        vec(-ONE, -ONE, -5 * ONE),
        vec(ONE, -ONE, -5 * ONE),
        vec(0, ONE, -5 * ONE),
        vec(0, 0, ONE),
        0,
    );
    let r = Ray { origin: vec(0, 0, 0), direction: vec(0, 0, -ONE), time: 0 };
    let rec = t.hit(&r, 65, 1 << 44).expect("triangle should be hit");
    assert_eq!(rec.t, 5 * ONE);
    assert_eq!(rec.u, ONE / 4);
    assert_eq!(rec.v, ONE / 2);
    assert_eq!(rec.p, vec(0, 0, -5 * ONE));
    assert_eq!(rec.normal, vec(0, 0, ONE));
    // Two-sided: the same triangle is hit from behind as well.
    let back = Ray { origin: vec(0, 0, -10 * ONE), direction: vec(0, 0, ONE), time: 0 };
    assert!(t.hit(&back, 65, 1 << 44).is_some());
}

#[test]
fn triangle_new_stores_edge_cross_product() {
    let t = Triangle::new(vec(0, 0, 0), vec(ONE, 0, 0), vec(0, ONE, 0), 3);
    // cross((1,0,0), (0,1,0)) = (0,0,1)
    assert_eq!(t.normal, vec(0, 0, ONE));
    assert_eq!(t.material, 3);
}

#[test]
fn hitable_list_returns_closest() {
    let mut world = HitableList::new(2);
    world.add(Hitable::Sphere { center: vec(0, 0, -10 * ONE), radius: ONE, mat: 1 });
    world.add(Hitable::Sphere { center: vec(0, 0, -4 * ONE), radius: ONE, mat: 2 });
    let r = Ray { origin: vec(0, 0, 0), direction: vec(0, 0, -ONE), time: 0 };
    let rec = world.hit(&r, 65, 1 << 44).expect("list should find a hit");
    assert_eq!(rec.mat, 2);
    assert_eq!(rec.t, 3 * ONE);
}

// BVH traversal agrees with the brute-force list scan over the same
// primitives, hit or miss, in t and in material.
#[test]
fn bvh_matches_brute_force_scan() {
    let mut prims: Vec<Hitable> = Vec::new();
    for k in 0..6i128 {
        prims.push(Hitable::Sphere {
            center: vec(k * 3 * ONE - 9 * ONE, 0, -6 * ONE - k * 2 * ONE),
            radius: ONE,
            mat: k as usize,
        });
    }
    prims.push(Hitable::Tri(Triangle::new_normal(
        vec(-ONE, -ONE, -3 * ONE),
        vec(ONE, -ONE, -3 * ONE),
        vec(0, ONE, -3 * ONE),
        vec(0, 0, ONE),
        6,
    )));
    let mut list = HitableList::new(prims.len());
    for p in prims.iter() {
        list.add(p.clone());
    }
    let tree = bvh::construct(prims, 0, ONE).expect("construction succeeds");
    let dirs = [
        vec(0, 0, -ONE),
        vec(ONE / 2, 0, -ONE),
        vec(-ONE / 2, ONE / 4, -ONE),
        vec(0, ONE, 0),
        vec(-ONE, 0, -ONE),
    ];
    for d in dirs.iter() {
        for ox in [-9i128, -6, -3, 0, 3, 6, 9].iter() {
            let r = Ray { origin: vec(*ox * ONE, 0, 0), direction: *d, time: 0 };
            let a = tree.hit(&r, 65, 1 << 44);
            let b = list.hit(&r, 65, 1 << 44);
            match (a, b) {
                (None, None) => {}
                (Some(x), Some(y)) => {
                    assert_eq!(x.t, y.t);
                    assert_eq!(x.mat, y.mat);
                }
                _ => panic!("tree and scan disagree on hit/miss"),
            }
        }
    }
}

#[test]
fn bvh_construct_rejects_empty() {
    assert!(bvh::construct(Vec::new(), 0, ONE).is_none());
}

// Metal with zero fuzz: absorbed exactly when the reflection points into
// the surface; otherwise the direction obeys the law of reflection.
#[test]
fn metal_scatter_law_of_reflection() {
    let m = Material::Metal { albedo: vec(ONE, ONE, ONE), fuzz: 0 };
    let rec = raytrace::hitable::HitRecord {
        t: ONE,
        u: 0,
        v: 0,
        p: vec(0, 0, 0),
        normal: vec(0, 0, ONE),
        mat: 0,
        time: 0,
    };
    let mut rng = Rng48::new(7);
    let towards = Ray { origin: vec(0, 0, 5 * ONE), direction: vec(0, 0, -ONE), time: 0 };
    let (sray, att) = m.scatter(&towards, &rec, &mut rng).expect("head-on metal reflects");
    assert_eq!(sray.direction, vec(0, 0, ONE));
    assert_eq!(att, vec(ONE, ONE, ONE));
    // Same geometry with the normal inverted: the reflection points inside,
    // so the ray is absorbed.
    let rec_in = raytrace::hitable::HitRecord { normal: vec(0, 0, -ONE), ..rec };
    let mut rng2 = Rng48::new(7);
    assert!(m.scatter(&towards, &rec_in, &mut rng2).is_none());
}

// A dielectric with refractive index one does not bend the ray: head on,
// the scattered direction equals the unit incoming direction.
#[test]
fn dielectric_index_one_goes_straight() {
    let m = Material::Dielectric { ref_idx: ONE };
    let rec = raytrace::hitable::HitRecord {
        t: ONE,
        u: 0,
        v: 0,
        p: vec(0, 0, 0),
        normal: vec(0, 0, ONE),
        mat: 0,
        time: 0,
    };
    let towards = Ray { origin: vec(0, 0, 5 * ONE), direction: vec(0, 0, -ONE), time: 0 };
    let mut rng = Rng48::new(11);
    let (sray, att) = m.scatter(&towards, &rec, &mut rng).expect("dielectric always scatters");
    assert_eq!(sray.direction, vec(0, 0, -ONE));
    assert_eq!(att, vec(ONE, ONE, ONE));
}

#[test]
fn diffuse_light_is_terminal_and_emits() {
    let m = Material::DiffuseLight { emit: Texture::Constant(vec(ONE, ONE / 2, 0)) };
    let rec = raytrace::hitable::HitRecord {
        t: ONE,
        u: 0,
        v: 0,
        p: vec(ONE, 2 * ONE, 3 * ONE),
        normal: vec(0, 0, ONE),
        mat: 0,
        time: 0,
    };
    let towards = Ray { origin: vec(0, 0, 5 * ONE), direction: vec(0, 0, -ONE), time: 0 };
    let mut rng = Rng48::new(3);
    assert!(m.scatter(&towards, &rec, &mut rng).is_none());
    let (e, lp) = m.emitted(0, 0, &vec(ONE, 2 * ONE, 3 * ONE));
    assert_eq!(e, vec(ONE, ONE / 2, 0));
    assert_eq!(lp, vec(ONE, 2 * ONE, 3 * ONE));
}

// A ray that hits nothing returns exactly the configured environment value
// for its direction, whatever else the scene holds.
#[test]
fn miss_returns_environment_exactly() {
    let world = HitableList::new(0);
    let mats: Vec<Material> = Vec::new();
    let env = Environment::Solid(vec(1000, 2000, 3000));
    let r = Ray { origin: vec(0, 0, 0), direction: vec(0, 0, -ONE), time: 0 };
    let mut rng = Rng48::new(1);
    let c = color(&r, &world, &mats, 0, &env, &mut rng);
    assert_eq!(c, vec(1000, 2000, 3000));
    // The same holds with geometry elsewhere in the scene.
    let mut world2 = HitableList::new(1);
    world2.add(Hitable::Sphere { center: vec(100 * ONE, 0, 0), radius: ONE, mat: 0 });
    let mats2 = vec![Material::Lambertian { albedo: Texture::Constant(vec(ONE, ONE, ONE)) }];
    let mut rng2 = Rng48::new(1);
    let c2 = color(&r, &world2, &mats2, 0, &env, &mut rng2);
    assert_eq!(c2, vec(1000, 2000, 3000));
}

#[test]
fn gradient_environment_straight_up_is_ceiling() {
    let world = HitableList::new(0);
    let mats: Vec<Material> = Vec::new();
    let floor = vec(ONE, ONE, ONE);
    let ceil = vec(ONE / 2, 7 * ONE / 10, ONE);
    let env = Environment::Gradient { floor, ceil };
    let up = Ray { origin: vec(0, 0, 0), direction: vec(0, ONE, 0), time: 0 };
    let mut rng = Rng48::new(1);
    assert_eq!(color(&up, &world, &mats, 0, &env, &mut rng), ceil);
}

// A lone white Lambertian sphere under a broad white light: one bounce
// before the recursion cap gathers exactly the attenuation-scaled emitted
// light and nothing else, with pre-gamma components in [0, 1].
#[test]
fn single_bounce_gathers_scaled_emission_only() {
    let mut world = HitableList::new(2);
    world.add(Hitable::Sphere { center: vec(0, 0, 0), radius: ONE, mat: 0 });
    world.add(Hitable::RectXZ {
        x0: -1000 * ONE,
        x1: 1000 * ONE,
        z0: -1000 * ONE,
        z1: 1000 * ONE,
        k: 100 * ONE,
        mat: 1,
    });
    let mats = vec![
        Material::Lambertian { albedo: Texture::Constant(vec(ONE, ONE, ONE)) },
        Material::DiffuseLight { emit: Texture::Constant(vec(ONE, ONE, ONE)) },
    ];
    let env = Environment::Solid(vec(0, 0, 0));
    // Through the sphere's apex, two steps before the cap: the diffuse
    // bounce always points upward and reaches the light.
    let r = Ray { origin: vec(0, 3 * ONE, 0), direction: vec(0, -ONE, 0), time: 0 };
    let mut rng = Rng48::new(42);
    let c = color(&r, &world, &mats, MAX_DEPTH - 2, &env, &mut rng);
    assert_eq!(c, vec(ONE, ONE, ONE));
    assert!(c.x <= ONE && c.y <= ONE && c.z <= ONE && c.x >= 0);
    // At the cap itself the result is black by construction.
    let mut rng2 = Rng48::new(42);
    let black = color(&r, &world, &mats, MAX_DEPTH, &env, &mut rng2);
    assert_eq!(black, vec(0, 0, 0));
}

// Rendering the same pixel of the same scene twice with the same seed is
// pixel-identical.
#[test]
fn render_is_deterministic_for_a_seed() {
    let mut world = HitableList::new(1);
    world.add(Hitable::Sphere { center: vec(0, 0, -5 * ONE), radius: ONE, mat: 0 });
    let mats = vec![Material::Lambertian { albedo: Texture::Constant(vec(ONE / 2, ONE / 2, ONE / 2)) }];
    let env = Environment::Gradient { floor: vec(ONE, ONE, ONE), ceil: vec(ONE / 2, 7 * ONE / 10, ONE) };
    let cam = Camera::new(
        vec(0, 0, 0),
        vec(0, 0, -5 * ONE),
        vec(0, ONE, 0),
        ONE / 2,
        ONE,
        0,
        5 * ONE,
        0,
        ONE,
    );
    assert!(cam.well_formed());
    let a = render_pixel(&world, &mats, &env, &cam, 3, 4, 8, 8, 4, 12345);
    let b = render_pixel(&world, &mats, &env, &cam, 3, 4, 8, 8, 4, 12345);
    assert_eq!(a, b);
    let c = render_pixel(&world, &mats, &env, &cam, 4, 4, 8, 8, 4, 54321);
    let d = render_pixel(&world, &mats, &env, &cam, 4, 4, 8, 8, 4, 54321);
    assert_eq!(c, d);
}

#[test]
fn image_texture_lookup_rescales_bytes() {
    let img = ImageTexture::new(vec![255, 0, 127], 1, 1);
    let t = Texture::Image(img);
    let c = t.value(0, 0, &vec(0, 0, 0));
    assert_eq!(c.x, ONE);
    assert_eq!(c.y, 0);
    assert_eq!(c.z, 127 * ONE / 255);
}

#[test]
fn skymap_indexes_equirectangular_texels() {
    let texels = vec![vec(ONE, 0, 0), vec(0, ONE, 0)];
    let map = IBLSkyMap::new(texels, 1, 0);
    // phi = -pi puts the longitude fraction at zero: the first texel.
    let c = radiance(&map, 0, -PI_FX);
    assert_eq!(c, vec(ONE, 0, 0));
}

#[test]
fn rng_sequence_is_reproducible() {
    let mut a = Rng48::new(99);
    let mut b = Rng48::new(99);
    for _ in 0..16 {
        assert_eq!(a.next_fx(), b.next_fx());
    }
    let mut c = Rng48::new(100);
    let first_a = Rng48::new(99).next_fx();
    let first_c = c.next_fx();
    assert!(first_a != first_c || Rng48::new(99).state != Rng48::new(100).state);
}

#[test]
fn aabb_slab_test() {
    let b = Aabb { min: vec(-ONE, -ONE, -3 * ONE), max: vec(ONE, ONE, -2 * ONE) };
    let hit = b.hit(&vec(0, 0, 0), &vec(0, 0, -ONE), 65, 1 << 44);
    assert!(hit);
    let miss = b.hit(&vec(0, 0, 0), &vec(0, 0, ONE), 65, 1 << 44);
    assert!(!miss);
    let sideways = b.hit(&vec(5 * ONE, 0, 0), &vec(0, 0, -ONE), 65, 1 << 44);
    assert!(!sideways);
}

#[test]
fn flip_negates_normal_and_translate_moves() {
    let rect = Hitable::RectXY { x0: -ONE, x1: ONE, y0: -ONE, y1: ONE, k: -2 * ONE, mat: 0 };
    let r = Ray { origin: vec(0, 0, 0), direction: vec(0, 0, -ONE), time: 0 };
    let plain = rect.hit(&r, 65, 1 << 44).unwrap();
    assert_eq!(plain.normal, vec(0, 0, ONE));
    let flipped = Hitable::Flip(Box::new(rect.clone()));
    let f = flipped.hit(&r, 65, 1 << 44).unwrap();
    assert_eq!(f.normal, vec(0, 0, -ONE));
    let moved = Hitable::Translate { inner: Box::new(rect), offset: vec(ONE, 0, 0) };
    let m = moved.hit(&r, 65, 1 << 44).unwrap();
    assert_eq!(m.p, vec(0, 0, -2 * ONE));
    let edge = Ray { origin: vec(2 * ONE - 60, 0, 0), direction: vec(0, 0, -ONE), time: 0 };
    assert!(moved.hit(&edge, 65, 1 << 44).is_some());
}

#[test]
fn moving_sphere_box_spans_both_centers() {
    let ms = Hitable::MovingSphere {
        center0: vec(0, 0, 0),
        center1: vec(2 * ONE, 0, 0),
        time0: 0,
        time1: ONE,
        radius: ONE,
        mat: 0,
    };
    let bb = ms.bounding_box(0, ONE).unwrap();
    assert_eq!(bb.min, vec(-ONE, -ONE, -ONE));
    assert_eq!(bb.max, vec(3 * ONE, ONE, ONE));
    // Outside the motion span there is no box.
    assert!(ms.bounding_box(-ONE, 2 * ONE).is_none());
}

#[test]
fn cube_has_six_outward_faces() {
    let faces = raytrace::hitable::cube(vec(0, 0, 0), vec(ONE, ONE, ONE), 0);
    assert_eq!(faces.len(), 6);
    let mut world = HitableList::new(6);
    for f in faces {
        world.add(f);
    }
    // A ray from outside hits the near face of the box (z = 0, flipped, so
    // the normal faces the ray).
    let r = Ray { origin: vec(ONE / 2, ONE / 2, -2 * ONE), direction: vec(0, 0, ONE), time: 0 };
    let rec = world.hit(&r, 65, 1 << 44).unwrap();
    assert_eq!(rec.t, 2 * ONE);
    assert_eq!(rec.normal, vec(0, 0, -ONE));
}

#[test]
fn rotate_y_quarter_turn_moves_the_hit() {
    // A quarter turn about y: sin = 1, cos = 0. A wall at z = -2 rotates to
    // x = -2 (with its plane now facing along x).
    let rect = Hitable::RectXY { x0: -ONE, x1: ONE, y0: -ONE, y1: ONE, k: -2 * ONE, mat: 0 };
    let rot = Hitable::RotateY { inner: Box::new(rect), sin_theta: ONE, cos_theta: 0 };
    let miss = Ray { origin: vec(0, 0, 0), direction: vec(0, 0, -ONE), time: 0 };
    assert!(rot.hit(&miss, 65, 1 << 44).is_none());
    let toward = Ray { origin: vec(0, 0, 0), direction: vec(-ONE, 0, 0), time: 0 };
    let rec = rot.hit(&toward, 65, 1 << 44).expect("the rotated wall lies along -x");
    assert_eq!(rec.t, 2 * ONE);
    assert_eq!(rec.p, vec(-2 * ONE, 0, 0));
}
