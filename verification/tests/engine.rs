use pathtracer::fixed::{mul_fp, div_fp, sqrt_fp, floor_fp, fract_fp, FP_ONE, FP_LIMIT};
use pathtracer::rng::Rng;
use pathtracer::vec3::Vec3;
use pathtracer::ray::Ray;
use pathtracer::sphere::{Sphere, MovingSphere};
use pathtracer::rect::{Rect, AxisBox};
use pathtracer::hit::{Hittable, HittableList, HitRecord};
use pathtracer::material::{Lambertian, Metal, Dielectric, DiffuseLight, Material};
use pathtracer::texture::{Texture, NoiseTexture, ImageTexture};
use pathtracer::perlin::Perlin;
use pathtracer::camera::Camera;
use pathtracer::render::{ray_color, render, write_color, Pixel, T_START};

const ONE: i64 = 65536;

#[test]
fn fixed_point_arithmetic() {
    assert_eq!(mul_fp(2 * ONE, 3 * ONE), 6 * ONE);
    assert_eq!(mul_fp(-3 * ONE, 2 * ONE), -6 * ONE);
    assert_eq!(mul_fp(1, 1), 0);
    assert_eq!(div_fp(ONE, 2 * ONE), ONE / 2);
    assert_eq!(div_fp(-ONE, 2 * ONE), -ONE / 2);
    assert_eq!(sqrt_fp(4 * ONE), 2 * ONE);
    assert_eq!(sqrt_fp(0), 0);
    assert_eq!(floor_fp(3 * ONE + 5), 3);
    assert_eq!(floor_fp(-1), -1);
    assert_eq!(fract_fp(-1), ONE - 1);
    assert_eq!(fract_fp(3 * ONE + 5), 5);
}

#[test]
fn rng_is_deterministic_and_in_range() {
    let mut a = Rng::new(7);
    let mut b = Rng::new(7);
    for _ in 0..100 {
        let x = a.next_fp();
        assert_eq!(x, b.next_fp());
        assert!(0 <= x && x < ONE);
    }
    let mut c = Rng::new(8);
    let y = c.next_range(-ONE, ONE);
    assert!(-ONE <= y && y <= ONE);
}

#[test]
fn vector_algebra() {
    let a = Vec3::new(ONE, 2 * ONE, 3 * ONE);
    let b = Vec3::new(4 * ONE, 5 * ONE, 6 * ONE);
    assert_eq!(a.dot(&b), 32 * ONE);
    let x = Vec3::new(ONE, 0, 0);
    let y = Vec3::new(0, ONE, 0);
    let z = x.cross(&y);
    assert_eq!((z.x, z.y, z.z), (0, 0, ONE));
    let s = a.add(&b).sub(&b);
    assert_eq!((s.x, s.y, s.z), (a.x, a.y, a.z));
    let u = Vec3::new(0, 0, 2 * ONE).unit();
    assert_eq!((u.x, u.y, u.z), (0, 0, ONE));
}

#[test]
fn reflection_is_exact_mirror() {
    let v = Vec3::new(ONE, -ONE, 0);
    let n = Vec3::new(0, ONE, 0);
    let r = v.reflect(&n);
    assert_eq!((r.x, r.y, r.z), (ONE, ONE, 0));
}

#[test]
fn ray_evaluation() {
    let r = Ray::new(&Vec3::new(ONE, 0, 0), &Vec3::new(0, ONE, 0), 0);
    let p = r.at(2 * ONE);
    assert_eq!((p.x, p.y, p.z), (ONE, 2 * ONE, 0));
}

// A ray down the z axis against the unit sphere at the origin: the hit
// point lies exactly on the sphere and the normal faces the ray.
#[test]
fn sphere_hit_geometry() {
    let s = Sphere::new(Vec3::new(0, 0, 0), ONE, 0);
    let r = Ray::new(&Vec3::new(0, 0, -3 * ONE), &Vec3::new(0, 0, ONE), 0);
    let rec = s.hit(&r, T_START, FP_LIMIT).expect("hit");
    assert_eq!(rec.t, 2 * ONE);
    assert_eq!((rec.p.x, rec.p.y, rec.p.z), (0, 0, -ONE));
    assert!(rec.front_face);
    assert_eq!((rec.normal.x, rec.normal.y, rec.normal.z), (0, 0, -ONE));
    // the reported point is at distance radius from the center
    assert_eq!(rec.p.sub(&Vec3::new(0, 0, 0)).length(), ONE);
    // the outward normal points away from the center
    let outward = rec.p.sub(&Vec3::new(0, 0, 0)).divs(ONE);
    assert!(outward.dot(&rec.p.sub(&Vec3::new(0, 0, 0))) > 0);
    // texture coordinates of the -z pole point
    assert_eq!(rec.u, 49152);
    assert_eq!(rec.v, 32768);
}

// The hit parameter always stays inside the open query window.
#[test]
fn sphere_hit_respects_window() {
    let s = Sphere::new(Vec3::new(0, 0, 0), ONE, 0);
    let r = Ray::new(&Vec3::new(0, 0, -3 * ONE), &Vec3::new(0, 0, ONE), 0);
    assert!(s.hit(&r, T_START, ONE).is_none());
    let rec = s.hit(&r, 2 * ONE, 5 * ONE).expect("far root");
    assert_eq!(rec.t, 4 * ONE);
    assert!(s.hit(&r, 4 * ONE, 5 * ONE).is_none());
}

#[test]
fn moving_sphere_interpolates_center() {
    let m = MovingSphere::new(Vec3::new(0, 0, 0), Vec3::new(10 * ONE, 0, 0), 0, ONE, ONE, 0);
    let c0 = m.center(0);
    assert_eq!((c0.x, c0.y, c0.z), (0, 0, 0));
    let c1 = m.center(ONE);
    assert_eq!((c1.x, c1.y, c1.z), (10 * ONE, 0, 0));
    let ch = m.center(ONE / 2);
    assert_eq!((ch.x, ch.y, ch.z), (5 * ONE, 0, 0));
}

#[test]
fn rect_hit_reports_plane_crossing() {
    let rc = Rect::new_xy(-ONE, ONE, -ONE, ONE, -2 * ONE, 0);
    let r = Ray::new(&Vec3::new(0, 0, 0), &Vec3::new(0, 0, -ONE), 0);
    let rec = rc.hit(&r, T_START, FP_LIMIT).expect("hit");
    assert_eq!(rec.t, 2 * ONE);
    assert_eq!((rec.p.x, rec.p.y, rec.p.z), (0, 0, -2 * ONE));
    assert_eq!(rec.u, ONE / 2);
    assert_eq!(rec.v, ONE / 2);
    assert!(rec.front_face);
    assert_eq!((rec.normal.x, rec.normal.y, rec.normal.z), (0, 0, ONE));
    // parallel ray misses
    let pr = Ray::new(&Vec3::new(0, 0, 0), &Vec3::new(ONE, 0, 0), 0);
    assert!(rc.hit(&pr, T_START, FP_LIMIT).is_none());
    // out-of-bounds crossing misses
    let or = Ray::new(&Vec3::new(5 * ONE, 0, 0), &Vec3::new(0, 0, -ONE), 0);
    assert!(rc.hit(&or, T_START, FP_LIMIT).is_none());
}

#[test]
fn box_reports_nearest_face() {
    let b = AxisBox::new(&Vec3::new(-ONE, -ONE, -ONE), &Vec3::new(ONE, ONE, ONE), 0);
    let r = Ray::new(&Vec3::new(0, 0, 3 * ONE), &Vec3::new(0, 0, -ONE), 0);
    let rec = b.hit(&r, T_START, FP_LIMIT).expect("hit");
    assert_eq!(rec.t, 2 * ONE);
    assert_eq!((rec.p.x, rec.p.y, rec.p.z), (0, 0, ONE));
}

// The composite list reports the smallest hit parameter among all
// children, whatever the insertion order.
#[test]
fn list_returns_globally_nearest_hit() {
    let mut world = HittableList::new();
    let mat_far = world.add_material(Material::Lambertian(Lambertian::new(&Vec3::new(
        ONE / 2,
        ONE / 2,
        ONE / 2,
    ))));
    let mat_near = world.add_material(Material::Lambertian(Lambertian::new(&Vec3::new(
        ONE / 4,
        ONE / 4,
        ONE / 4,
    ))));
    // the farther sphere is inserted first
    world.add(Hittable::Sphere(Sphere::new(Vec3::new(0, 0, -10 * ONE), ONE, mat_far)));
    world.add(Hittable::Sphere(Sphere::new(Vec3::new(0, 0, -5 * ONE), ONE, mat_near)));
    let r = Ray::new(&Vec3::new(0, 0, 0), &Vec3::new(0, 0, -ONE), 0);
    let rec = world.hit(&r, T_START, FP_LIMIT).expect("hit");
    assert_eq!(rec.t, 4 * ONE);
    assert_eq!(rec.mat, mat_near);
}

// Lambertian scatter: the scattered ray starts at the hit point and the
// attenuation is the albedo at the hit.
#[test]
fn lambertian_scatters_from_hit_point() {
    let albedo = Vec3::new(ONE / 2, ONE / 2, ONE / 2);
    let l = Lambertian::new(&albedo);
    let r_in = Ray::new(&Vec3::new(0, 0, 0), &Vec3::new(0, 0, -ONE), 1234);
    let rec = HitRecord {
        p: Vec3::new(ONE, 2 * ONE, 3 * ONE),
        normal: Vec3::new(0, ONE, 0),
        t: ONE,
        u: 0,
        v: 0,
        front_face: true,
        mat: 0,
    };
    let mut rng = Rng::new(99);
    let (att, sc) = l.scatter(&r_in, &rec, &mut rng).expect("always scatters");
    assert_eq!((sc.origin.x, sc.origin.y, sc.origin.z), (rec.p.x, rec.p.y, rec.p.z));
    assert_eq!((att.x, att.y, att.z), (albedo.x, albedo.y, albedo.z));
    assert_eq!(sc.time, 1234);
}

// Metal with zero fuzz: the scattered direction is exactly the mirror
// reflection of the normalized incoming direction.
#[test]
fn metal_zero_fuzz_is_exact_reflection() {
    let m = Metal::new(&Vec3::new(ONE, ONE, ONE), 0);
    let r_in = Ray::new(&Vec3::new(0, 0, 0), &Vec3::new(ONE, -ONE, 0), 0);
    let rec = HitRecord {
        p: Vec3::new(0, 0, 0),
        normal: Vec3::new(0, ONE, 0),
        t: ONE,
        u: 0,
        v: 0,
        front_face: true,
        mat: 0,
    };
    let mut rng = Rng::new(5);
    let (_att, sc) = m.scatter(&r_in, &rec, &mut rng).expect("reflects");
    let mirror = r_in.dir().unit().reflect(&rec.normal);
    assert_eq!((sc.dir.x, sc.dir.y, sc.dir.z), (mirror.x, mirror.y, mirror.z));
    assert_eq!((sc.dir.x, sc.dir.y, sc.dir.z), (46341, 46341, 0));
    // a grazing reflection that does not leave the surface is absorbed
    let r_gr = Ray::new(&Vec3::new(0, 0, 0), &Vec3::new(0, ONE, 0), 0);
    assert!(m.scatter(&r_gr, &rec, &mut rng).is_none());
}

// Dielectric with refraction index one: the ray passes through with its
// direction unchanged.
#[test]
fn dielectric_index_one_passes_straight_through() {
    let d = Dielectric::new(ONE);
    let rec = HitRecord {
        p: Vec3::new(0, 0, 0),
        normal: Vec3::new(0, 0, ONE),
        t: ONE,
        u: 0,
        v: 0,
        front_face: true,
        mat: 0,
    };
    let mut rng = Rng::new(1);
    let r_in = Ray::new(&Vec3::new(0, 0, 3 * ONE), &Vec3::new(0, 0, -ONE), 0);
    let (att, sc) = d.scatter(&r_in, &rec, &mut rng).expect("always scatters");
    assert_eq!((att.x, att.y, att.z), (ONE, ONE, ONE));
    assert_eq!((sc.dir.x, sc.dir.y, sc.dir.z), (0, 0, -ONE));
    // an oblique ray keeps its (normalized) direction as well
    let rec2 = HitRecord {
        p: Vec3::new(0, 0, 0),
        normal: Vec3::new(0, ONE, 0),
        t: ONE,
        u: 0,
        v: 0,
        front_face: true,
        mat: 0,
    };
    let mut rng2 = Rng::new(1);
    let r_ob = Ray::new(&Vec3::new(0, 0, 0), &Vec3::new(ONE, -ONE, 0), 0);
    let (_a2, sc2) = d.scatter(&r_ob, &rec2, &mut rng2).expect("always scatters");
    // within one rounding step of the incoming unit direction
    let unit = r_ob.dir().unit();
    assert!((sc2.dir.x - unit.x).abs() <= 1);
    assert!((sc2.dir.y - unit.y).abs() <= 1);
    assert!((sc2.dir.z - unit.z).abs() <= 1);
}

#[test]
fn diffuse_light_emits_and_never_scatters() {
    let dl = DiffuseLight::new_with_color(Vec3::new(4 * ONE, 4 * ONE, 4 * ONE));
    let m = Material::DiffuseLight(dl);
    let e = m.emitted(0, 0, &Vec3::new(0, 0, 0));
    assert_eq!((e.x, e.y, e.z), (4 * ONE, 4 * ONE, 4 * ONE));
    let r_in = Ray::new(&Vec3::new(0, 0, 0), &Vec3::new(0, 0, -ONE), 0);
    let rec = HitRecord {
        p: Vec3::new(0, 0, 0),
        normal: Vec3::new(0, 0, ONE),
        t: ONE,
        u: 0,
        v: 0,
        front_face: true,
        mat: 0,
    };
    let mut rng = Rng::new(3);
    assert!(m.scatter(&r_in, &rec, &mut rng).is_none());
}

// Perlin noise is deterministic for a fixed seed and bounded.
#[test]
fn perlin_noise_deterministic_and_bounded() {
    let mut rng_a = Rng::new(42);
    let pa = Perlin::new(&mut rng_a);
    let mut rng_b = Rng::new(42);
    let pb = Perlin::new(&mut rng_b);
    let points = [
        Vec3::new(0, 0, 0),
        Vec3::new(ONE / 3, 2 * ONE, -5 * ONE + 7),
        Vec3::new(-17 * ONE, ONE / 2, 3 * ONE + 11),
    ];
    for p in points.iter() {
        let na = pa.noise(p);
        assert_eq!(na, pb.noise(p));
        assert!(0 <= na && na < ONE);
    }
    let mut rng_c = Rng::new(43);
    let pc = Perlin::new(&mut rng_c);
    // a different seed is allowed to give different values; the tables
    // still keep every sample in range
    for p in points.iter() {
        let nc = pc.noise(p);
        assert!(0 <= nc && nc < ONE);
    }
}

#[test]
fn lattice_noise_is_constant_within_a_cell() {
    let mut rng = Rng::new(42);
    let p = Perlin::new(&mut rng);
    // four cells per unit: points within one quarter-unit cell agree
    let a = p.lattice_noise(&Vec3::new(0, 0, 0));
    let b = p.lattice_noise(&Vec3::new(ONE / 8, ONE / 8, ONE / 8));
    assert_eq!(a, b);
    assert!(0 <= a && a < ONE);
    // and the lookup is deterministic for the same tables
    let mut rng2 = Rng::new(42);
    let p2 = Perlin::new(&mut rng2);
    assert_eq!(a, p2.lattice_noise(&Vec3::new(0, 0, 0)));
}

// The noise index tables hold every byte value exactly once, and the
// shuffle really rearranges them.
#[test]
fn perlin_tables_are_permutations() {
    let mut rng = Rng::new(5);
    let p = Perlin::new(&mut rng);
    for tbl in [&p.perm_x, &p.perm_y, &p.perm_z] {
        let mut seen = [false; 256];
        for &b in tbl.iter() {
            assert!(!seen[b as usize]);
            seen[b as usize] = true;
        }
        assert!(seen.iter().all(|&x| x));
        assert!(tbl.iter().enumerate().any(|(i, &b)| b as usize != i));
    }
    assert_eq!(p.ranfloat.len(), 256);
    for &f in p.ranfloat.iter() {
        assert!(0 <= f && f < ONE);
    }
}

#[test]
fn noise_texture_is_grey() {
    let mut rng = Rng::new(7);
    let nt = Texture::Noise(NoiseTexture::new(4 * ONE, &mut rng));
    let c = nt.value(0, 0, &Vec3::new(ONE / 2, ONE / 3, ONE / 5));
    assert_eq!(c.x, c.y);
    assert_eq!(c.y, c.z);
    assert!(0 <= c.x && c.x < ONE);
}

#[test]
fn checker_alternates_cells() {
    let even = Vec3::new(ONE, 0, 0);
    let odd = Vec3::new(0, ONE, 0);
    let t = Texture::checker_colors(&even, &odd);
    let c0 = t.value(0, 0, &Vec3::new(0, 0, 0));
    assert_eq!((c0.x, c0.y, c0.z), (ONE, 0, 0));
    // one cell over along x: the parity flips
    let c1 = t.value(0, 0, &Vec3::new(20590, 0, 0));
    assert_eq!((c1.x, c1.y, c1.z), (0, ONE, 0));
    let c2 = t.value(0, 0, &Vec3::new(20590, 20590, 0));
    assert_eq!((c2.x, c2.y, c2.z), (ONE, 0, 0));
}

#[test]
fn image_texture_lookup_clamps() {
    let px = vec![
        Vec3::new(ONE, 0, 0),
        Vec3::new(0, ONE, 0),
        Vec3::new(0, 0, ONE),
        Vec3::new(ONE, ONE, 0),
    ];
    let im = Texture::Image(ImageTexture::new(2, 2, px));
    let top_left = im.value(0, ONE, &Vec3::new(0, 0, 0));
    assert_eq!((top_left.x, top_left.y, top_left.z), (ONE, 0, 0));
    let bottom_right = im.value(ONE, 0, &Vec3::new(0, 0, 0));
    assert_eq!((bottom_right.x, bottom_right.y, bottom_right.z), (ONE, ONE, 0));
    let clamped = im.value(2 * ONE, -ONE, &Vec3::new(0, 0, 0));
    assert_eq!((clamped.x, clamped.y, clamped.z), (ONE, ONE, 0));
}

// Exhausted bounce budget: exactly black, whatever the scene.
#[test]
fn ray_color_depth_zero_is_black() {
    let mut world = HittableList::new();
    let mat = world.add_material(Material::DiffuseLight(DiffuseLight::new_with_color(
        Vec3::new(4 * ONE, 4 * ONE, 4 * ONE),
    )));
    world.add(Hittable::Rect(Rect::new_xy(-10 * ONE, 10 * ONE, -10 * ONE, 10 * ONE, -2 * ONE, mat)));
    let bg = Vec3::new(ONE / 2, ONE / 2, ONE);
    let r = Ray::new(&Vec3::new(0, 0, 0), &Vec3::new(0, 0, -ONE), 0);
    let mut rng = Rng::new(1);
    let c = ray_color(&r, &bg, &world, 0, &mut rng);
    assert_eq!((c.x, c.y, c.z), (0, 0, 0));
}

// A ray into empty space returns exactly the background color.
#[test]
fn ray_color_miss_returns_background() {
    let world = HittableList::new();
    let bg = Vec3::new(ONE / 2, ONE / 3, ONE);
    let r = Ray::new(&Vec3::new(0, 0, 0), &Vec3::new(0, 0, -ONE), 0);
    let mut rng = Rng::new(1);
    let c = ray_color(&r, &bg, &world, 8, &mut rng);
    assert_eq!((c.x, c.y, c.z), (bg.x, bg.y, bg.z));
}

// A ray straight into a light returns exactly its emission.
#[test]
fn ray_color_light_returns_emission() {
    let mut world = HittableList::new();
    let mat = world.add_material(Material::DiffuseLight(DiffuseLight::new_with_color(
        Vec3::new(4 * ONE, 3 * ONE, 2 * ONE),
    )));
    world.add(Hittable::Rect(Rect::new_xy(-10 * ONE, 10 * ONE, -10 * ONE, 10 * ONE, -2 * ONE, mat)));
    let bg = Vec3::new(0, 0, 0);
    let r = Ray::new(&Vec3::new(0, 0, 0), &Vec3::new(0, 0, -ONE), 0);
    let mut rng = Rng::new(1);
    let c = ray_color(&r, &bg, &world, 5, &mut rng);
    assert_eq!((c.x, c.y, c.z), (4 * ONE, 3 * ONE, 2 * ONE));
}

// A diffuse surface at depth one: emission is zero and the single bounce
// terminates black.
#[test]
fn ray_color_diffuse_depth_one_is_black() {
    let mut world = HittableList::new();
    let mat = world.add_material(Material::Lambertian(Lambertian::new(&Vec3::new(
        ONE / 2,
        ONE / 2,
        ONE / 2,
    ))));
    world.add(Hittable::Sphere(Sphere::new(Vec3::new(0, 0, -3 * ONE), ONE, mat)));
    let bg = Vec3::new(ONE, ONE, ONE);
    let r = Ray::new(&Vec3::new(0, 0, 0), &Vec3::new(0, 0, -ONE), 0);
    let mut rng = Rng::new(1);
    let c = ray_color(&r, &bg, &world, 1, &mut rng);
    assert_eq!((c.x, c.y, c.z), (0, 0, 0));
}

#[test]
fn camera_zero_aperture_rays_leave_from_eye() {
    let cam = Camera::new(
        &Vec3::new(0, 0, 0),
        &Vec3::new(0, 0, -ONE),
        &Vec3::new(0, ONE, 0),
        ONE,
        ONE,
        0,
        ONE,
        0,
        0,
    );
    let mut rng = Rng::new(11);
    let ray = cam.get_ray(ONE / 2, ONE / 2, &mut rng);
    assert_eq!((ray.origin.x, ray.origin.y, ray.origin.z), (0, 0, 0));
    assert_eq!(ray.time, 0);
}

#[test]
fn write_color_averages_and_gamma_corrects() {
    let px = write_color(&Vec3::new(ONE, ONE, ONE), 4);
    assert_eq!((px.r, px.g, px.b), (128, 128, 128));
    let white = write_color(&Vec3::new(4 * ONE, 4 * ONE, 4 * ONE), 1);
    assert_eq!((white.r, white.g, white.b), (255, 255, 255));
    let blackp = write_color(&Vec3::new(0, 0, 0), 1);
    assert_eq!((blackp.r, blackp.g, blackp.b), (0, 0, 0));
}

// End to end: a fixed seed gives a deterministic image, and a view filled
// by one light quantizes to a pure white frame over a black background.
#[test]
fn render_is_deterministic() {
    let mut world = HittableList::new();
    let mat = world.add_material(Material::DiffuseLight(DiffuseLight::new_with_color(
        Vec3::new(4 * ONE, 4 * ONE, 4 * ONE),
    )));
    world.add(Hittable::Rect(Rect::new_xy(
        -100 * ONE,
        100 * ONE,
        -100 * ONE,
        100 * ONE,
        -3 * ONE,
        mat,
    )));
    let cam = Camera::new(
        &Vec3::new(0, 0, 0),
        &Vec3::new(0, 0, -ONE),
        &Vec3::new(0, ONE, 0),
        ONE,
        ONE,
        0,
        ONE,
        0,
        0,
    );
    let bg = Vec3::new(0, 0, 0);
    let mut rng1 = Rng::new(2024);
    let img1 = render(&world, &cam, 4, 4, 2, 4, &bg, &mut rng1);
    let mut rng2 = Rng::new(2024);
    let img2 = render(&world, &cam, 4, 4, 2, 4, &bg, &mut rng2);
    assert_eq!(img1.len(), 16);
    assert_eq!(img1, img2);
    for px in img1.iter() {
        assert_eq!(*px, Pixel { r: 255, g: 255, b: 255 });
    }
}
