//! Hit records, materials, textures, boxes and the noise lattice.
use raytracer::background::background_color::BackgroundColor;
use raytracer::background::Background;
use raytracer::color::Color;
use raytracer::hit::quad::admits;
use raytracer::hit::scene::SceneBuilder;
use raytracer::hit::sphere::first_root;
use raytracer::hit::{Hit, HitResult};
use raytracer::material::dielectric::Dielectric;
use raytracer::material::lambertian::Lambertian;
use raytracer::material::light::DiffuseLight;
use raytracer::material::metal::{Metal, MAX_TRIES};
use raytracer::material::{Material, Scattered};
use raytracer::math::aabb::Aabb;
use raytracer::math::interval::Interval;
use raytracer::math::perlin::{PerlinNoise, POINT_COUNT};
use raytracer::scalar::{negate, EPSILON, INFINITY, ONE, ZERO};
use raytracer::texture::checker::Checker;
use raytracer::texture::solid_color::SolidColor;
use raytracer::texture::Texture;
use raytracer::vec::Vec3;

/// The scalar that stands for `x`.
fn key(x: f64) -> i64 {
    assert!(!x.is_nan());
    let bits = (if x == 0.0 { 0.0 } else { x }).to_bits() as i64;
    if bits < 0 {
        bits ^ i64::MAX
    } else {
        bits
    }
}

fn vec3(x: f64, y: f64, z: f64) -> Vec3 {
    Vec3(key(x), key(y), key(z))
}

fn hit_at(normal: Vec3) -> HitResult<u8> {
    HitResult::new(key(-1.0), key(0.5), key(0.25), key(0.75), vec3(0.0, 0.0, -0.5), normal, 0)
}

#[test]
fn a_hit_from_outside_keeps_the_normal() {
    // sphere at (0, 0, -1) with radius 0.5, ray from the origin along
    // (0, 0, -1): the ray's direction times the outward normal is -1
    let hit = HitResult::new(
        key(-1.0),
        key(0.5),
        key(0.25),
        key(0.5),
        vec3(0.0, 0.0, -0.5),
        vec3(0.0, 0.0, 1.0),
        7u8,
    );
    assert!(hit.front_face);
    assert_eq!(hit.t, key(0.5));
    assert_eq!(hit.point, vec3(0.0, 0.0, -0.5));
    assert_eq!(hit.normal, vec3(0.0, 0.0, 1.0));
    assert_eq!((hit.u, hit.v, hit.material), (key(0.25), key(0.5), 7));
}

#[test]
fn a_sphere_is_hit_at_its_near_root() {
    // sphere at (0, 0, -1) with radius 0.5, ray from the origin along
    // (0, 0, -1): the roots are 0.5 and 1.5
    let sight = Interval::new(key(0.001), INFINITY);
    assert_eq!(first_root(&sight, key(0.25), key(0.5), key(1.5)), Some(key(0.5)));
    // from inside the sphere the near root lies behind the ray
    assert_eq!(first_root(&sight, key(0.25), key(-0.5), key(0.5)), Some(key(0.5)));
    // a hit found before cuts the window short
    assert_eq!(first_root(&Interval::new(key(0.001), key(0.5)), key(0.25), key(0.5), key(1.5)), None);
    assert_eq!(
        first_root(&Interval::new(key(0.6), key(1.6)), key(0.25), key(0.5), key(1.5)),
        Some(key(1.5))
    );
    // the sphere lies behind the ray
    assert_eq!(first_root(&sight, key(0.25), key(-1.5), key(-0.5)), None);
    // the ray passes the sphere
    assert_eq!(first_root(&sight, key(-0.01), key(0.5), key(1.5)), None);
    // the ray touches the sphere
    assert_eq!(first_root(&sight, key(0.0), key(1.0), key(1.0)), Some(key(1.0)));
}

#[test]
fn a_quad_is_hit_between_its_edges() {
    let sight = Interval::new(key(0.001), INFINITY);
    assert!(admits(&sight, key(-1.0), key(2.0), key(0.5), key(0.5)));
    assert!(admits(&sight, key(1.0), key(2.0), key(0.0), key(1.0)));
    assert!(admits(&sight, key(1e-15), key(0.001), key(1.0), key(0.0)));
    // the ray crosses the plane beside the quad
    for (u, v) in [(1.5, 0.5), (-0.1, 0.5), (0.5, 1.0000000000000002), (0.5, -1e-300), (7.0, -7.0)] {
        assert!(!admits(&sight, key(-1.0), key(2.0), key(u), key(v)));
    }
    // the ray runs along the plane
    assert!(!admits(&sight, key(0.0), key(2.0), key(0.5), key(0.5)));
    assert!(!admits(&sight, key(-2e-16), key(2.0), key(0.5), key(0.5)));
    assert!(admits(&sight, key(-3e-16), key(2.0), key(0.5), key(0.5)));
    // the ray crosses the plane outside the window
    assert!(!admits(&sight, key(-1.0), key(0.0009), key(0.5), key(0.5)));
    assert!(!admits(&sight, key(-1.0), key(-2.0), key(0.5), key(0.5)));
    assert!(!admits(&Interval::new(key(0.001), key(2.0)), key(-1.0), key(2.0), key(0.5), key(0.5)));
}

#[test]
fn a_hit_from_inside_turns_the_normal() {
    let hit = HitResult::new(key(0.3), 1, 2, 3, vec3(1.0, 2.0, 3.0), vec3(0.0, -0.6, 0.8), 0u8);
    assert!(!hit.front_face);
    assert_eq!(hit.normal, vec3(0.0, 0.6, -0.8));
    // a ray that grazes the surface counts as coming from inside
    let hit = HitResult::new(key(0.0), 1, 2, 3, vec3(1.0, 2.0, 3.0), vec3(0.0, -0.6, 0.8), 0u8);
    assert!(!hit.front_face);
    assert_eq!(hit.normal, vec3(0.0, 0.6, -0.8));
}

#[test]
fn vectors_select_their_parts() {
    let v = vec3(1.0, -2.0, 3.0);
    assert_eq!((v.axis(0), v.axis(1), v.axis(2)), (key(1.0), key(-2.0), key(3.0)));
    assert_eq!(v.x(), vec3(1.0, 0.0, 0.0));
    assert_eq!(v.y(), vec3(0.0, -2.0, 0.0));
    assert_eq!(v.z(), vec3(0.0, 0.0, 3.0));
    assert_eq!(v.xy(), vec3(1.0, -2.0, 0.0));
    assert_eq!(v.xz(), vec3(1.0, 0.0, 3.0));
    assert_eq!(v.yz(), vec3(0.0, -2.0, 3.0));
    assert_eq!(v.negate(), vec3(-1.0, 2.0, -3.0));
    let mut w = v;
    w.set_axis(1, key(5.0));
    assert_eq!(w, vec3(1.0, 5.0, 3.0));
    w.set_axis(0, key(6.0));
    w.set_axis(2, key(7.0));
    assert_eq!(w, vec3(6.0, 5.0, 7.0));
}

#[test]
fn named_vectors() {
    assert_eq!(Vec3::zero(), vec3(0.0, 0.0, 0.0));
    assert_eq!(Vec3::default(), vec3(0.0, 0.0, 0.0));
    assert_eq!(Vec3::unit(), vec3(1.0, 1.0, 1.0));
    assert_eq!(Vec3::right(), vec3(1.0, 0.0, 0.0));
    assert_eq!(Vec3::up(), vec3(0.0, 1.0, 0.0));
    assert_eq!(Vec3::forward(), vec3(0.0, 0.0, -1.0));
}

#[test]
fn near_zero_goes_by_the_tolerance() {
    assert!(Vec3::zero().near_zero());
    assert!(vec3(f64::EPSILON, -f64::EPSILON, 0.0).near_zero());
    assert!(vec3(1e-300, -1e-17, 1e-16).near_zero());
    assert!(!vec3(2.3e-16, 0.0, 0.0).near_zero());
    assert!(!vec3(0.0, -2.3e-16, 0.0).near_zero());
    assert!(!vec3(0.0, 0.0, 1.0).near_zero());
    assert_eq!(EPSILON, key(f64::EPSILON));
}

#[test]
fn intervals_combine_to_their_hull() {
    let a = Interval::new(key(0.0), key(1.0));
    let b = Interval::new(key(-2.0), key(0.5));
    assert_eq!(a.combined(&b), Interval::new(key(-2.0), key(1.0)));
    let mut c = b;
    c.combine(&a);
    assert_eq!(c, Interval::new(key(-2.0), key(1.0)));
    assert_eq!((c.start(), c.end()), (key(-2.0), key(1.0)));
    c.set_start(key(0.25));
    c.set_end(key(0.75));
    assert_eq!(c, Interval::new(key(0.25), key(0.75)));
    assert_eq!(Interval::default(), Interval::new(ZERO, ZERO));
}

#[test]
fn an_interval_is_open_at_its_end() {
    let a = Interval::new(key(0.001), INFINITY);
    assert!(a.contains(key(0.001)));
    assert!(a.contains(key(1.0e300)));
    assert!(!a.contains(INFINITY));
    assert!(!a.contains(key(0.0009)));
    assert!(!a.is_empty());
    assert!(Interval::new(key(1.0), key(1.0)).is_empty());
    assert!(Interval::new(key(1.0), key(0.5)).is_empty());
    assert!(!Interval::new(key(1.0), key(0.5)).contains(key(0.75)));
}

#[test]
fn a_box_spans_its_corners_in_any_order() {
    let expected =
        Aabb(Interval::new(key(-1.0), key(2.0)), Interval::new(key(0.0), key(3.0)), Interval::new(key(-5.0), key(4.0)));
    assert_eq!(Aabb::with_extrema(vec3(2.0, 0.0, -5.0), vec3(-1.0, 3.0, 4.0)), expected);
    assert_eq!(Aabb::with_extrema(vec3(-1.0, 3.0, 4.0), vec3(2.0, 0.0, -5.0)), expected);
    assert_eq!(*expected.axis(0), Interval::new(key(-1.0), key(2.0)));
    assert_eq!(*expected.axis(1), Interval::new(key(0.0), key(3.0)));
    assert_eq!(*expected.axis(2), Interval::new(key(-5.0), key(4.0)));
}

#[test]
fn boxes_combine_to_their_hull() {
    let a = Aabb::with_extrema(vec3(0.0, 0.0, 0.0), vec3(1.0, 1.0, 1.0));
    let b = Aabb::with_extrema(vec3(0.5, -1.0, 0.25), vec3(3.0, 0.5, 0.75));
    let hull = Aabb::with_extrema(vec3(0.0, -1.0, 0.0), vec3(3.0, 1.0, 1.0));
    assert_eq!(a.combined(&b), hull);
    assert_eq!(b.combined(&a), hull);
    let mut c = a;
    c.combine(&b);
    assert_eq!(c, hull);
}

#[test]
fn a_box_has_eight_corners() {
    let b = Aabb::with_extrema(vec3(0.0, 10.0, 20.0), vec3(1.0, 11.0, 21.0));
    assert_eq!(
        b.corners(),
        vec![
            vec3(0.0, 10.0, 20.0),
            vec3(0.0, 10.0, 21.0),
            vec3(0.0, 11.0, 20.0),
            vec3(0.0, 11.0, 21.0),
            vec3(1.0, 10.0, 20.0),
            vec3(1.0, 10.0, 21.0),
            vec3(1.0, 11.0, 20.0),
            vec3(1.0, 11.0, 21.0),
        ]
    );
    assert_eq!(b.corner(5), vec3(1.0, 10.0, 21.0));
    assert_eq!(Aabb::enclosing(&b.corners()), b);
}

#[test]
fn the_enclosing_box_reaches_from_the_least_to_the_greatest() {
    let points = vec![vec3(1.0, 5.0, -3.0), vec3(-2.0, 6.0, -1.0), vec3(0.0, 4.0, -2.0)];
    assert_eq!(
        Aabb::enclosing(&points),
        Aabb::with_extrema(vec3(-2.0, 4.0, -3.0), vec3(1.0, 6.0, -1.0))
    );
    assert_eq!(
        Aabb::enclosing(&vec![vec3(1.0, 2.0, 3.0)]),
        Aabb::with_extrema(vec3(1.0, 2.0, 3.0), vec3(1.0, 2.0, 3.0))
    );
    // without a point: from minus infinity to infinity on every axis
    let all = Interval::new(negate(INFINITY), INFINITY);
    assert_eq!(Aabb::enclosing(&Vec::new()), Aabb(all, all, all));
}

#[test]
fn a_light_emits_and_absorbs() {
    let light = DiffuseLight::colored(Color::red());
    let hit = HitResult::new(-1, 1, 2, 3, Vec3::zero(), Vec3::up(), DiffuseLight::colored(Color::red()));
    assert!(Material::<u8>::scatter(&light, &0u8, &hit).is_none());
    assert_eq!(Material::<u8>::emitted(&light, 5, 6, &Vec3::unit()), Color::red());
}

#[test]
fn a_diffuse_surface_scatters_along_the_sum() {
    let surface = Lambertian::colored(Color::green());
    let hit = hit_at(vec3(0.0, 0.0, 1.0));
    let scattered = |direction: Vec3| Scattered {
        origin: vec3(0.0, 0.0, -0.5),
        direction,
        time: key(0.25),
        attenuation: Color::green(),
    };
    assert_eq!(
        surface.scatter_along(&hit, key(0.25), vec3(0.5, 0.0, 1.5)),
        scattered(vec3(0.5, 0.0, 1.5))
    );
    // the random vector cancelled the normal: the ray leaves along the normal
    assert_eq!(
        surface.scatter_along(&hit, key(0.25), vec3(0.0, 0.0, 0.0)),
        scattered(vec3(0.0, 0.0, 1.0))
    );
    assert_eq!(
        surface.scatter_along(&hit, key(0.25), vec3(1e-17, -1e-17, 2e-16)),
        scattered(vec3(0.0, 0.0, 1.0))
    );
    assert_eq!(
        surface.scatter_along(&hit, key(0.25), vec3(1e-17, -1e-17, 3e-16)),
        scattered(vec3(1e-17, -1e-17, 3e-16))
    );
}

#[test]
fn a_mirror_scatters_the_mirrored_ray() {
    // incoming (1, -1, 0) on a floor with normal (0, 1, 0), hit at
    // (0, 0, -0.5): the ray leaves from there along (1, 1, 0)
    let mirror = Metal { albedo: Color::new(key(0.9), key(0.6), key(0.2)), fuzz: key(0.0) };
    let never = || -> (Vec3, i64) { panic!("a mirror draws no direction") };
    let hit = hit_at(vec3(0.0, 1.0, 0.0));
    assert_eq!(
        mirror.scatter_along(&hit, key(0.75), vec3(1.0, 1.0, 0.0), key(1.0), &never),
        Some(Scattered {
            origin: vec3(0.0, 0.0, -0.5),
            direction: vec3(1.0, 1.0, 0.0),
            time: key(0.75),
            attenuation: Color::new(key(0.9), key(0.6), key(0.2)),
        })
    );
    assert_eq!(mirror.scatter_along(&hit, key(0.75), vec3(1.0, -1.0, 0.0), key(-1.0), &never), None);
    let fuzzy = Metal { albedo: Color::white(), fuzz: key(0.5) };
    let drawn = || (vec3(0.9, 1.1, 0.1), key(1.1));
    assert_eq!(
        fuzzy.scatter_along(&hit, key(0.75), vec3(1.0, 1.0, 0.0), key(1.0), &drawn),
        Some(Scattered {
            origin: vec3(0.0, 0.0, -0.5),
            direction: vec3(0.9, 1.1, 0.1),
            time: key(0.75),
            attenuation: Color::white(),
        })
    );
}

#[test]
fn glass_passes_the_ray_on_unattenuated() {
    let hit = hit_at(vec3(0.0, 0.0, 1.0));
    let reflection = vec3(0.0, 0.0, 1.0);
    let refraction = vec3(0.0, 0.0, -1.0);
    let passed = |direction: Vec3| Scattered {
        origin: vec3(0.0, 0.0, -0.5),
        direction,
        time: key(0.5),
        attenuation: Color::white(),
    };
    // straight on, between equal media: refracted, whatever is drawn
    for draw in [0.0, 0.3, 0.999] {
        assert_eq!(
            Dielectric::scatter_along(&hit, key(0.5), reflection, refraction, key(0.0), key(0.0), key(draw)),
            passed(refraction)
        );
    }
    // total reflection
    assert_eq!(
        Dielectric::scatter_along(&hit, key(0.5), reflection, refraction, key(1.2), key(0.0), key(0.9)),
        passed(reflection)
    );
    // the reflectance is above the draw
    assert_eq!(
        Dielectric::scatter_along(&hit, key(0.5), reflection, refraction, key(0.5), key(0.3), key(0.2)),
        passed(reflection)
    );
    assert_eq!(
        Dielectric::scatter_along(&hit, key(0.5), reflection, refraction, key(0.5), key(0.3), key(0.3)),
        passed(refraction)
    );
}

#[test]
fn a_mirror_reflects_without_change() {
    let mirror = Metal { albedo: Color::white(), fuzz: key(0.0) };
    let never = || -> (Vec3, i64) { panic!("a mirror draws no direction") };
    // incoming (1, -1, 0) on a floor with normal (0, 1, 0) leaves as (1, 1, 0)
    let reflected = vec3(1.0, 1.0, 0.0);
    assert_eq!(mirror.settle(reflected, key(1.0), &never), Some(reflected));
    assert_eq!(mirror.settle(reflected, key(1e-300), &never), Some(reflected));
    // a direction that points into the surface is absorbed
    assert_eq!(mirror.settle(reflected, key(0.0), &never), None);
    assert_eq!(mirror.settle(reflected, key(-0.5), &never), None);
    let negative = Metal { albedo: Color::white(), fuzz: key(-1.0) };
    assert_eq!(negative.settle(reflected, key(1.0), &never), Some(reflected));
}

#[test]
fn a_fuzzy_metal_takes_the_first_direction_that_leaves() {
    let metal = Metal { albedo: Color::white(), fuzz: key(0.3) };
    let drawn = std::cell::Cell::new(0u32);
    let perturb = || {
        drawn.set(drawn.get() + 1);
        let along = if drawn.get() < 5 { key(-0.1) } else { key(0.2) };
        (Vec3(i64::from(drawn.get()), 0, 0), along)
    };
    assert_eq!(metal.settle(vec3(1.0, 1.0, 0.0), key(1.0), &perturb), Some(Vec3(5, 0, 0)));
    assert_eq!(drawn.get(), 5);
}

#[test]
fn a_fuzzy_metal_gives_up_after_its_tries() {
    let metal = Metal { albedo: Color::white(), fuzz: key(2.0) };
    let drawn = std::cell::Cell::new(0u32);
    let perturb = || {
        drawn.set(drawn.get() + 1);
        (Vec3::zero(), key(0.0))
    };
    assert_eq!(metal.settle(vec3(1.0, 1.0, 0.0), key(1.0), &perturb), None);
    assert_eq!(drawn.get(), MAX_TRIES);
    assert_eq!(MAX_TRIES, 64);
}

#[test]
fn a_metal_accepts_what_points_out_of_the_surface() {
    let direction = vec3(0.0, 1.0, 0.0);
    assert_eq!(Metal::accepted((direction, key(0.5))), Some(direction));
    assert_eq!(Metal::accepted((direction, key(1e-300))), Some(direction));
    assert_eq!(Metal::accepted((direction, key(0.0))), None);
    assert_eq!(Metal::accepted((direction, key(-0.5))), None);
}

#[test]
fn a_metal_takes_the_first_of_the_drawn_directions_that_leaves() {
    let pair = |n: i64, along: f64| (Vec3(n, 0, 0), key(along));
    assert_eq!(Metal::first_accepted(&Vec::new()), None);
    assert_eq!(Metal::first_accepted(&vec![pair(1, 0.5)]), Some(Vec3(1, 0, 0)));
    assert_eq!(
        Metal::first_accepted(&vec![pair(1, -0.5), pair(2, 0.0), pair(3, 0.1), pair(4, 0.9)]),
        Some(Vec3(3, 0, 0))
    );
    assert_eq!(Metal::first_accepted(&vec![pair(1, -0.5), pair(2, 0.0)]), None);
    // only the first 64 are looked at
    let mut drawn = vec![pair(0, -1.0); 63];
    drawn.push(pair(64, 1.0));
    drawn.push(pair(65, 1.0));
    assert_eq!(Metal::first_accepted(&drawn), Some(Vec3(64, 0, 0)));
    let mut drawn = vec![pair(0, -1.0); 64];
    drawn.push(pair(65, 1.0));
    assert_eq!(Metal::first_accepted(&drawn), None);
}

#[test]
fn a_fuzzy_metal_draws_again_after_each_rejection() {
    let metal = Metal { albedo: Color::white(), fuzz: key(0.3) };
    for accepted_at in 1..=MAX_TRIES {
        let drawn = std::cell::Cell::new(0u32);
        let perturb = || {
            drawn.set(drawn.get() + 1);
            let along = if drawn.get() < accepted_at { key(-0.1) } else { key(0.2) };
            (Vec3(i64::from(drawn.get()), 0, 0), along)
        };
        assert_eq!(
            metal.settle(vec3(1.0, 1.0, 0.0), key(1.0), &perturb),
            Some(Vec3(i64::from(accepted_at), 0, 0))
        );
        assert_eq!(drawn.get(), accepted_at);
    }
}

#[test]
fn surfaces_attenuate_by_their_colour() {
    let metal = Metal { albedo: Color::new(key(0.9), key(0.6), key(0.2)), fuzz: key(0.05) };
    assert_eq!(metal.attenuation(), Color::new(key(0.9), key(0.6), key(0.2)));
    assert_eq!(Dielectric::attenuation(), Color::white());
}

#[test]
fn glass_reflects_or_refracts() {
    // total reflection, whatever is drawn
    assert!(Dielectric::reflects(key(1.2), key(0.0), key(0.99)));
    // the reflectance is above the draw
    assert!(Dielectric::reflects(key(0.5), key(0.3), key(0.2)));
    assert!(!Dielectric::reflects(key(0.5), key(0.3), key(0.3)));
    assert!(!Dielectric::reflects(key(1.0), key(0.3), key(0.7)));
    // straight on, between equal media: the ray is refracted
    assert!(!Dielectric::reflects(key(0.0), key(0.0), key(0.0)));
    let glass = Dielectric { refraction_index: key(1.5) };
    assert_eq!(glass.refraction_ratio(key(1.0 / 1.5), true), key(1.0 / 1.5));
    assert_eq!(glass.refraction_ratio(key(1.0 / 1.5), false), key(1.5));
}

#[test]
fn checker_cells_alternate() {
    let checker = Checker::new_with_colors(Color::white(), Color::black());
    let point = Vec3::zero();
    assert_eq!(checker.value_in((0, 0, 0), 0, 0, &point), Color::white());
    assert_eq!(checker.value_in((1, 0, 0), 0, 0, &point), Color::black());
    assert_eq!(checker.value_in((1, 1, 0), 0, 0, &point), Color::white());
    assert_eq!(checker.value_in((-1, 0, 0), 0, 0, &point), Color::black());
    assert_eq!(checker.value_in((-1, -2, 3), 0, 0, &point), Color::white());
    assert_eq!(checker.value_in((-3, -2, 0), 0, 0, &point), Color::black());
    // sums beyond 32 bits
    assert!(Checker::<SolidColor, SolidColor>::is_even(i32::MAX, i32::MAX, 0));
    assert!(!Checker::<SolidColor, SolidColor>::is_even(i32::MAX, i32::MAX, i32::MAX));
    assert!(Checker::<SolidColor, SolidColor>::is_even(i32::MIN, i32::MIN, i32::MIN));
    let nested = Checker::new(Checker::new_with_colors(Color::red(), Color::blue()).even, SolidColor::black());
    assert_eq!(nested.value_in((2, 0, 0), 0, 0, &point), Color::red());
}

#[test]
fn solid_textures_and_backgrounds_have_one_colour() {
    assert_eq!(SolidColor::new(1, 2, 3).value(9, 9, &Vec3::unit()), Color::new(1, 2, 3));
    assert_eq!(SolidColor::black().value(0, 0, &Vec3::zero()), Color::black());
    assert_eq!(SolidColor::white().value(0, 0, &Vec3::zero()), Color::white());
    assert_eq!(BackgroundColor::new(1, 2, 3).background(&"any ray"), Color::new(1, 2, 3));
    assert_eq!(BackgroundColor::black().background(&0u8), Color::black());
    assert_eq!(BackgroundColor::white().background(&0u8), Color::white());
    assert_eq!(BackgroundColor::default().background(&0u8), Color::black());
    assert_eq!((ZERO, ONE), (key(0.0), key(1.0)));
}

/// A point that every ray hits at parameter `at`.
struct Dot {
    at: i64,
    bounds: Aabb,
}

impl Hit for Dot {
    type Ray = ();
    type Material = i64;

    fn bounds(&self) -> Aabb {
        self.bounds
    }

    fn meets(_ray: &(), _axis: u32, _plane: i64) -> Option<i64> {
        None
    }

    fn descends(_ray: &(), _axis: u32) -> bool {
        false
    }

    fn first_hit(&self, ray: &(), t_interval: Interval) -> Option<HitResult<i64>> {
        self.hit(ray, t_interval)
    }

    fn hit(&self, _ray: &(), t_interval: Interval) -> Option<HitResult<i64>> {
        if t_interval.contains(self.at) {
            Some(HitResult::new(-1, self.at, 0, 0, Vec3::zero(), Vec3::up(), self.at))
        } else {
            None
        }
    }

    fn bounding_box(&self) -> &Aabb {
        &self.bounds
    }

    fn plane(_ray: &(), _axis: u32, _plane: i64) -> Option<i64> {
        None
    }

    fn backwards(_ray: &(), _axis: u32) -> bool {
        false
    }
}

#[test]
fn a_scene_builder_collects_objects() {
    let dot = |at: i64| Dot { at, bounds: Aabb::with_extrema(Vec3(at, at, at), Vec3(at + 1, at + 1, at + 1)) };
    let scene = SceneBuilder::new().add(dot(5)).add(dot(3)).add(dot(9)).build();
    assert_eq!(scene.len(), 3);
    assert_eq!(*scene.bounding_box(), Aabb::with_extrema(Vec3(0, 0, 0), Vec3(10, 10, 10)));
    assert_eq!(scene.hit(&(), Interval::new(0, 100)).map(|h| h.material), Some(3));
    assert_eq!(scene.hit(&(), Interval::new(4, 100)).map(|h| h.material), Some(5));
    assert_eq!(scene.hit(&(), Interval::new(6, 9)).map(|h| h.material), None);
    assert_eq!(SceneBuilder::<Dot>::new().build().len(), 0);
}

fn numbered_points() -> Vec<Vec3> {
    (0..POINT_COUNT as i64).map(|i| Vec3(i, 0, 0)).collect()
}

#[test]
fn a_lattice_needs_its_number_of_gradients() {
    assert!(PerlinNoise::new(Vec::new()).is_none());
    assert!(PerlinNoise::new(vec![Vec3::zero(); 255]).is_none());
    assert!(PerlinNoise::new(vec![Vec3::zero(); 257]).is_none());
    assert!(PerlinNoise::new(vec![Vec3::zero(); 256]).is_some());
}

#[test]
fn a_lattice_repeats_every_256_cells() {
    let noise = PerlinNoise::new(numbered_points()).unwrap();
    for (x, y, z) in [(0, 0, 0), (1, 2, 3), (-1, -2, -3), (255, 256, 257), (i64::MIN, i64::MAX, 77)] {
        let here = noise.gradient(x, y, z);
        assert!((0..256).contains(&here.0));
        assert_eq!(noise.gradient(x.wrapping_add(256), y, z), here);
        assert_eq!(noise.gradient(x, y.wrapping_sub(512), z), here);
        assert_eq!(noise.gradient(x, y, z & 255), here);
    }
}

#[test]
fn a_lattice_is_shuffled() {
    let noise = PerlinNoise::new(numbered_points()).unwrap();
    // along each axis every gradient comes up once in 256 cells
    let base = noise.gradient(0, 0, 0).0;
    for axis in 0..3 {
        let mut seen: Vec<i64> = (0..256)
            .map(|i| match axis {
                0 => noise.gradient(i, 0, 0).0,
                1 => noise.gradient(0, i, 0).0,
                _ => noise.gradient(0, 0, i).0,
            })
            .collect();
        // unshuffled tables would give the cell's own number, combined with
        // that of the cell at the origin
        assert!((0..256).any(|i| seen[i as usize] != (i ^ base)));
        seen.sort();
        assert_eq!(seen, (0..256).collect::<Vec<i64>>());
    }
}
