use raytracing_rs::hit::{Hit, HitList, HitRecord};
use raytracing_rs::ray::Ray;
use raytracing_rs::shading::{ray_color, Shading};

/// A plane across a one-dimensional ray.
struct Plane {
    at: i64,
    material: usize,
}

impl Hit<i64, i64> for Plane {
    fn hit(&self, ray: &Ray<i64>, t_min: i64, t_max: i64) -> Option<HitRecord<i64, i64>> {
        let t = (self.at - ray.origin) * ray.direction;
        if t > t_min && t < t_max {
            Some(HitRecord {
                point: self.at,
                t,
                normal: -ray.direction,
                material: self.material,
                is_front_face: true,
            })
        } else {
            None
        }
    }
}

/// An object that must not be tested.
struct Forbidden;

impl Hit<i64, i64> for Forbidden {
    fn hit(&self, _ray: &Ray<i64>, _t_min: i64, _t_max: i64) -> Option<HitRecord<i64, i64>> {
        panic!("the world was tested with no bounce left")
    }
}

fn planes(at: &[i64]) -> HitList<Plane> {
    let mut scene = HitList::new();
    for (material, at) in at.iter().enumerate() {
        scene.add(Plane { at: *at, material });
    }
    scene
}

/// Every plane passes the ray on, with its material number plus one as attenuation.
fn pass_on(_ray: &Ray<i64>, record: &HitRecord<i64, i64>) -> Option<(Ray<i64>, i64)> {
    Some((Ray::new(record.point, 1), record.material as i64 + 1))
}

/// Material 1 absorbs; the others pass the ray on.
fn absorb_second(ray: &Ray<i64>, record: &HitRecord<i64, i64>) -> Option<(Ray<i64>, i64)> {
    if record.material == 1 {
        None
    } else {
        pass_on(ray, record)
    }
}

fn sky(ray: &Ray<i64>) -> i64 {
    100 + ray.origin
}

/// Neither commutative nor associative, so that the order of application shows.
fn blend(attenuation: i64, color: i64) -> i64 {
    attenuation + 2 * color
}

fn shading_with<S>(scatter: S) -> Shading<i64, i64, S, fn(&Ray<i64>) -> i64, fn(i64, i64) -> i64>
where
    S: Fn(&Ray<i64>, &HitRecord<i64, i64>) -> Option<(Ray<i64>, i64)>,
{
    Shading { t_min: 0, t_max: i64::MAX, black: -1, scatter, background: sky, attenuate: blend }
}

#[test]
fn no_depth_is_black() {
    let shading = shading_with(pass_on);
    for origin in [-5, 0, 2, 50] {
        for direction in [-1, 1] {
            let ray = Ray::new(origin, direction);
            assert_eq!(ray_color(&ray, &planes(&[]), 0, &shading), -1);
            assert_eq!(ray_color(&ray, &planes(&[1, 2, 3]), 0, &shading), -1);
        }
    }
}

#[test]
fn negative_depth_is_black() {
    let shading = shading_with(pass_on);
    let ray = Ray::new(0, 1);
    assert_eq!(ray_color(&ray, &planes(&[1]), -3, &shading), -1);
    assert_eq!(ray_color(&ray, &planes(&[1]), i32::MIN, &shading), -1);
}

#[test]
fn no_depth_does_not_test_the_world() {
    let shading = shading_with(pass_on);
    let ray = Ray::new(0, 1);
    assert_eq!(ray_color(&ray, &Forbidden, 0, &shading), -1);
}

#[test]
fn miss_is_background() {
    let shading = shading_with(pass_on);
    let ray = Ray::new(7, 1);
    assert_eq!(ray_color(&ray, &planes(&[1, 2, 3]), 5, &shading), 107);
    assert_eq!(ray_color(&ray, &planes(&[]), 1, &shading), 107);
}

#[test]
fn absorbed_ray_is_black() {
    let shading = shading_with(absorb_second);
    let ray = Ray::new(4, 1);
    // the plane at 5 is material 1
    assert_eq!(ray_color(&ray, &planes(&[1, 5]), 5, &shading), -1);
}

#[test]
fn one_bounce_then_background() {
    let shading = shading_with(pass_on);
    let ray = Ray::new(0, 1);
    // hit the plane at 3 (attenuation 1), then the background from 3: 103
    assert_eq!(ray_color(&ray, &planes(&[3]), 2, &shading), 1 + 2 * 103);
}

#[test]
fn attenuations_nest_from_the_last_bounce_outwards() {
    let shading = shading_with(pass_on);
    let ray = Ray::new(0, 1);
    // planes at 1, 2, 3 with attenuations 1, 2, 3; background from 3 is 103
    let expected = blend(1, blend(2, blend(3, 103)));
    assert_eq!(expected, 1 + 2 * (2 + 2 * (3 + 2 * 103)));
    assert_eq!(ray_color(&ray, &planes(&[1, 2, 3]), 4, &shading), expected);
    assert_eq!(ray_color(&ray, &planes(&[1, 2, 3]), 50, &shading), expected);
}

#[test]
fn running_out_of_depth_ends_in_black() {
    let shading = shading_with(pass_on);
    let ray = Ray::new(0, 1);
    let scene = planes(&[1, 2, 3]);
    assert_eq!(ray_color(&ray, &scene, 1, &shading), blend(1, -1));
    assert_eq!(ray_color(&ray, &scene, 2, &shading), blend(1, blend(2, -1)));
    assert_eq!(ray_color(&ray, &scene, 3, &shading), blend(1, blend(2, blend(3, -1))));
}

#[test]
fn absorption_after_a_bounce_is_attenuated_black() {
    let shading = shading_with(absorb_second);
    let ray = Ray::new(0, 1);
    // plane at 1 passes on with attenuation 1, plane at 2 (material 1) absorbs
    assert_eq!(ray_color(&ray, &planes(&[1, 2, 3]), 10, &shading), blend(1, -1));
}

#[test]
fn to_color_is_ray_color() {
    let shading = shading_with(pass_on);
    let scene = planes(&[1, 2, 3]);
    for depth in -1..6 {
        for origin in 0..5 {
            let ray = Ray::new(origin, 1);
            assert_eq!(
                ray.to_color(&scene, depth, &shading),
                ray_color(&ray, &scene, depth, &shading)
            );
        }
    }
}

fn nested(ray: &Ray<i64>, scene: &HitList<Plane>, depth: i32) -> i64 {
    if depth <= 0 {
        return -1;
    }
    match scene.hit(ray, 0, i64::MAX) {
        Some(record) => match absorb_second(ray, &record) {
            Some((next, attenuation)) => blend(attenuation, nested(&next, scene, depth - 1)),
            None => -1,
        },
        None => sky(ray),
    }
}

#[test]
fn loop_agrees_with_the_nested_definition() {
    let shading = shading_with(absorb_second);
    let scenes = [planes(&[]), planes(&[2]), planes(&[4, 1]), planes(&[1, 9, 3, 5]), planes(&[3, 2, 1])];
    for scene in scenes.iter() {
        for depth in 0..7 {
            for origin in -1..10 {
                let ray = Ray::new(origin, 1);
                assert_eq!(ray_color(&ray, scene, depth, &shading), nested(&ray, scene, depth));
            }
        }
    }
}

#[test]
fn deep_paths_need_no_deep_stack() {
    /// A hall of mirrors: every test hits.
    struct Mirror;
    impl Hit<i64, i64> for Mirror {
        fn hit(&self, ray: &Ray<i64>, _t_min: i64, _t_max: i64) -> Option<HitRecord<i64, i64>> {
            Some(HitRecord { point: ray.origin, t: 1, normal: 0, material: 0, is_front_face: true })
        }
    }
    fn keep(_attenuation: i64, color: i64) -> i64 {
        color
    }
    let shading = Shading {
        t_min: 0,
        t_max: i64::MAX,
        black: -1,
        scatter: pass_on,
        background: sky,
        attenuate: keep,
    };
    let ray = Ray::new(0, 1);
    assert_eq!(ray_color(&ray, &Mirror, 2_000_000, &shading), -1);
}
