use raytracing_rs::hit::{Hit, HitList, HitRecord};
use raytracing_rs::ray::Ray;
use std::cell::RefCell;

/// A plane across a one-dimensional ray; it notes the upper bounds it was tested with.
struct Plane {
    at: f64,
    material: usize,
    bounds: RefCell<Vec<f64>>,
}

fn plane(at: f64, material: usize) -> Plane {
    Plane { at, material, bounds: RefCell::new(Vec::new()) }
}

impl Hit<f64, f64> for Plane {
    fn hit(&self, ray: &Ray<f64>, t_min: f64, t_max: f64) -> Option<HitRecord<f64, f64>> {
        self.bounds.borrow_mut().push(t_max);
        let t = (self.at - ray.origin) / ray.direction;
        if t > t_min && t < t_max {
            Some(HitRecord {
                point: self.at,
                t,
                normal: -1.0,
                material: self.material,
                is_front_face: true,
            })
        } else {
            None
        }
    }
}

#[test]
fn ray_keeps_origin_and_direction() {
    let ray = Ray::new([1.0, 2.0, 3.0], [0.0, 0.0, -1.0]);
    assert_eq!(ray.origin, [1.0, 2.0, 3.0]);
    assert_eq!(ray.direction, [0.0, 0.0, -1.0]);
}

#[test]
fn empty_scene_is_never_hit() {
    let scene: HitList<Plane> = HitList::new();
    let ray = Ray::new(0.0, 1.0);
    assert!(scene.hit(&ray, 0.001, f64::INFINITY).is_none());
}

#[test]
fn nearest_plane_wins() {
    let mut scene = HitList::new();
    scene.add(plane(5.0, 0));
    scene.add(plane(2.0, 1));
    scene.add(plane(9.0, 2));
    let ray = Ray::new(0.0, 1.0);
    let found = scene.hit(&ray, 0.001, f64::INFINITY).unwrap();
    assert_eq!(found.material, 1);
    assert_eq!(found.t, 2.0);
    assert_eq!(found.point, 2.0);
}

#[test]
fn nearest_plane_wins_in_any_order() {
    let orders: [[f64; 3]; 3] = [[2.0, 5.0, 9.0], [9.0, 5.0, 2.0], [5.0, 9.0, 2.0]];
    for order in orders.iter() {
        let mut scene = HitList::new();
        for (material, at) in order.iter().enumerate() {
            scene.add(plane(*at, material));
        }
        let ray = Ray::new(0.0, 1.0);
        assert_eq!(scene.hit(&ray, 0.001, f64::INFINITY).unwrap().t, 2.0);
    }
}

#[test]
fn scene_of_misses_is_not_hit() {
    let mut scene = HitList::new();
    scene.add(plane(-3.0, 0));
    scene.add(plane(-1.0, 1));
    let ray = Ray::new(0.0, 1.0);
    assert!(scene.hit(&ray, 0.001, f64::INFINITY).is_none());
}

#[test]
fn hits_outside_the_bounds_are_not_counted() {
    let mut scene = HitList::new();
    scene.add(plane(0.0005, 0));
    scene.add(plane(50.0, 1));
    let ray = Ray::new(0.0, 1.0);
    assert!(scene.hit(&ray, 0.001, 10.0).is_none());
    assert_eq!(scene.hit(&ray, 0.001, 100.0).unwrap().material, 1);
}

#[test]
fn of_two_equal_hits_the_first_stays() {
    let mut scene = HitList::new();
    scene.add(plane(4.0, 0));
    scene.add(plane(4.0, 1));
    let ray = Ray::new(0.0, 1.0);
    assert_eq!(scene.hit(&ray, 0.001, f64::INFINITY).unwrap().material, 0);
}

/// A scene inside a scene: the inner list is one object of the outer.
#[test]
fn a_scene_is_itself_an_object() {
    let mut inner = HitList::new();
    inner.add(plane(7.0, 0));
    inner.add(plane(3.0, 1));
    let mut outer = HitList::new();
    outer.add(inner);
    let ray = Ray::new(0.0, 1.0);
    assert_eq!(outer.hit(&ray, 0.001, f64::INFINITY).unwrap().material, 1);
}

/// A wall that every ray hits at the same parameter.
struct Wall {
    t: f64,
}

impl Hit<f64, f64> for Wall {
    fn hit(&self, _ray: &Ray<f64>, t_min: f64, t_max: f64) -> Option<HitRecord<f64, f64>> {
        if self.t > t_min && self.t < t_max {
            Some(HitRecord { point: 0.0, t: self.t, normal: 1.0, material: 9, is_front_face: false })
        } else {
            None
        }
    }
}

#[test]
fn a_scene_can_hold_objects_of_different_kinds() {
    let mut scene: HitList<Box<dyn Hit<f64, f64>>> = HitList::new();
    scene.add(Box::new(plane(6.0, 0)));
    scene.add(Box::new(Wall { t: 4.0 }));
    scene.add(Box::new(plane(5.0, 1)));
    let ray = Ray::new(0.0, 1.0);
    let found = scene.hit(&ray, 0.001, f64::INFINITY).unwrap();
    assert_eq!(found.material, 9);
    assert_eq!(found.t, 4.0);
    assert_eq!(scene.hit(&ray, 0.001, 4.0).map(|record| record.t), None);
    assert_eq!(scene.hit(&ray, 4.5, 10.0).map(|record| record.material), Some(1));
}

struct Probe<'a> {
    at: f64,
    log: &'a RefCell<Vec<(f64, f64)>>,
}

impl<'a> Hit<f64, f64> for Probe<'a> {
    fn hit(&self, ray: &Ray<f64>, t_min: f64, t_max: f64) -> Option<HitRecord<f64, f64>> {
        self.log.borrow_mut().push((self.at, t_max));
        let t = (self.at - ray.origin) / ray.direction;
        if t > t_min && t < t_max {
            Some(HitRecord { point: self.at, t, normal: -1.0, material: 0, is_front_face: true })
        } else {
            None
        }
    }
}

#[test]
fn each_object_is_tested_below_the_nearest_hit_so_far() {
    let log = RefCell::new(Vec::new());
    let mut scene = HitList::new();
    for at in [5.0, 8.0, 2.0, 3.0] {
        scene.add(Probe { at, log: &log });
    }
    let ray = Ray::new(0.0, 1.0);
    let found = scene.hit(&ray, 0.001, 100.0).unwrap();
    assert_eq!(found.t, 2.0);
    assert_eq!(*log.borrow(), vec![(5.0, 100.0), (8.0, 5.0), (2.0, 5.0), (3.0, 2.0)]);
}
