use raytracer::aabb::AABB;
use raytracer::bvh_node::{BVHChild, BVHNode};
use raytracer::camera::{Camera, CameraData};
use raytracer::constant_medium::ConstantMedium;
use raytracer::hittable::{Bounded, HitRecord, Hittable, HittableList};
use raytracer::interval::Interval;
use raytracer::material::{DefaultMaterial, Dielectric, DiffuseLight, Isotropic, Lambertian, Material, Metal};
use raytracer::quad::Quad;
use raytracer::ray::Ray;
use raytracer::rotate::{Rotate, RotateX, RotateY, RotateZ};
use raytracer::scalar::{Arithmetic, Chance, Functions, Scalar};
use raytracer::sphere::Sphere;
use raytracer::texture::SolidTexture;
use raytracer::transform::{CompositeRotation, Rotation, RotationAxis};
use raytracer::vector::{Color, Point3, Vector3};
use std::cell::{Cell, RefCell};
use std::sync::Arc;

struct Fpu;

fn s(x: f64) -> Scalar {
    Scalar::from_bits(x.to_bits())
}

fn f(x: Scalar) -> f64 {
    f64::from_bits(x.to_bits())
}

/// The bits of a result, with the same bits for every NaN.
fn settled(x: f64) -> Scalar {
    if x.is_nan() {
        s(f64::NAN)
    } else {
        s(x)
    }
}

impl Arithmetic for Fpu {
    fn sum(&self, a: Scalar, b: Scalar) -> Scalar {
        self.plus(a, b)
    }

    fn difference(&self, a: Scalar, b: Scalar) -> Scalar {
        self.minus(a, b)
    }

    fn product(&self, a: Scalar, b: Scalar) -> Scalar {
        self.times(a, b)
    }

    fn quotient(&self, a: Scalar, b: Scalar) -> Scalar {
        self.over(a, b)
    }

    fn square_root(&self, a: Scalar) -> Scalar {
        self.root(a)
    }

    fn plus(&self, a: Scalar, b: Scalar) -> Scalar {
        settled(f(a) + f(b))
    }

    fn minus(&self, a: Scalar, b: Scalar) -> Scalar {
        settled(f(a) - f(b))
    }

    fn times(&self, a: Scalar, b: Scalar) -> Scalar {
        settled(f(a) * f(b))
    }

    fn over(&self, a: Scalar, b: Scalar) -> Scalar {
        settled(f(a) / f(b))
    }

    fn root(&self, a: Scalar) -> Scalar {
        settled(f(a).sqrt())
    }
}

impl Functions for Fpu {
    fn powf(&self, base: Scalar, exponent: Scalar) -> Scalar {
        s(f(base).powf(f(exponent)))
    }

    fn ln(&self, x: Scalar) -> Scalar {
        s(f(x).ln())
    }

    fn sin(&self, x: Scalar) -> Scalar {
        s(f(x).sin())
    }

    fn cos(&self, x: Scalar) -> Scalar {
        s(f(x).cos())
    }

    fn tan(&self, x: Scalar) -> Scalar {
        s(f(x).tan())
    }

    fn acos(&self, x: Scalar) -> Scalar {
        s(f(x).acos())
    }

    fn atan2(&self, y: Scalar, x: Scalar) -> Scalar {
        s(f(y).atan2(f(x)))
    }
}

fn v(x: f64, y: f64, z: f64) -> Vector3 {
    Vector3::new(s(x), s(y), s(z))
}

/// The arithmetic of the machine, with random numbers that are the same in every run.
struct Dice {
    state: Cell<u64>,
}

impl Dice {
    fn new(seed: u64) -> Self {
        Dice { state: Cell::new(seed) }
    }

    fn next(&self) -> f64 {
        let x = self.state.get().wrapping_mul(6364136223846793005).wrapping_add(1442695040888963407);
        self.state.set(x);
        ((x >> 11) as f64) / ((1u64 << 53) as f64)
    }
}

impl Arithmetic for Dice {
    fn sum(&self, a: Scalar, b: Scalar) -> Scalar {
        Fpu.plus(a, b)
    }

    fn difference(&self, a: Scalar, b: Scalar) -> Scalar {
        Fpu.minus(a, b)
    }

    fn product(&self, a: Scalar, b: Scalar) -> Scalar {
        Fpu.times(a, b)
    }

    fn quotient(&self, a: Scalar, b: Scalar) -> Scalar {
        Fpu.over(a, b)
    }

    fn square_root(&self, a: Scalar) -> Scalar {
        Fpu.root(a)
    }

    fn plus(&self, a: Scalar, b: Scalar) -> Scalar {
        Fpu.plus(a, b)
    }

    fn minus(&self, a: Scalar, b: Scalar) -> Scalar {
        Fpu.minus(a, b)
    }

    fn times(&self, a: Scalar, b: Scalar) -> Scalar {
        Fpu.times(a, b)
    }

    fn over(&self, a: Scalar, b: Scalar) -> Scalar {
        Fpu.over(a, b)
    }

    fn root(&self, a: Scalar) -> Scalar {
        Fpu.root(a)
    }
}

impl Functions for Dice {
    fn powf(&self, base: Scalar, exponent: Scalar) -> Scalar {
        Fpu.powf(base, exponent)
    }

    fn ln(&self, x: Scalar) -> Scalar {
        Fpu.ln(x)
    }

    fn sin(&self, x: Scalar) -> Scalar {
        Fpu.sin(x)
    }

    fn cos(&self, x: Scalar) -> Scalar {
        Fpu.cos(x)
    }

    fn tan(&self, x: Scalar) -> Scalar {
        Fpu.tan(x)
    }

    fn acos(&self, x: Scalar) -> Scalar {
        Fpu.acos(x)
    }

    fn atan2(&self, y: Scalar, x: Scalar) -> Scalar {
        Fpu.atan2(y, x)
    }
}

impl Chance for Dice {
    fn random_range(&self, min: Scalar, max: Scalar) -> Scalar {
        s(f(min) + (f(max) - f(min)) * self.next())
    }
}

fn fv(a: Vector3) -> (f64, f64, f64) {
    (f(a.x()), f(a.y()), f(a.z()))
}

#[derive(Clone)]
enum Shape {
    Ball(Arc<Sphere>),
    Flat(Arc<Quad>),
}

fn ball(center: (f64, f64, f64), radius: f64, mat: Option<usize>) -> Shape {
    Shape::Ball(Arc::new(Sphere::new(v(center.0, center.1, center.2), s(radius), mat, &Fpu)))
}

fn flat(q: (f64, f64, f64), u: (f64, f64, f64), w: (f64, f64, f64), mat: Option<usize>) -> Shape {
    Shape::Flat(Arc::new(Quad::new(v(q.0, q.1, q.2), v(u.0, u.1, u.2), v(w.0, w.1, w.2), mat, &Fpu)))
}

impl Bounded for Shape {
    fn bbox(&self) -> &AABB {
        match self {
            Shape::Ball(b) => b.bbox(),
            Shape::Flat(q) => q.bbox(),
        }
    }
}

impl<A: Arithmetic + Functions> Hittable<A> for Shape {
    fn hit(&self, ray: &Ray, t: Interval, fpu: &A) -> Option<HitRecord> {
        match self {
            Shape::Ball(b) => b.hit(ray, t, fpu),
            Shape::Flat(q) => q.hit(ray, t, fpu),
        }
    }
}

fn unit_vector(dice: &Dice) -> Vector3 {
    Vector3::random_unit_vector(dice)
}

enum Stuff {
    Light(DiffuseLight<SolidTexture>),
    Matt(Lambertian<SolidTexture>),
    Mirror(Metal),
    Glass(Dielectric),
    Smoke(Isotropic<SolidTexture>),
    Nothing(DefaultMaterial),
}

impl<A: Arithmetic + Functions + Chance> Material<A> for Stuff {
    fn scatter(&self, ray_in: &Ray, rec: &HitRecord, fpu: &A) -> Option<(Color, Ray)> {
        match self {
            Stuff::Light(m) => m.scatter(ray_in, rec, fpu),
            Stuff::Matt(m) => m.scatter(ray_in, rec, fpu),
            Stuff::Mirror(m) => m.scatter(ray_in, rec, fpu),
            Stuff::Glass(m) => m.scatter(ray_in, rec, fpu),
            Stuff::Smoke(m) => m.scatter(ray_in, rec, fpu),
            Stuff::Nothing(m) => m.scatter(ray_in, rec, fpu),
        }
    }

    fn emitted(&self, u: Scalar, w: Scalar, p: &Point3, fpu: &A) -> Color {
        match self {
            Stuff::Light(m) => m.emitted(u, w, p, fpu),
            Stuff::Nothing(m) => Material::<A>::emitted(m, u, w, p, fpu),
            _ => Vector3::zero(),
        }
    }
}

fn everything() -> Interval {
    Interval::new(s(0.001), s(f64::INFINITY))
}

fn list_of(shapes: &[Shape]) -> HittableList<Shape> {
    let mut list = HittableList::new();
    for shape in shapes {
        list.add(Arc::new(shape.clone()));
    }
    list
}

fn five() -> Vec<Shape> {
    vec![
        ball((0.0, 0.0, -3.0), 0.5, Some(0)),
        ball((1.5, 0.2, -4.0), 0.7, Some(1)),
        ball((-1.2, -0.3, -2.5), 0.4, Some(0)),
        flat((-3.0, -1.0, -6.0), (6.0, 0.0, 0.0), (0.0, 3.0, 0.0), Some(1)),
        ball((0.3, 0.9, -2.0), 0.3, Some(0)),
    ]
}

fn two() -> Vec<Shape> {
    vec![ball((0.0, 0.0, -3.0), 0.5, Some(0)), flat((-3.0, -1.0, -6.0), (6.0, 0.0, 0.0), (0.0, 3.0, 0.0), Some(1))]
}

fn lights() -> Vec<Stuff> {
    vec![
        Stuff::Light(DiffuseLight::from_color(v(0.9, 0.1, 0.2))),
        Stuff::Light(DiffuseLight::from_color(v(0.2, 0.7, 4.0))),
    ]
}

fn camera(width: i32, height: i32, samples: i32, depth: i32, background: Color) -> CameraData {
    let viewport_height = 2.0;
    let viewport_width = viewport_height * (width as f64 / height as f64);
    let du = viewport_width / width as f64;
    let dv = -viewport_height / height as f64;
    let upper_left = (-viewport_width / 2.0, viewport_height / 2.0, -1.0);
    CameraData {
        image_width: width,
        image_height: height,
        samples_per_pixel: samples,
        max_depth: depth,
        pixel_samples_scale: s(1.0 / samples as f64),
        center: v(0.0, 0.0, 0.0),
        pixel00_loc: v(upper_left.0 + 0.5 * du, upper_left.1 + 0.5 * dv, upper_left.2),
        pixel_delta_u: v(du, 0.0, 0.0),
        pixel_delta_v: v(0.0, dv, 0.0),
        defocus_angle: s(0.0),
        defocus_disk_u: v(0.0, 0.0, 0.0),
        defocus_disk_v: v(0.0, 0.0, 0.0),
        background,
    }
}

fn render<W: Hittable<Dice>>(cam: &CameraData, world: &W, materials: &Vec<Stuff>) -> Vec<Color> {
    let report = |_done: usize| ();
    cam.render_slice(world, materials, 0, cam.image_height, &report, &Dice::new(11)).0
}

#[test]
fn blank_record() {
    let rec = HitRecord::new();
    assert_eq!(rec.p, v(0.0, 0.0, 0.0));
    assert_eq!(rec.normal, v(0.0, 0.0, 0.0));
    assert_eq!(f(rec.t), 0.0);
    assert!(!rec.front_face);
    assert!(rec.mat.is_none());
}

#[test]
fn face_normal_is_turned_against_the_ray() {
    let ray = Ray::new(v(0.0, 0.0, 0.0), v(0.0, 0.0, -1.0));
    let mut rec = HitRecord::new();
    rec.set_face_normal(&ray, &v(0.0, 0.0, 1.0), &Fpu);
    assert!(rec.front_face);
    assert_eq!(rec.normal, v(0.0, 0.0, 1.0));
    rec.set_face_normal(&ray, &v(0.0, 0.0, -1.0), &Fpu);
    assert!(!rec.front_face);
    assert_eq!(fv(rec.normal), (0.0, 0.0, 1.0));
    assert_eq!(rec.normal, v(-0.0, -0.0, 1.0));
}

#[test]
fn sphere_is_hit_at_its_near_side() {
    let shape = ball((0.0, 0.0, -1.0), 0.5, Some(3));
    let ray = Ray::new(v(0.0, 0.0, 0.0), v(0.0, 0.0, -1.0));
    let rec = shape.hit(&ray, everything(), &Fpu).unwrap();
    assert_eq!(f(rec.t), 0.5);
    assert_eq!(rec.p, v(0.0, 0.0, -0.5));
    assert_eq!(rec.normal, v(0.0, 0.0, 1.0));
    assert!(rec.front_face);
    assert_eq!(rec.mat, Some(3));
    let inside = Ray::new(v(0.0, 0.0, -1.0), v(0.0, 0.0, -1.0));
    let rec = shape.hit(&inside, everything(), &Fpu).unwrap();
    assert_eq!(f(rec.t), 0.5);
    assert!(!rec.front_face);
    let beside = Ray::new(v(2.0, 0.0, 0.0), v(0.0, 0.0, -1.0));
    assert!(shape.hit(&beside, everything(), &Fpu).is_none());
    assert!(shape.hit(&ray, Interval::new(s(0.001), s(0.4)), &Fpu).is_none());
    assert_eq!(f(shape.hit(&ray, Interval::new(s(0.6), s(9.0)), &Fpu).unwrap().t), 1.5);
}

#[test]
fn sphere_root_is_chosen_inside_the_interval() {
    let t = Interval::new(s(1.0), s(2.0));
    assert_eq!(Sphere::choose_root(s(-1.0), s(1.5), s(1.7), &t), None);
    assert_eq!(Sphere::choose_root(s(0.0), s(1.5), s(1.7), &t), Some(s(1.5)));
    assert_eq!(Sphere::choose_root(s(4.0), s(0.5), s(1.7), &t), Some(s(1.7)));
    assert_eq!(Sphere::choose_root(s(4.0), s(1.0), s(2.0), &t), None);
    assert_eq!(Sphere::choose_root(s(4.0), s(0.5), s(2.5), &t), None);
}

#[test]
fn sphere_box() {
    let b = Sphere::new(v(1.0, 2.0, 3.0), s(0.5), None, &Fpu);
    assert_eq!(b.bbox().min(), v(0.5, 1.5, 2.5));
    assert_eq!(b.bbox().max(), v(1.5, 2.5, 3.5));
}

#[test]
fn quad_is_hit_inside_and_missed_outside() {
    let q = Quad::new(v(-1.0, -1.0, -2.0), v(2.0, 0.0, 0.0), v(0.0, 2.0, 0.0), Some(1), &Fpu);
    let ray = Ray::new(v(0.5, -0.5, 0.0), v(0.0, 0.0, -1.0));
    let rec = q.hit(&ray, everything(), &Fpu).unwrap();
    assert_eq!(f(rec.t), 2.0);
    assert_eq!(rec.p, v(0.5, -0.5, -2.0));
    assert_eq!(f(rec.u), 0.75);
    assert_eq!(f(rec.v), 0.25);
    assert!(rec.front_face);
    assert_eq!(rec.normal, v(0.0, 0.0, 1.0));
    assert_eq!(rec.mat, Some(1));
    let outside = Ray::new(v(1.5, 0.0, 0.0), v(0.0, 0.0, -1.0));
    assert!(q.hit(&outside, everything(), &Fpu).is_none());
    let along = Ray::new(v(0.0, 0.0, 0.0), v(1.0, 0.0, 0.0));
    assert!(q.hit(&along, everything(), &Fpu).is_none());
    assert!(q.hit(&ray, Interval::new(s(0.001), s(1.9)), &Fpu).is_none());
    assert!(q.hit(&ray, Interval::new(s(0.001), s(2.0)), &Fpu).is_some());
    let edge = Ray::new(v(1.0, 1.0, 0.0), v(0.0, 0.0, -1.0));
    assert!(q.hit(&edge, everything(), &Fpu).is_some());
}

#[test]
fn quad_box_has_thickness() {
    let q = Quad::new(v(-1.0, -1.0, -2.0), v(2.0, 0.0, 0.0), v(0.0, 2.0, 0.0), None, &Fpu);
    let b = q.bbox();
    assert_eq!(f(b.x.min), -1.0);
    assert_eq!(f(b.x.max), 1.0);
    assert_eq!(f(b.y.min), -1.0);
    assert_eq!(f(b.y.max), 1.0);
    assert_eq!(f(b.z.min), -2.0 - 0.00005);
    assert_eq!(f(b.z.max), -2.0 + 0.00005);
    assert!(Quad::is_interior(s(0.0), s(1.0)));
    assert!(!Quad::is_interior(s(-0.1), s(0.5)));
    assert!(!Quad::is_interior(s(0.5), s(1.1)));
}

#[test]
fn list_grows_its_box_and_is_cleared() {
    let mut list: HittableList<Shape> = HittableList::new();
    assert_eq!(*list.bbox(), AABB::new_empty());
    list.add(Arc::new(ball((0.0, 0.0, -1.0), 0.5, None)));
    list.add(Arc::new(ball((2.0, 0.0, -1.0), 1.0, None)));
    assert_eq!(list.objects.len(), 2);
    assert_eq!(list.bbox().min(), v(-0.5, -1.0, -2.0));
    assert_eq!(list.bbox().max(), v(3.0, 1.0, 0.0));
    list.clear();
    assert_eq!(list.objects.len(), 0);
    assert_eq!(list.bbox().max(), v(3.0, 1.0, 0.0));
}

#[test]
fn list_scan_returns_the_nearest_hit() {
    let list = list_of(&[
        ball((0.0, 0.0, -5.0), 0.5, Some(0)),
        ball((0.0, 0.0, -2.0), 0.5, Some(1)),
        ball((0.0, 0.0, -8.0), 0.5, Some(2)),
    ]);
    let ray = Ray::new(v(0.0, 0.0, 0.0), v(0.0, 0.0, -1.0));
    let rec = list.hit(&ray, everything(), &Fpu).unwrap();
    assert_eq!(f(rec.t), 1.5);
    assert_eq!(rec.mat, Some(1));
    let rec = list.hit(&ray, Interval::new(s(3.0), s(100.0)), &Fpu).unwrap();
    assert_eq!(f(rec.t), 4.5);
    assert!(list.hit(&ray, Interval::new(s(0.001), s(1.0)), &Fpu).is_none());
    let empty: HittableList<Shape> = HittableList::new();
    assert!(empty.hit(&ray, everything(), &Fpu).is_none());
}

#[test]
fn tree_of_one_has_it_twice() {
    let list = list_of(&[ball((0.0, 0.0, -2.0), 0.5, Some(7))]);
    let tree = BVHNode::new(&list, &Fpu);
    assert!(matches!(&tree.left, BVHChild::Object(o) if Arc::ptr_eq(o, &list.objects[0])));
    assert!(matches!(&tree.right, BVHChild::Object(o) if Arc::ptr_eq(o, &list.objects[0])));
    assert_eq!(*tree.bbox(), *list.objects[0].bbox());
    let ray = Ray::new(v(0.0, 0.0, 0.0), v(0.0, 0.0, -1.0));
    let rec = tree.hit(&ray, everything(), &Fpu).unwrap();
    assert_eq!(f(rec.t), 1.5);
    assert_eq!(rec.mat, Some(7));
}

#[test]
fn tree_of_two_takes_them_as_they_come() {
    let list = list_of(&[ball((3.0, 0.0, -2.0), 0.5, Some(0)), ball((-3.0, 0.0, -2.0), 0.5, Some(1))]);
    let tree = BVHNode::new(&list, &Fpu);
    assert!(matches!(&tree.left, BVHChild::Object(o) if Arc::ptr_eq(o, &list.objects[0])));
    assert!(matches!(&tree.right, BVHChild::Object(o) if Arc::ptr_eq(o, &list.objects[1])));
    assert_eq!(tree.bbox().min(), v(-3.5, -0.5, -2.5));
    assert_eq!(tree.bbox().max(), v(3.5, 0.5, -1.5));
}

#[test]
fn tree_splits_along_the_longest_axis() {
    let list = list_of(&[
        ball((5.0, 0.0, -2.0), 0.5, Some(0)),
        ball((1.0, 0.0, -2.0), 0.5, Some(1)),
        ball((3.0, 0.0, -2.0), 0.5, Some(2)),
    ]);
    let tree = BVHNode::new(&list, &Fpu);
    let left = match &tree.left {
        BVHChild::Node(n) => n,
        BVHChild::Object(_) => panic!("a tree of three has two subtrees"),
    };
    let right = match &tree.right {
        BVHChild::Node(n) => n,
        BVHChild::Object(_) => panic!("a tree of three has two subtrees"),
    };
    assert!(matches!(&left.left, BVHChild::Object(o) if Arc::ptr_eq(o, &list.objects[1])));
    assert!(matches!(&left.right, BVHChild::Object(o) if Arc::ptr_eq(o, &list.objects[1])));
    assert!(matches!(&right.left, BVHChild::Object(o) if Arc::ptr_eq(o, &list.objects[2])));
    assert!(matches!(&right.right, BVHChild::Object(o) if Arc::ptr_eq(o, &list.objects[0])));
    assert_eq!(left.bbox().max(), v(1.5, 0.5, -1.5));
    assert_eq!(right.bbox().min(), v(2.5, -0.5, -2.5));
    assert_eq!(tree.bbox().min(), v(0.5, -0.5, -2.5));
    assert_eq!(tree.bbox().max(), v(5.5, 0.5, -1.5));
    let sub = BVHNode::new_from_objects(&list.objects, 1, 3, &Fpu);
    assert!(matches!(&sub.left, BVHChild::Object(o) if Arc::ptr_eq(o, &list.objects[1])));
    assert!(matches!(&sub.right, BVHChild::Object(o) if Arc::ptr_eq(o, &list.objects[2])));
}

#[test]
fn tree_keeps_the_order_of_equal_boxes() {
    let list = list_of(&[
        ball((0.0, 0.0, -2.0), 0.5, Some(0)),
        ball((0.0, 0.0, -2.0), 0.5, Some(1)),
        ball((0.0, 0.0, -2.0), 0.5, Some(2)),
    ]);
    let tree = BVHNode::new(&list, &Fpu);
    let left = match &tree.left {
        BVHChild::Node(n) => n,
        BVHChild::Object(_) => panic!("a tree of three has two subtrees"),
    };
    let right = match &tree.right {
        BVHChild::Node(n) => n,
        BVHChild::Object(_) => panic!("a tree of three has two subtrees"),
    };
    assert!(matches!(&left.left, BVHChild::Object(o) if Arc::ptr_eq(o, &list.objects[0])));
    assert!(matches!(&right.left, BVHChild::Object(o) if Arc::ptr_eq(o, &list.objects[1])));
    assert!(matches!(&right.right, BVHChild::Object(o) if Arc::ptr_eq(o, &list.objects[2])));
}

fn box_of(child: &BVHChild<Shape>) -> AABB {
    match child {
        BVHChild::Object(o) => *o.bbox(),
        BVHChild::Node(n) => *n.bbox(),
    }
}

fn nodes_joined(node: &BVHNode<Shape>) -> usize {
    let both = AABB::new_from_aabbs(&box_of(&node.left), &box_of(&node.right));
    assert_eq!(fv(node.bbox().min()), fv(both.min()));
    assert_eq!(fv(node.bbox().max()), fv(both.max()));
    let mut nodes = 1;
    if let BVHChild::Node(n) = &node.left {
        nodes += nodes_joined(n);
    }
    if let BVHChild::Node(n) = &node.right {
        nodes += nodes_joined(n);
    }
    nodes
}

#[test]
fn every_box_of_a_tree_is_the_union_of_the_two_below() {
    let mut shapes = five();
    shapes.push(flat((-0.0, -0.0, -0.0), (1.0, 0.0, 0.0), (0.0, 1.0, 0.0), None));
    shapes.push(ball((0.5, 0.5, 0.5), 0.5, None));
    shapes.push(ball((-2.0, 3.0, -7.0), 1.25, None));
    for n in 1..=shapes.len() {
        let list = list_of(&shapes[..n]);
        let tree = BVHNode::new(&list, &Fpu);
        let nodes = nodes_joined(&tree);
        assert!(nodes >= 1 && nodes < 2 * n);
        assert_eq!(fv(tree.bbox().min()), fv(list.bbox().min()));
        assert_eq!(fv(tree.bbox().max()), fv(list.bbox().max()));
    }
    let list = list_of(&shapes[..3]);
    let tree = BVHNode::new(&list, &Fpu);
    assert_eq!(nodes_joined(&tree), 3);
}

#[test]
fn tree_and_list_find_the_same_hits() {
    let shapes = five();
    let list = list_of(&shapes);
    let tree = BVHNode::new(&list, &Fpu);
    let dice = Dice::new(7);
    let mut hits = 0;
    for _ in 0..2000 {
        let origin = v(4.0 * dice.next() - 2.0, 4.0 * dice.next() - 2.0, 1.0);
        let direction = v(2.0 * dice.next() - 1.0, 2.0 * dice.next() - 1.0, -1.0 - dice.next());
        let ray = Ray::new(origin, direction);
        let a = list.hit(&ray, everything(), &Fpu);
        let b = tree.hit(&ray, everything(), &Fpu);
        match (a, b) {
            (Some(x), Some(y)) => {
                hits += 1;
                assert_eq!(f(x.t), f(y.t));
                assert_eq!(x.mat, y.mat);
                assert_eq!(x.p, y.p);
            }
            (None, None) => {}
            _ => panic!("the tree and the list disagree on whether the ray hits"),
        }
    }
    assert!(hits > 100);
}

#[test]
fn a_shorter_search_finds_the_same_hit_or_none() {
    let shapes = five();
    let dice = Dice::new(11);
    let mut hits = 0;
    for _ in 0..500 {
        let origin = v(4.0 * dice.next() - 2.0, 4.0 * dice.next() - 2.0, 1.0);
        let direction = v(2.0 * dice.next() - 1.0, 2.0 * dice.next() - 1.0, -1.0 - dice.next());
        let ray = Ray::new(origin, direction);
        for shape in &shapes {
            let far = match shape.hit(&ray, everything(), &Fpu) {
                Some(rec) => rec,
                None => {
                    assert!(shape.hit(&ray, Interval::new(s(0.001), s(50.0)), &Fpu).is_none());
                    continue;
                }
            };
            hits += 1;
            assert!(0.001 < f(far.t));
            let beyond = shape.hit(&ray, Interval::new(s(0.001), s(f(far.t) + 0.25)), &Fpu).unwrap();
            assert_eq!(f(beyond.t), f(far.t));
            assert_eq!(beyond.p, far.p);
            assert_eq!(beyond.normal, far.normal);
            assert_eq!(beyond.mat, far.mat);
            match (shape, shape.hit(&ray, Interval::new(s(0.001), far.t), &Fpu)) {
                (Shape::Ball(_), at_the_end) => assert!(at_the_end.is_none()),
                (Shape::Flat(_), at_the_end) => assert_eq!(at_the_end.map(|rec| rec.p), Some(far.p)),
            }
            assert!(shape.hit(&ray, Interval::new(s(0.001), s(f(far.t) * 0.5)), &Fpu).is_none());
        }
    }
    assert!(hits > 100);
}

#[test]
fn tree_shrinks_the_search_after_the_left_hit() {
    let list = list_of(&[ball((0.0, 0.0, -2.0), 0.5, Some(0)), ball((0.0, 0.0, -5.0), 0.5, Some(1))]);
    let tree = BVHNode::new(&list, &Fpu);
    let ray = Ray::new(v(0.0, 0.0, 0.0), v(0.0, 0.0, -1.0));
    assert_eq!(tree.traverse(&ray, everything(), &Fpu).unwrap().mat, Some(0));
    let back = list_of(&[ball((0.0, 0.0, -5.0), 0.5, Some(1)), ball((0.0, 0.0, -2.0), 0.5, Some(0))]);
    let tree = BVHNode::new(&back, &Fpu);
    assert_eq!(tree.traverse(&ray, everything(), &Fpu).unwrap().mat, Some(0));
    let off = Ray::new(v(9.0, 0.0, 0.0), v(0.0, 0.0, -1.0));
    assert!(tree.traverse(&off, everything(), &Fpu).is_none());
}

#[test]
fn no_depth_no_light() {
    let list = list_of(&five());
    let cam = camera(4, 4, 1, 5, v(0.7, 0.8, 1.0));
    let ray = Ray::new(v(0.0, 0.0, 0.0), v(0.0, 0.0, -1.0));
    let dice = Dice::new(1);
    assert_eq!(cam.color(&ray, &list, &lights(), 0, &dice), v(0.0, 0.0, 0.0));
    assert_eq!(cam.color(&ray, &list, &lights(), -3, &dice), v(0.0, 0.0, 0.0));
    let empty: HittableList<Shape> = HittableList::new();
    assert_eq!(cam.color(&ray, &empty, &lights(), 0, &dice), v(0.0, 0.0, 0.0));
}

#[test]
fn a_miss_brings_the_background() {
    let list = list_of(&five());
    let cam = camera(4, 4, 1, 5, v(0.7, 0.8, 1.0));
    let ray = Ray::new(v(0.0, 0.0, 0.0), v(0.0, 0.0, 1.0));
    let dice = Dice::new(1);
    assert_eq!(cam.color(&ray, &list, &lights(), 5, &dice), v(0.7, 0.8, 1.0));
    assert_eq!(cam.color(&ray, &list, &lights(), 1, &dice), v(0.7, 0.8, 1.0));
}

#[test]
fn a_light_brings_its_colour_only() {
    let list = list_of(&five());
    let cam = camera(4, 4, 1, 5, v(0.7, 0.8, 1.0));
    let ray = Ray::new(v(0.0, 0.0, 0.0), v(0.0, 0.0, -1.0));
    assert_eq!(cam.color(&ray, &list, &lights(), 5, &Dice::new(1)), v(0.9, 0.1, 0.2));
}

#[test]
fn a_hit_without_a_material_is_black() {
    let list = list_of(&[ball((0.0, 0.0, -2.0), 0.5, None), ball((3.0, 0.0, -2.0), 0.5, Some(9))]);
    let cam = camera(4, 4, 1, 5, v(0.7, 0.8, 1.0));
    let ray = Ray::new(v(0.0, 0.0, 0.0), v(0.0, 0.0, -1.0));
    let dice = Dice::new(1);
    assert_eq!(cam.color(&ray, &list, &lights(), 5, &dice), v(0.0, 0.0, 0.0));
    let other = Ray::new(v(3.0, 0.0, 0.0), v(0.0, 0.0, -1.0));
    assert_eq!(cam.color(&other, &list, &lights(), 5, &dice), v(0.0, 0.0, 0.0));
    let nothing = vec![Stuff::Nothing(DefaultMaterial::new())];
    let list = list_of(&[ball((0.0, 0.0, -2.0), 0.5, Some(0))]);
    assert_eq!(cam.color(&ray, &list, &nothing, 5, &dice), v(0.0, 0.0, 0.0));
}

#[test]
fn scattered_light_is_attenuated_and_added() {
    let materials = vec![Stuff::Mirror(Metal::new(v(0.5, 0.25, 1.0), s(0.0)))];
    let dice = Dice::new(1);
    let world = list_of(&[flat((-1.0, -1.0, -2.0), (2.0, 0.0, 0.0), (0.0, 2.0, 0.0), Some(0))]);
    let cam = camera(4, 4, 1, 5, v(0.8, 0.4, 0.2));
    let ray = Ray::new(v(0.0, 0.0, 0.0), v(0.0, 0.0, -1.0));
    assert_eq!(cam.color(&ray, &world, &materials, 5, &dice), v(0.0 + 0.5 * 0.8, 0.0 + 0.25 * 0.4, 0.0 + 1.0 * 0.2));
    assert_eq!(cam.color(&ray, &world, &materials, 1, &dice), v(0.0, 0.0, 0.0));
}

#[test]
fn centre_of_a_matt_sphere_is_black_at_depth_one() {
    let world = list_of(&[ball((0.0, 0.0, -1.0), 0.5, Some(0))]);
    let materials = vec![Stuff::Matt(Lambertian::new(v(0.5, 0.5, 0.5)))];
    let cam = camera(5, 5, 1, 1, v(1.0, 1.0, 1.0));
    let pixels = render(&cam, &world, &materials);
    assert_eq!(pixels.len(), 25);
    let centre = pixels[2 * 5 + 2];
    assert_eq!(centre, v(0.0, 0.0, 0.0));
    assert_eq!(centre.to_rgb(&Fpu), [0, 0, 0]);
    let corner = pixels[0];
    assert_eq!(corner, v(1.0, 1.0, 1.0));
}

#[test]
fn an_empty_scene_is_all_background() {
    let world: HittableList<Shape> = HittableList::new();
    let materials: Vec<Stuff> = Vec::new();
    let background = v(0.7, 0.8, 1.0);
    let cam = camera(6, 4, 1, 5, background);
    let pixels = render(&cam, &world, &materials);
    assert_eq!(pixels.len(), 24);
    for p in pixels.iter() {
        assert_eq!(*p, background);
    }
    let file = raytracer::color::encode_ppm(6, 4, &pixels, &Fpu);
    let text = String::from_utf8(file).unwrap();
    let r = (256.0 * 0.7f64.sqrt()) as i32;
    let g = (256.0 * 0.8f64.sqrt()) as i32;
    let b = (256.0 * 0.999f64) as i32;
    let mut expected = String::from("P3\n6 4\n255\n");
    for _ in 0..24 {
        expected.push_str(&format!("{} {} {}\n", r, g, b));
    }
    assert_eq!(text, expected);
    let many = camera(3, 2, 4, 5, background);
    for p in render(&many, &world, &materials).iter() {
        assert_eq!(fv(*p), (0.25 * (0.7 * 4.0), 0.25 * (0.8 * 4.0), 0.25 * 4.0));
    }
}

#[test]
fn tree_and_list_render_the_same_image() {
    for shapes in [two(), five()] {
        let list = list_of(&shapes);
        let tree = BVHNode::new(&list, &Fpu);
        let cam = camera(40, 30, 1, 5, v(0.1, 0.2, 0.3));
        let from_list = render(&cam, &list, &lights());
        let from_tree = render(&cam, &tree, &lights());
        assert_eq!(from_list.len(), 1200);
        assert_eq!(from_list, from_tree);
        assert!(from_list.iter().any(|c| *c == v(0.9, 0.1, 0.2)));
        assert!(from_list.iter().any(|c| *c == v(0.2, 0.7, 4.0)));
        assert!(from_list.iter().any(|c| *c == v(0.1, 0.2, 0.3)));
        assert_eq!(
            raytracer::color::encode_ppm(40, 30, &from_list, &Fpu),
            raytracer::color::encode_ppm(40, 30, &from_tree, &Fpu)
        );
    }
    let list = list_of(&five());
    let tree = BVHNode::new(&list, &Fpu);
    let nested = {
        let mut outer: HittableList<BVHNode<Shape>> = HittableList::new();
        outer.add(Arc::new(tree));
        outer
    };
    let cam = camera(20, 20, 1, 5, v(0.1, 0.2, 0.3));
    assert_eq!(render(&cam, &list, &lights()), render(&cam, &nested, &lights()));
}

#[test]
fn slices_are_rendered_row_by_row_and_reported() {
    let world = list_of(&five());
    let cam = camera(7, 5, 1, 5, v(0.1, 0.2, 0.3));
    let whole = render(&cam, &world, &lights());
    let reports = RefCell::new(Vec::new());
    let report = |done: usize| reports.borrow_mut().push(done);
    let dice = Dice::new(11);
    for _ in 0..14 {
        dice.next();
    }
    let (part, told) = cam.render_slice(&world, &lights(), 1, 4, &report, &dice);
    assert_eq!(part.len(), 21);
    assert_eq!(told, 21);
    assert_eq!(part[..], whole[7..28]);
    assert_eq!(*reports.borrow(), vec![10, 20, 21]);
    let (nothing, told) = cam.render_slice(&world, &lights(), 2, 2, &report, &dice);
    assert!(nothing.is_empty());
    assert_eq!(told, 0);
    assert_eq!(*reports.borrow(), vec![10, 20, 21, 0]);
}

#[test]
fn pixel_is_the_mean_of_its_samples() {
    let world = list_of(&[flat((-0.001, -100.0, -2.0), (100.0, 0.0, 0.0), (0.0, 200.0, 0.0), Some(0))]);
    let cam = camera(3, 3, 64, 5, v(0.1, 0.2, 0.3));
    let c = cam.sample_pixel(&world, &lights(), 1, 1, &Dice::new(5));
    let replay = Dice::new(5);
    let mut sum = (0.0, 0.0, 0.0);
    let mut lit = 0;
    for _ in 0..64 {
        let ray = cam.get_ray(s(1.0), s(1.0), &replay);
        if f(ray.get_direction().x()) > -0.0005 {
            sum = (sum.0 + 0.9, sum.1 + 0.1, sum.2 + 0.2);
            lit += 1;
        } else {
            sum = (sum.0 + 0.1, sum.1 + 0.2, sum.2 + 0.3);
        }
    }
    assert!(lit > 8 && lit < 56);
    let scale = 1.0 / 64.0;
    assert_eq!(fv(c), (scale * sum.0, scale * sum.1, scale * sum.2));
}

#[test]
fn rays_go_through_their_pixels() {
    let cam = camera(4, 2, 1, 5, v(0.0, 0.0, 0.0));
    let r = cam.get_ray_with(s(0.0), s(0.0), &v(0.0, 0.0, 0.0), &v(0.3, 0.3, 0.0), &Fpu);
    assert_eq!(r.get_origin(), v(0.0, 0.0, 0.0));
    assert_eq!(r.get_direction(), v(-2.0 + 0.5, 1.0 - 0.5, -1.0));
    let r = cam.get_ray_with(s(3.0), s(1.0), &v(0.25, -0.25, 0.0), &v(0.0, 0.0, 0.0), &Fpu);
    assert_eq!(fv(r.get_direction()), (-1.5 + 3.25 * 1.0, 0.5 + 0.75 * -1.0, -1.0));
    let mut blurred = cam;
    blurred.defocus_angle = s(1.0);
    blurred.defocus_disk_u = v(0.5, 0.0, 0.0);
    blurred.defocus_disk_v = v(0.0, 0.25, 0.0);
    let r = blurred.get_ray_with(s(0.0), s(0.0), &v(0.0, 0.0, 0.0), &v(1.0, -1.0, 0.0), &Fpu);
    assert_eq!(r.get_origin(), v(0.5, -0.25, 0.0));
    assert_eq!(r.get_direction(), v(-1.5 - 0.5, 0.5 + 0.25, -1.0));
    assert_eq!(blurred.defocus_disk_sample_with(&v(1.0, -1.0, 0.0), &Fpu), v(0.5, -0.25, 0.0));

    let dice = Dice::new(3);
    for _ in 0..200 {
        let r = cam.get_ray(s(2.0), s(1.0), &dice);
        assert_eq!(r.get_origin(), v(0.0, 0.0, 0.0));
        let d = fv(r.get_direction());
        assert!(d.0 >= 0.0 && d.0 < 1.0 && d.1 > -1.0 && d.1 <= 0.0 && d.2 == -1.0);
        let r = blurred.get_ray(s(2.0), s(1.0), &dice);
        let o = fv(r.get_origin());
        assert!((o.0 / 0.5) * (o.0 / 0.5) + (o.1 / 0.25) * (o.1 / 0.25) < 1.0 && o.2 == 0.0);
        let p = fv(blurred.defocus_disk_sample(&dice));
        assert!((p.0 / 0.5) * (p.0 / 0.5) + (p.1 / 0.25) * (p.1 / 0.25) < 1.0 && p.2 == 0.0);
        let offset = fv(CameraData::sample_square(&dice));
        assert!(offset.0 >= -0.5 && offset.0 < 0.5 && offset.1 >= -0.5 && offset.1 < 0.5 && offset.2 == 0.0);
    }
    let replay = Dice::new(9);
    let first = replay.next();
    let second = replay.next();
    assert_eq!(CameraData::sample_square(&Dice::new(9)), v(first - 0.5, second - 0.5, 0.0));
}

#[test]
fn matt_surface_scatters_about_its_normal() {
    let m = Lambertian::new(v(0.1, 0.2, 0.3));
    let mut rec = HitRecord::new();
    rec.p = v(1.0, 2.0, 3.0);
    rec.normal = v(0.0, 1.0, 0.0);
    let (attenuation, scattered) = m.scatter_with(&rec, &v(0.6, 0.0, 0.8), &Fpu);
    assert_eq!(attenuation, v(0.1, 0.2, 0.3));
    assert_eq!(scattered.get_origin(), v(1.0, 2.0, 3.0));
    assert_eq!(scattered.get_direction(), v(0.6, 1.0, 0.8));
    let (_, scattered) = m.scatter_with(&rec, &v(0.0, -1.0, 0.0), &Fpu);
    assert_eq!(scattered.get_direction(), v(0.0, 1.0, 0.0));
    let textured = Lambertian::new_texture(SolidTexture::new(v(0.4, 0.5, 0.6)));
    assert_eq!(textured.scatter_with(&rec, &v(1.0, 0.0, 0.0), &Fpu).0, v(0.4, 0.5, 0.6));
}

#[test]
fn mirror_reflects_and_absorbs_what_goes_inwards() {
    let m = Metal::new(v(0.8, 0.6, 0.2), s(0.0));
    let mut rec = HitRecord::new();
    rec.p = v(0.0, 0.0, 0.0);
    rec.normal = v(0.0, 1.0, 0.0);
    let ray = Ray::new(v(-3.0, 4.0, 0.0), v(3.0, -4.0, 0.0));
    let (attenuation, scattered) = m.scatter_with(&ray, &rec, &v(0.0, 0.0, 1.0), &Fpu).unwrap();
    assert_eq!(attenuation, v(0.8, 0.6, 0.2));
    assert_eq!(scattered.get_direction(), v(3.0 * (1.0 / 5.0), 4.0 * (1.0 / 5.0), 0.0));
    let rough = Metal::new(v(0.8, 0.6, 0.2), s(2.0));
    assert!(rough.scatter_with(&ray, &rec, &v(0.0, -1.0, 0.0), &Fpu).is_none());
    let (_, scattered) = rough.scatter_with(&ray, &rec, &v(0.0, 1.0, 0.0), &Fpu).unwrap();
    assert_eq!(scattered.get_direction(), v(3.0 * (1.0 / 5.0), 4.0 * (1.0 / 5.0) + 2.0, 0.0));
}

#[test]
fn glass_of_index_one_refracts_without_bending() {
    let m = Dielectric::new(s(1.0));
    let dice = Dice::new(3);
    for _ in 0..200 {
        let incoming = (2.0 * dice.next() - 1.0, -0.1 - dice.next(), 2.0 * dice.next() - 1.0);
        let ray = Ray::new(v(0.0, 1.0, 0.0), v(incoming.0, incoming.1, incoming.2));
        let mut rec = HitRecord::new();
        rec.p = v(0.0, 0.0, 0.0);
        rec.normal = v(0.0, 1.0, 0.0);
        rec.front_face = true;
        let (attenuation, scattered) = m.scatter_with(&ray, &rec, s(1.0), &Fpu);
        assert_eq!(attenuation, v(1.0, 1.0, 1.0));
        assert_eq!(scattered.get_origin(), v(0.0, 0.0, 0.0));
        let l = (incoming.0 * incoming.0 + incoming.1 * incoming.1 + incoming.2 * incoming.2).sqrt();
        let d = fv(scattered.get_direction());
        assert!((d.0 - incoming.0 / l).abs() < 1e-9);
        assert!((d.1 - incoming.1 / l).abs() < 1e-9);
        assert!((d.2 - incoming.2 / l).abs() < 1e-9);
    }
}

#[test]
fn glass_of_index_one_still_mirrors_on_a_low_draw() {
    let m = Dielectric::new(s(1.0));
    let mut rec = HitRecord::new();
    rec.p = v(0.0, 0.0, 0.0);
    rec.normal = v(0.0, 1.0, 0.0);
    rec.front_face = true;
    let grazing = Ray::new(v(-1.0, 0.01, 0.0), v(1.0, -0.01, 0.0));
    let l = 1.0001f64.sqrt();
    let share = (1.0 - 0.01 / l).powi(5);
    assert!(0.95 < share && share < 0.952);
    let (attenuation, back) = m.scatter_with(&grazing, &rec, s(0.5), &Fpu);
    assert_eq!(attenuation, v(1.0, 1.0, 1.0));
    let d = fv(back.get_direction());
    assert!((d.0 - 1.0 / l).abs() < 1e-12);
    assert!((d.1 - 0.01 / l).abs() < 1e-12);
    assert_eq!(d.2, 0.0);
    let (_, on) = m.scatter_with(&grazing, &rec, s(0.96), &Fpu);
    let d = fv(on.get_direction());
    assert!((d.0 - 1.0 / l).abs() < 1e-9);
    assert!((d.1 + 0.01 / l).abs() < 1e-9);
    let steep = Ray::new(v(0.0, 1.0, 0.0), v(0.0, -1.0, 0.0));
    let (_, through) = m.scatter_with(&steep, &rec, s(0.0), &Fpu);
    assert_eq!(through.get_direction(), v(0.0, -1.0, 0.0));
}

#[test]
fn glass_reflects_what_cannot_pass() {
    let m = Dielectric::new(s(1.5));
    let mut rec = HitRecord::new();
    rec.p = v(0.0, 0.0, 0.0);
    rec.normal = v(0.0, 1.0, 0.0);
    rec.front_face = false;
    let ray = Ray::new(v(-1.0, 0.1, 0.0), v(1.0, -0.1, 0.0));
    let (_, scattered) = m.scatter_with(&ray, &rec, s(1.0), &Fpu);
    let d = fv(scattered.get_direction());
    assert!(d.1 > 0.0);
    assert!((d.0 - 1.0 / 1.01f64.sqrt()).abs() < 1e-12);
    let steep = Ray::new(v(0.0, 1.0, 0.0), v(0.0, -1.0, 0.0));
    rec.front_face = true;
    let (_, through) = m.scatter_with(&steep, &rec, s(1.0), &Fpu);
    assert_eq!(through.get_direction(), v(0.0, -1.0, 0.0));
    let (_, back) = m.scatter_with(&steep, &rec, s(0.0), &Fpu);
    assert_eq!(fv(back.get_direction()), (0.0, 1.0, 0.0));
}

#[test]
fn lights_and_the_default_material_absorb() {
    let light = DiffuseLight::new(SolidTexture::new(v(4.0, 4.0, 4.0)));
    let rec = HitRecord::new();
    let ray = Ray::new(v(0.0, 0.0, 0.0), v(0.0, 0.0, -1.0));
    assert!(light.scatter(&ray, &rec, &Fpu).is_none());
    assert_eq!(light.emitted(s(0.0), s(0.0), &v(0.0, 0.0, 0.0), &Fpu), v(4.0, 4.0, 4.0));
    assert_eq!(
        DiffuseLight::from_color(v(1.0, 2.0, 3.0)).emitted(s(0.5), s(0.5), &v(1.0, 1.0, 1.0), &Fpu),
        v(1.0, 2.0, 3.0)
    );
    let nothing = DefaultMaterial::new();
    assert!(nothing.scatter(&ray, &rec, &Fpu).is_none());
    assert_eq!(nothing.emitted(s(0.0), s(0.0), &v(0.0, 0.0, 0.0), &Fpu), v(0.0, 0.0, 0.0));
}

#[test]
fn medium_scatters_into_any_direction() {
    let m = Isotropic::from_color(v(0.3, 0.3, 0.3));
    let mut rec = HitRecord::new();
    rec.p = v(1.0, 1.0, 1.0);
    let (attenuation, scattered) = m.scatter_with(&rec, &v(0.0, 0.6, 0.8), &Fpu);
    assert_eq!(attenuation, v(0.3, 0.3, 0.3));
    assert_eq!(scattered.get_origin(), v(1.0, 1.0, 1.0));
    assert_eq!(scattered.get_direction(), v(0.0, 0.6, 0.8));
    let textured = Isotropic::new(SolidTexture::new(v(0.1, 0.1, 0.9)));
    assert_eq!(textured.scatter_with(&rec, &v(1.0, 0.0, 0.0), &Fpu).0, v(0.1, 0.1, 0.9));
}

#[test]
fn smoke_scatters_inside_its_boundary_or_lets_the_ray_pass() {
    let boundary = ball((0.0, 0.0, -3.0), 1.0, None);
    let smoke = ConstantMedium::new(boundary, s(2.0), Some(4), &Fpu);
    assert_eq!(f(smoke.neg_inv_density), -0.5);
    let ray = Ray::new(v(0.0, 0.0, 0.0), v(0.0, 0.0, -2.0));
    let draw: f64 = 0.5;
    let rec = smoke.hit_with(&ray, everything(), s(draw.ln()), &Fpu).unwrap();
    let reach = -0.5 * draw.ln();
    assert_eq!(f(rec.t), 1.0 + reach / 2.0);
    assert_eq!(rec.p, ray.at(rec.t, &Fpu));
    assert_eq!(rec.normal, v(1.0, 0.0, 0.0));
    assert!(rec.front_face);
    assert_eq!(rec.mat, Some(4));
    let thin: f64 = 1e-9;
    assert!(smoke.hit_with(&ray, everything(), s(thin.ln()), &Fpu).is_none());
    let beside = Ray::new(v(5.0, 0.0, 0.0), v(0.0, 0.0, -2.0));
    assert!(smoke.hit_with(&beside, everything(), s(draw.ln()), &Fpu).is_none());
    assert!(smoke.hit_with(&ray, Interval::new(s(0.001), s(0.9)), s(draw.ln()), &Fpu).is_none());
    let inside = Ray::new(v(0.0, 0.0, -3.0), v(0.0, 0.0, -1.0));
    let rec = smoke.hit_with(&inside, everything(), s(draw.ln()), &Fpu).unwrap();
    assert_eq!(f(rec.t), 0.001 + reach);
    assert_eq!(*smoke.bbox(), *Sphere::new(v(0.0, 0.0, -3.0), s(1.0), None, &Fpu).bbox());

    let dice = Dice::new(21);
    let replay = Dice::new(21);
    let (mut scattered, mut passed) = (0, 0);
    for _ in 0..500 {
        match smoke.hit(&ray, everything(), &dice) {
            Some(rec) => {
                scattered += 1;
                let reach = -0.5 * replay.next().ln();
                assert_eq!(f(rec.t), 1.0 + reach / 2.0);
                assert!(f(rec.t) <= 2.0);
            }
            None => {
                passed += 1;
                assert!(-0.5 * replay.next().ln() > 2.0);
            }
        }
    }
    assert!(scattered > 400 && passed > 0);
    let before = dice.next();
    assert!(smoke.hit(&beside, everything(), &dice).is_none());
    assert!(smoke.hit(&ray, Interval::new(s(0.001), s(0.9)), &dice).is_none());
    assert_eq!(before, replay.next());
    assert_eq!(dice.next(), replay.next());
}

#[test]
fn smoke_between_given_ends() {
    let smoke = ConstantMedium::new(ball((0.0, 0.0, 0.0), 1.0, None), s(1.0), None, &Fpu);
    let ray = Ray::new(v(0.0, 0.0, 0.0), v(3.0, 4.0, 0.0));
    let t = Interval::new(s(1.0), s(10.0));
    let rec = smoke.scatter_between(&ray, t, s(-2.0), s(4.0), s(-5.0), &Fpu).unwrap();
    assert_eq!(f(rec.t), 1.0 + 5.0 / 5.0);
    let rec = smoke.scatter_between(&ray, Interval::new(s(-9.0), s(10.0)), s(-2.0), s(4.0), s(-5.0), &Fpu).unwrap();
    assert_eq!(f(rec.t), 0.0 + 5.0 / 5.0);
    assert!(smoke.scatter_between(&ray, t, s(-2.0), s(1.0), s(-5.0), &Fpu).is_none());
    assert!(smoke.scatter_between(&ray, t, s(2.0), s(3.0), s(-5.5), &Fpu).is_none());
    let rec = smoke.scatter_between(&ray, t, s(2.0), s(3.0), s(-5.0), &Fpu).unwrap();
    assert_eq!(f(rec.t), 3.0);
    let rec = smoke.scatter_between(&ray, t, s(2.0), s(30.0), s(-40.0), &Fpu).unwrap();
    assert_eq!(f(rec.t), 10.0);
}

#[test]
fn rotations_turn_and_turn_back() {
    let quarter = std::f64::consts::FRAC_PI_2;
    let about_y = Rotation::new(RotationAxis::Y, s(quarter), s(0.0), s(1.0));
    assert_eq!(about_y.transform_point(&v(1.0, 2.0, 3.0), &Fpu), v(3.0, 2.0, -1.0));
    assert_eq!(about_y.inverse_transform_point(&v(3.0, 2.0, -1.0), &Fpu), v(1.0, 2.0, 3.0));
    let about_x = Rotation::new(RotationAxis::X, s(quarter), s(0.0), s(1.0));
    assert_eq!(about_x.transform_vector(&v(1.0, 2.0, 3.0), &Fpu), v(1.0, -3.0, 2.0));
    assert_eq!(about_x.inverse_transform_vector(&v(1.0, -3.0, 2.0), &Fpu), v(1.0, 2.0, 3.0));
    let about_z = Rotation::new(RotationAxis::Z, s(quarter), s(0.0), s(1.0));
    assert_eq!(about_z.transform_point(&v(1.0, 2.0, 3.0), &Fpu), v(-2.0, 1.0, 3.0));
    assert_eq!(about_z.inverse_transform_point(&v(-2.0, 1.0, 3.0), &Fpu), v(1.0, 2.0, 3.0));
    let mut both = CompositeRotation::new();
    both.rotations.push(about_x);
    both.rotations.push(about_z);
    assert_eq!(both.transform_point(&v(1.0, 2.0, 3.0), &Fpu), v(3.0, 1.0, 2.0));
    assert_eq!(both.inverse_transform_point(&v(3.0, 1.0, 2.0), &Fpu), v(1.0, 2.0, 3.0));
    assert_eq!(both.transform_vector(&v(0.0, 0.0, 1.0), &Fpu), v(0.0, 0.0, 0.0).plus(&v(1.0, 0.0, 0.0), &Fpu));
    assert_eq!(both.inverse_transform_vector(&v(1.0, 0.0, 0.0), &Fpu), v(0.0, 0.0, 1.0));

    let turned = Rotation::rotate_y(s(30.0), &Fpu);
    assert_eq!(turned.axis, RotationAxis::Y);
    assert_eq!(f(turned.angle_radians), 30.0 * std::f64::consts::PI / 180.0);
    assert_eq!(f(turned.cos_theta), (30.0 * std::f64::consts::PI / 180.0).cos());
    assert_eq!(f(turned.sin_theta), (30.0 * std::f64::consts::PI / 180.0).sin());
    assert_eq!(Rotation::rotate_x(s(-18.0), &Fpu).axis, RotationAxis::X);
    assert_eq!(Rotation::rotate_z(s(15.0), &Fpu).axis, RotationAxis::Z);
    let chain = CompositeRotation::new().rotate_x(s(90.0), &Fpu).rotate_y(s(90.0), &Fpu).rotate_z(s(90.0), &Fpu);
    assert_eq!(chain.rotations.len(), 3);
    assert_eq!(chain.rotations[1].axis, RotationAxis::Y);
    let there = fv(chain.transform_point(&v(1.0, 2.0, 3.0), &Fpu));
    assert!((there.0 - 3.0).abs() < 1e-12 && (there.1 - 2.0).abs() < 1e-12 && (there.2 + 1.0).abs() < 1e-12);
    let back = fv(chain.inverse_transform_point(&v(3.0, 2.0, -1.0), &Fpu));
    assert!((back.0 - 1.0).abs() < 1e-12 && (back.1 - 2.0).abs() < 1e-12 && (back.2 - 3.0).abs() < 1e-12);
}

#[test]
fn a_turned_surface_is_hit_where_it_was_turned_to() {
    let quarter = std::f64::consts::FRAC_PI_2;
    let turned: Rotate<Shape> =
        Rotate::new(ball((0.0, 0.0, -3.0), 0.5, Some(2)), Rotation::new(RotationAxis::Y, s(quarter), s(0.0), s(1.0)), &Fpu);
    assert_eq!(turned.bbox().min(), v(-3.5, -0.5, -0.5));
    assert_eq!(turned.bbox().max(), v(-2.5, 0.5, 0.5));
    let ray = Ray::new(v(0.0, 0.0, 0.0), v(-1.0, 0.0, 0.0));
    let rec = turned.hit(&ray, everything(), &Fpu).unwrap();
    assert_eq!(f(rec.t), 2.5);
    assert_eq!(fv(rec.p), (-2.5, 0.0, 0.0));
    assert_eq!(fv(rec.normal), (1.0, 0.0, 0.0));
    assert_eq!(rec.mat, Some(2));
    let old = Ray::new(v(0.0, 0.0, 0.0), v(0.0, 0.0, -1.0));
    assert!(turned.hit(&old, everything(), &Fpu).is_none());

    let by_angle = RotateY::new(ball((0.0, 0.0, -3.0), 0.5, Some(2)), s(90.0), &Fpu);
    let rec = by_angle.hit(&ray, everything(), &Fpu).unwrap();
    assert!((f(rec.t) - 2.5).abs() < 1e-12);
    assert!((f(by_angle.bbox().min().x()) + 3.5).abs() < 1e-12);
    let about_x = RotateX::new(ball((0.0, 0.0, -3.0), 0.5, None), s(90.0), &Fpu);
    let up = Ray::new(v(0.0, 0.0, 0.0), v(0.0, 1.0, 0.0));
    assert!((f(about_x.hit(&up, everything(), &Fpu).unwrap().t) - 2.5).abs() < 1e-12);
    assert!(about_x.hit(&ray, everything(), &Fpu).is_none());
    let about_z = RotateZ::new(ball((3.0, 0.0, 0.0), 0.5, None), s(90.0), &Fpu);
    assert!((f(about_z.hit(&up, everything(), &Fpu).unwrap().t) - 2.5).abs() < 1e-12);
    assert!((f(about_z.bbox().max().y()) - 3.5).abs() < 1e-12);
}

#[test]
fn camera_starts_with_its_defaults() {
    let cam = Camera::new();
    assert_eq!(f(cam.aspect_ratio), 1.0);
    assert_eq!(cam.image_width, 100);
    assert_eq!(cam.samples_per_pixel, 10);
    assert_eq!(cam.max_depth, 10);
    assert_eq!(f(cam.vfov), 90.0);
    assert_eq!(cam.lookfrom, v(0.0, 0.0, 0.0));
    assert_eq!(cam.lookat, v(0.0, 0.0, -1.0));
    assert_eq!(cam.vup, v(0.0, 1.0, 0.0));
    assert_eq!(f(cam.defocus_angle), 0.0);
    assert_eq!(f(cam.focus_dist), 10.0);
    assert_eq!(cam.background, v(1.0, 1.0, 1.0));
    assert_eq!(cam.image_height, 0);
}

#[test]
fn camera_works_out_its_viewport() {
    let mut cam = Camera::new();
    cam.aspect_ratio = s(16.0 / 9.0);
    cam.image_width = 400;
    cam.samples_per_pixel = 100;
    cam.vfov = s(20.0);
    cam.lookfrom = v(-2.0, 2.0, 1.0);
    cam.lookat = v(0.0, 0.0, -1.0);
    cam.defocus_angle = s(1.0);
    cam.focus_dist = s(3.4);
    let tan_half_vfov = (20.0f64.to_radians() / 2.0).tan();
    let tan_half_defocus = (1.0f64.to_radians() / 2.0).tan();
    let mut by_hand = cam;
    by_hand.initialize_with(s(tan_half_vfov), s(tan_half_defocus), &Fpu);
    cam.initialize(&Fpu);
    assert_eq!(cam.pixel00_loc, by_hand.pixel00_loc);
    assert_eq!(cam.defocus_u, by_hand.defocus_u);
    assert_eq!(cam.image_height, by_hand.image_height);

    assert_eq!(cam.image_height, 225);
    assert_eq!(f(cam.pixel_samples_scale), 1.0 / 100.0);
    assert_eq!(cam.center, v(-2.0, 2.0, 1.0));

    let sub = |a: (f64, f64, f64), b: (f64, f64, f64)| (a.0 - b.0, a.1 - b.1, a.2 - b.2);
    let add = |a: (f64, f64, f64), b: (f64, f64, f64)| (a.0 + b.0, a.1 + b.1, a.2 + b.2);
    let mul = |t: f64, a: (f64, f64, f64)| (t * a.0, t * a.1, t * a.2);
    let div = |a: (f64, f64, f64), t: f64| mul(1.0 / t, a);
    let cross = |u: (f64, f64, f64), w: (f64, f64, f64)| {
        (u.1 * w.2 - u.2 * w.1, u.2 * w.0 - u.0 * w.2, u.0 * w.1 - u.1 * w.0)
    };
    let unit = |a: (f64, f64, f64)| div(a, (a.0 * a.0 + a.1 * a.1 + a.2 * a.2).sqrt());
    let lookfrom = (-2.0, 2.0, 1.0);
    let viewport_height = 2.0 * tan_half_vfov * 3.4;
    let viewport_width = viewport_height * (400.0 / 225.0);
    let w = unit(sub(lookfrom, (0.0, 0.0, -1.0)));
    let u = unit(cross((0.0, 1.0, 0.0), w));
    let up = cross(w, u);
    let viewport_u = mul(viewport_width, u);
    let viewport_v = mul(viewport_height, (-up.0, -up.1, -up.2));
    let du = div(viewport_u, 400.0);
    let dv = div(viewport_v, 225.0);
    let upper_left = sub(sub(sub(lookfrom, mul(3.4, w)), div(viewport_u, 2.0)), div(viewport_v, 2.0));
    let pixel00 = add(upper_left, mul(0.5, add(du, dv)));
    let radius = 3.4 * tan_half_defocus;
    assert_eq!(fv(cam.w), w);
    assert_eq!(fv(cam.u), u);
    assert_eq!(fv(cam.v), up);
    assert_eq!(fv(cam.pixel_delta_u), du);
    assert_eq!(fv(cam.pixel_delta_v), dv);
    assert_eq!(fv(cam.pixel00_loc), pixel00);
    assert_eq!(fv(cam.defocus_u), (u.0 * radius, u.1 * radius, u.2 * radius));
    assert_eq!(fv(cam.defocus_v), (up.0 * radius, up.1 * radius, up.2 * radius));

    let data = cam.data();
    assert_eq!(data.image_width, 400);
    assert_eq!(data.image_height, 225);
    assert_eq!(data.samples_per_pixel, 100);
    assert_eq!(data.max_depth, 10);
    assert_eq!(data.pixel00_loc, cam.pixel00_loc);
    assert_eq!(data.defocus_disk_u, cam.defocus_u);
    assert_eq!(data.background, v(1.0, 1.0, 1.0));
}

#[test]
fn a_flat_image_is_one_pixel_high() {
    let mut cam = Camera::new();
    cam.aspect_ratio = s(1000.0);
    cam.image_width = 10;
    cam.initialize(&Fpu);
    assert_eq!(cam.image_height, 1);
    assert_eq!(fv(cam.defocus_u), (0.0, 0.0, 0.0));
}

#[test]
fn a_point_is_turned_to_the_side_of_the_normal() {
    let n = v(0.6, 0.0, -0.8);
    let dice = Dice::new(8);
    let replay = Dice::new(8);
    let mut turned = 0;
    for _ in 0..300 {
        let r = Vector3::random_on_hemisphere(&n, &dice);
        let unit = unit_vector(&replay);
        assert!(f(Vector3::dot(&r, &n, &Fpu)) >= 0.0);
        if r != unit {
            turned += 1;
            assert_eq!(r, unit.neg());
        }
    }
    assert!(turned > 100 && turned < 200);
}

#[test]
fn a_component_is_changed_in_place() {
    let mut a = v(1.0, 2.0, 3.0);
    *a.get_mut(1) = s(7.0);
    assert_eq!(a, v(1.0, 7.0, 3.0));
    *a.get_mut(0) = s(-1.0);
    *a.get_mut(2) = s(0.5);
    assert_eq!(a, v(-1.0, 7.0, 0.5));
}

#[test]
fn a_box_has_six_sides() {
    let sides = raytracer::quad::create_box(v(1.0, 5.0, 3.0), v(0.0, 2.0, 4.0), Some(2), &Fpu);
    assert_eq!(sides.objects.len(), 6);
    let corners: Vec<(f64, f64, f64)> = sides.objects.iter().map(|q| fv(q.q)).collect();
    assert_eq!(
        corners,
        vec![(0.0, 2.0, 4.0), (1.0, 2.0, 4.0), (1.0, 2.0, 3.0), (0.0, 2.0, 3.0), (0.0, 5.0, 4.0), (0.0, 2.0, 3.0)]
    );
    assert_eq!(fv(sides.objects[0].u), (1.0, 0.0, 0.0));
    assert_eq!(fv(sides.objects[0].v), (0.0, 3.0, 0.0));
    assert_eq!(fv(sides.objects[1].u), (0.0, 0.0, -1.0));
    assert_eq!(fv(sides.objects[4].v), (0.0, 0.0, -1.0));
    assert!(sides.objects.iter().all(|q| q.mat == Some(2)));
    assert_eq!(sides.bbox().min(), v(0.0 - 0.00005, 2.0 - 0.00005, 3.0 - 0.00005));
    assert_eq!(sides.bbox().max(), v(1.0 + 0.00005, 5.0 + 0.00005, 4.0 + 0.00005));
    let ray = Ray::new(v(0.5, 3.0, 10.0), v(0.0, 0.0, -1.0));
    assert_eq!(f(sides.hit(&ray, everything(), &Fpu).unwrap().t), 6.0);
}

#[test]
fn random_vectors_lie_where_they_should() {
    let dice = Dice::new(4);
    for _ in 0..500 {
        let u = Vector3::random_unit_vector(&dice);
        assert!((f(u.length(&Fpu)) - 1.0).abs() < 1e-12);
        let d = Vector3::random_in_unit_disk(&dice);
        assert!(f(d.length_squared(&Fpu)) < 1.0 && f(d.z()) == 0.0);
        let r = fv(Vector3::random(&dice));
        assert!(r.0 >= 0.0 && r.0 < 1.0 && r.1 >= 0.0 && r.1 < 1.0 && r.2 >= 0.0 && r.2 < 1.0);
        let w = fv(Vector3::random_range(s(-3.0), s(5.0), &dice));
        assert!(w.0 >= -3.0 && w.0 < 5.0 && w.1 >= -3.0 && w.1 < 5.0 && w.2 >= -3.0 && w.2 < 5.0);
    }
    let replay = Dice::new(77);
    let mut p = (0.0, 0.0, 0.0);
    let mut lensq = 0.0;
    while !(1e-160 < lensq && lensq <= 1.0) {
        p = (2.0 * replay.next() - 1.0, 2.0 * replay.next() - 1.0, 2.0 * replay.next() - 1.0);
        p = (-1.0 + 2.0 * ((p.0 + 1.0) / 2.0), -1.0 + 2.0 * ((p.1 + 1.0) / 2.0), -1.0 + 2.0 * ((p.2 + 1.0) / 2.0));
        lensq = p.0 * p.0 + p.1 * p.1 + p.2 * p.2;
    }
    let u = fv(Vector3::random_unit_vector(&Dice::new(77)));
    let l = lensq.sqrt();
    assert!((u.0 - p.0 / l).abs() < 1e-12 && (u.1 - p.1 / l).abs() < 1e-12 && (u.2 - p.2 / l).abs() < 1e-12);
}

#[test]
fn materials_draw_for_themselves() {
    let mut rec = HitRecord::new();
    rec.p = v(1.0, 2.0, 3.0);
    rec.normal = v(0.0, 1.0, 0.0);
    rec.front_face = true;
    let ray = Ray::new(v(0.0, 3.0, 3.0), v(1.0, -1.0, 0.0));

    let matt = Stuff::Matt(Lambertian::new(v(0.1, 0.2, 0.3)));
    let (attenuation, scattered) = matt.scatter(&ray, &rec, &Dice::new(6)).unwrap();
    let unit = unit_vector(&Dice::new(6));
    assert_eq!(attenuation, v(0.1, 0.2, 0.3));
    assert_eq!(scattered.get_origin(), v(1.0, 2.0, 3.0));
    assert_eq!(scattered.get_direction(), rec.normal.plus(&unit, &Fpu));

    let smoke = Stuff::Smoke(Isotropic::from_color(v(0.5, 0.5, 0.5)));
    let (attenuation, scattered) = smoke.scatter(&ray, &rec, &Dice::new(6)).unwrap();
    assert_eq!(attenuation, v(0.5, 0.5, 0.5));
    assert_eq!(scattered.get_direction(), unit);

    let mirror = Metal::new(v(0.8, 0.8, 0.8), s(0.3));
    let dice = Dice::new(13);
    let replay = Dice::new(13);
    for _ in 0..100 {
        let by_hand = mirror.scatter_with(&ray, &rec, &unit_vector(&replay), &Fpu);
        match Material::<Dice>::scatter(&mirror, &ray, &rec, &dice) {
            Some((attenuation, scattered)) => {
                assert_eq!(attenuation, v(0.8, 0.8, 0.8));
                assert_eq!(scattered, by_hand.unwrap().1);
                assert!(f(scattered.get_direction().y()) > 0.0);
            }
            None => assert!(by_hand.is_none()),
        }
    }

    let glass = Dielectric::new(s(1.5));
    let dice = Dice::new(17);
    let replay = Dice::new(17);
    let (mut back, mut through) = (0, 0);
    for _ in 0..400 {
        let (attenuation, scattered) = Material::<Dice>::scatter(&glass, &ray, &rec, &dice).unwrap();
        assert_eq!(attenuation, v(1.0, 1.0, 1.0));
        assert_eq!(scattered, glass.scatter_with(&ray, &rec, s(replay.next()), &Fpu).1);
        if f(scattered.get_direction().y()) > 0.0 {
            back += 1;
        } else {
            through += 1;
        }
    }
    assert!(back > 0 && through > 300);
    rec.front_face = false;
    let flat = Ray::new(v(0.0, 2.1, 3.0), v(1.0, -0.1, 0.0));
    let before = dice.next();
    assert_eq!(before, replay.next());
    let (_, scattered) = Material::<Dice>::scatter(&glass, &flat, &rec, &dice).unwrap();
    assert!(f(scattered.get_direction().y()) > 0.0);
    assert_eq!(dice.next(), replay.next());
}

#[test]
fn sphere_has_its_texture_coordinates() {
    let (u, w) = Sphere::get_sphere_uv(&v(1.0, 0.0, 0.0), &Fpu);
    assert_eq!((f(u), f(w)), (0.5, 0.5));
    let (u, w) = Sphere::get_sphere_uv(&v(0.0, 1.0, 0.0), &Fpu);
    assert_eq!((f(u), f(w)), (0.5, 1.0));
    let (u, w) = Sphere::get_sphere_uv(&v(0.0, -1.0, 0.0), &Fpu);
    assert_eq!((f(u), f(w)), (0.5, 0.0));
    let (u, w) = Sphere::get_sphere_uv(&v(0.0, 0.0, -1.0), &Fpu);
    assert_eq!((f(u), f(w)), (0.75, 0.5));
    let (u, w) = Sphere::get_sphere_uv(&v(0.0, 0.0, 1.0), &Fpu);
    assert_eq!((f(u), f(w)), (0.25, 0.5));
    let shape = Sphere::new(v(0.0, 0.0, -1.0), s(0.5), Some(1), &Fpu);
    let rec = shape.hit(&Ray::new(v(0.0, 0.0, 0.0), v(0.0, 0.0, -1.0)), everything(), &Fpu).unwrap();
    assert_eq!((f(rec.u), f(rec.v)), (0.25, 0.5));
    let (plain, outward) = shape.intersect(&Ray::new(v(0.0, 0.0, 0.0), v(0.0, 0.0, -1.0)), everything(), &Fpu).unwrap();
    assert_eq!((f(plain.u), f(plain.v)), (0.0, 0.0));
    assert_eq!(outward, v(0.0, 0.0, 1.0));
}

#[test]
fn the_whole_image_is_rendered_task_by_task() {
    let list = list_of(&five());
    let tree = BVHNode::new(&list, &Fpu);
    let mut cam = Camera::new();
    cam.image_width = 24;
    cam.aspect_ratio = s(1.5);
    cam.samples_per_pixel = 2;
    cam.max_depth = 4;
    cam.background = v(0.1, 0.2, 0.3);
    let one = cam.clone().render(&list, &lights(), 1, &Dice::new(19));
    assert_eq!(one.len(), 24 * 16);
    for cores in [2, 3, 5, 16, 100] {
        let mut again = cam;
        let many = again.render(&list, &lights(), cores, &Dice::new(19));
        assert_eq!(again.image_height, 16);
        assert_eq!(many, one);
    }
    let mut through_tree = cam;
    assert_eq!(through_tree.render(&tree, &lights(), 4, &Dice::new(19)), one);
    assert!(one.iter().any(|c| *c == v(0.9, 0.1, 0.2)));
    assert!(one.iter().any(|c| *c == v(0.1, 0.2, 0.3)));
    assert!(one.iter().any(|c| *c != v(0.9, 0.1, 0.2) && *c != v(0.1, 0.2, 0.3) && *c != v(0.2, 0.7, 4.0)));

    let data = {
        let mut ready = cam;
        ready.initialize(&Fpu);
        ready.data()
    };
    let dice = Dice::new(19);
    let mut by_hand = vec![v(0.0, 0.0, 0.0); 24 * 16];
    data.render_task(&list, &lights(), &mut by_hand, 0, 7, &dice);
    assert_eq!(by_hand[..24 * 7], one[..24 * 7]);
    assert!(by_hand[24 * 7..].iter().all(|c| *c == v(0.0, 0.0, 0.0)));
    data.render_task(&list, &lights(), &mut by_hand, 7, 16, &dice);
    assert_eq!(by_hand, one);

    let empty: HittableList<Shape> = HittableList::new();
    let mut plain = cam;
    plain.samples_per_pixel = 1;
    let sky = plain.render(&empty, &lights(), 3, &Dice::new(2));
    assert!(sky.iter().all(|c| *c == v(0.1, 0.2, 0.3)));
}

struct Dull;

impl Material<Fpu> for Dull {
    fn scatter(&self, _ray_in: &Ray, _rec: &HitRecord, _fpu: &Fpu) -> Option<(Color, Ray)> {
        None
    }
}

#[test]
fn a_material_that_does_not_say_otherwise_gives_off_nothing() {
    let p = v(1.0, 2.0, 3.0);
    assert_eq!(Dull.emitted(s(0.3), s(0.7), &p, &Fpu), v(0.0, 0.0, 0.0));
    let dice = Dice::new(1);
    assert_eq!(Material::<Dice>::emitted(&Metal::new(v(0.8, 0.8, 0.8), s(0.1)), s(0.0), s(0.0), &p, &dice), v(0.0, 0.0, 0.0));
    assert_eq!(Material::<Dice>::emitted(&Lambertian::new(v(0.8, 0.8, 0.8)), s(0.0), s(0.0), &p, &dice), v(0.0, 0.0, 0.0));
    assert_eq!(Material::<Dice>::emitted(&Dielectric::new(s(1.5)), s(0.0), s(0.0), &p, &dice), v(0.0, 0.0, 0.0));
    assert_eq!(Material::<Dice>::emitted(&Isotropic::from_color(v(1.0, 1.0, 1.0)), s(0.0), s(0.0), &p, &dice), v(0.0, 0.0, 0.0));
}
