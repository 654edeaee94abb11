use raytracer::aabb::AABB;
use raytracer::interval::Interval;
use raytracer::ray::Ray;
use raytracer::scalar::{Arithmetic, Functions, Scalar};
use raytracer::vector::Vector3;

struct Fpu;

fn s(x: f64) -> Scalar {
    Scalar::from_bits(x.to_bits())
}

fn f(x: Scalar) -> f64 {
    f64::from_bits(x.to_bits())
}

/// The bits of a result, with the same bits for every NaN.
fn settled(x: f64) -> Scalar {
    if x.is_nan() {
        s(f64::NAN)
    } else {
        s(x)
    }
}

impl Arithmetic for Fpu {
    fn sum(&self, a: Scalar, b: Scalar) -> Scalar {
        self.plus(a, b)
    }

    fn difference(&self, a: Scalar, b: Scalar) -> Scalar {
        self.minus(a, b)
    }

    fn product(&self, a: Scalar, b: Scalar) -> Scalar {
        self.times(a, b)
    }

    fn quotient(&self, a: Scalar, b: Scalar) -> Scalar {
        self.over(a, b)
    }

    fn square_root(&self, a: Scalar) -> Scalar {
        self.root(a)
    }

    fn plus(&self, a: Scalar, b: Scalar) -> Scalar {
        settled(f(a) + f(b))
    }

    fn minus(&self, a: Scalar, b: Scalar) -> Scalar {
        settled(f(a) - f(b))
    }

    fn times(&self, a: Scalar, b: Scalar) -> Scalar {
        settled(f(a) * f(b))
    }

    fn over(&self, a: Scalar, b: Scalar) -> Scalar {
        settled(f(a) / f(b))
    }

    fn root(&self, a: Scalar) -> Scalar {
        settled(f(a).sqrt())
    }
}

impl Functions for Fpu {
    fn powf(&self, base: Scalar, exponent: Scalar) -> Scalar {
        s(f(base).powf(f(exponent)))
    }

    fn ln(&self, x: Scalar) -> Scalar {
        s(f(x).ln())
    }

    fn sin(&self, x: Scalar) -> Scalar {
        s(f(x).sin())
    }

    fn cos(&self, x: Scalar) -> Scalar {
        s(f(x).cos())
    }

    fn tan(&self, x: Scalar) -> Scalar {
        s(f(x).tan())
    }

    fn acos(&self, x: Scalar) -> Scalar {
        s(f(x).acos())
    }

    fn atan2(&self, y: Scalar, x: Scalar) -> Scalar {
        s(f(y).atan2(f(x)))
    }
}

fn v(x: f64, y: f64, z: f64) -> Vector3 {
    Vector3::new(s(x), s(y), s(z))
}

fn samples() -> Vec<f64> {
    vec![
        0.0,
        -0.0,
        1.0,
        -1.0,
        0.5,
        -0.5,
        1e-8,
        -1e-8,
        5e-324,
        -5e-324,
        2.2250738585072014e-308,
        1.7976931348623157e308,
        -1.7976931348623157e308,
        f64::INFINITY,
        f64::NEG_INFINITY,
        f64::NAN,
        3.0,
        0.001,
        0.999,
        255.5,
    ]
}

fn unit_box() -> AABB {
    AABB::new_points(v(0.0, 0.0, 0.0), v(1.0, 1.0, 1.0), &Fpu)
}

#[test]
fn comparisons_agree_with_the_numbers() {
    for &a in samples().iter() {
        for &b in samples().iter() {
            assert_eq!(s(a).lt(s(b)), a < b, "{} < {}", a, b);
            assert_eq!(s(a).le(s(b)), a <= b, "{} <= {}", a, b);
            assert_eq!(s(a).gt(s(b)), a > b, "{} > {}", a, b);
            assert_eq!(s(a).ge(s(b)), a >= b, "{} >= {}", a, b);
        }
    }
}

#[test]
fn keys_order_as_the_numbers_do() {
    for &a in samples().iter() {
        for &b in samples().iter() {
            if a.is_nan() || b.is_nan() {
                continue;
            }
            assert_eq!(s(a).key() < s(b).key(), a < b, "{} {}", a, b);
            assert_eq!(s(a).key() == s(b).key(), a == b, "{} {}", a, b);
        }
    }
    assert_eq!(s(0.0).key(), 0);
    assert_eq!(s(-0.0).key(), 0);
    assert_eq!(s(1.0).key(), 0x3FF0_0000_0000_0000);
    assert_eq!(s(-1.0).key(), -0x3FF0_0000_0000_0000);
}

#[test]
fn nan_is_told_apart() {
    assert!(s(f64::NAN).is_nan());
    assert!(s(-f64::NAN).is_nan());
    assert!(!s(f64::INFINITY).is_nan());
    assert!(!s(f64::NEG_INFINITY).is_nan());
    assert!(!s(0.0).is_nan());
}

#[test]
fn sign_changes_agree_with_the_numbers() {
    for &a in samples().iter() {
        assert_eq!(s(a).neg().to_bits(), (-a).to_bits());
        assert_eq!(s(a).abs().to_bits(), a.abs().to_bits());
    }
}

#[test]
fn min_and_max_skip_nan() {
    for &a in samples().iter() {
        for &b in samples().iter() {
            let least = f(s(a).min(s(b)));
            let greatest = f(s(a).max(s(b)));
            if a.is_nan() && b.is_nan() {
                assert!(least.is_nan() && greatest.is_nan());
            } else {
                assert_eq!(least, a.min(b), "min {} {}", a, b);
                assert_eq!(greatest, a.max(b), "max {} {}", a, b);
            }
        }
    }
}

#[test]
fn constants_have_their_bits() {
    assert_eq!(f(Scalar::zero()), 0.0);
    assert_eq!(f(Scalar::one()), 1.0);
    assert_eq!(f(Scalar::two()), 2.0);
    assert_eq!(f(Scalar::infinity()), f64::INFINITY);
    assert_eq!(f(Scalar::neg_infinity()), f64::NEG_INFINITY);
    assert_eq!(raytracer::aabb::MIN_THICKNESS_BITS, 0.0001f64.to_bits());
    assert_eq!(raytracer::vector::NEAR_ZERO_BITS, 1e-8f64.to_bits());
    assert_eq!(raytracer::camera::NEAR_BITS, 0.001f64.to_bits());
    assert_eq!(raytracer::color::BRIGHTEST_BITS, 0.999f64.to_bits());
    assert_eq!(raytracer::color::STEP_BITS, (1.0f64 / 256.0).to_bits());
    assert_eq!(raytracer::constant_medium::STEP_OVER_BITS, 0.0001f64.to_bits());
    assert_eq!(raytracer::constant_medium::MINUS_ONE_BITS, (-1.0f64).to_bits());
}

#[test]
fn interval_contains_and_surrounds() {
    let i = Interval::new(s(1.0), s(2.0));
    assert!(i.contains(s(1.0)));
    assert!(i.contains(s(2.0)));
    assert!(i.contains(s(1.5)));
    assert!(!i.contains(s(0.999)));
    assert!(!i.contains(s(f64::NAN)));
    assert!(!i.surrounds(s(1.0)));
    assert!(!i.surrounds(s(2.0)));
    assert!(i.surrounds(s(1.5)));
    assert!(!Interval::empty().contains(s(0.0)));
    assert!(Interval::universe().contains(s(0.0)));
    assert!(Interval::universe().surrounds(s(1e300)));
}

#[test]
fn interval_clamps() {
    let i = Interval::new(s(0.0), s(0.999));
    assert_eq!(f(i.clamp(s(-3.0))), 0.0);
    assert_eq!(f(i.clamp(s(0.25))), 0.25);
    assert_eq!(f(i.clamp(s(7.0))), 0.999);
    assert!(f(i.clamp(s(f64::NAN))).is_nan());
}

#[test]
fn interval_size_expand_and_translate() {
    let i = Interval::new(s(1.0), s(3.5));
    assert_eq!(f(i.size(&Fpu)), 2.5);
    let e = i.expand(s(1.0), &Fpu);
    assert_eq!(f(e.min), 0.5);
    assert_eq!(f(e.max), 4.0);
    let m = i.translate(s(-1.0), &Fpu);
    assert_eq!(f(m.min), 0.0);
    assert_eq!(f(m.max), 2.5);
}

#[test]
fn enclosing_interval_holds_both() {
    let a = Interval::new(s(-1.0), s(2.0));
    let b = Interval::new(s(0.0), s(5.0));
    let h = Interval::new_enclosing_intervals(&a, &b);
    assert_eq!(f(h.min), -1.0);
    assert_eq!(f(h.max), 5.0);
    let h = Interval::new_enclosing_intervals(&b, &a);
    assert_eq!(f(h.min), -1.0);
    assert_eq!(f(h.max), 5.0);
    let e = Interval::new_enclosing_intervals(&Interval::empty(), &a);
    assert_eq!(e, a);
}

#[test]
fn union_encloses_both() {
    let a = AABB::new_points(v(0.0, -1.0, 2.0), v(1.0, 3.0, 2.5), &Fpu);
    let b = AABB::new_points(v(-4.0, 0.0, 0.0), v(0.5, 0.5, 9.0), &Fpu);
    let u = AABB::new_from_aabbs(&a, &b);
    assert_eq!(f(u.x.min), -4.0);
    assert_eq!(f(u.x.max), 1.0);
    assert_eq!(f(u.y.min), -1.0);
    assert_eq!(f(u.y.max), 3.0);
    assert_eq!(f(u.z.min), 0.0);
    assert_eq!(f(u.z.max), 9.0);
    for (inner, outer) in [(a.x, u.x), (a.y, u.y), (a.z, u.z), (b.x, u.x), (b.y, u.y), (b.z, u.z)] {
        assert!(f(outer.min) <= f(inner.min));
        assert!(f(inner.max) <= f(outer.max));
    }
}

#[test]
fn empty_box_is_absorbed() {
    let b = unit_box();
    assert_eq!(AABB::new_from_aabbs(&AABB::new_empty(), &b), b);
    assert_eq!(AABB::new_from_aabbs(&b, &AABB::new_empty()), b);
    let e = AABB::new_empty();
    assert_eq!(f(e.x.min), f64::INFINITY);
    assert_eq!(f(e.z.max), f64::NEG_INFINITY);
}

#[test]
fn flat_box_is_padded() {
    let flat = Interval::new(s(2.0), s(2.0));
    let wide = Interval::new(s(0.0), s(1.0));
    let b = AABB::new(flat, wide, flat, &Fpu);
    assert_eq!(f(b.x.min), 2.0 - 0.0001 / 2.0);
    assert_eq!(f(b.x.max), 2.0 + 0.0001 / 2.0);
    assert_eq!(b.y, wide);
    assert_eq!(f(b.z.min), 2.0 - 0.00005);
    let from_points = AABB::new_points(v(0.0, 1.0, 5.0), v(1.0, 0.0, 5.0), &Fpu);
    assert_eq!(f(from_points.y.min), 0.0);
    assert_eq!(f(from_points.y.max), 1.0);
    assert_eq!(f(from_points.z.min), 5.0 - 0.00005);
    assert_eq!(f(from_points.z.max), 5.0 + 0.00005);
}

#[test]
fn empty_box_stays_empty_when_padded() {
    let e = Interval::empty();
    let b = AABB::new(e, e, e, &Fpu);
    assert_eq!(b, AABB::new_empty());
}

#[test]
fn box_is_translated() {
    let b = unit_box().translate(&v(1.0, -2.0, 0.5), &Fpu);
    assert_eq!(f(b.x.min), 1.0);
    assert_eq!(f(b.x.max), 2.0);
    assert_eq!(f(b.y.min), -2.0);
    assert_eq!(f(b.y.max), -1.0);
    assert_eq!(f(b.z.min), 0.5);
    assert_eq!(f(b.z.max), 1.5);
}

#[test]
fn box_corners() {
    let b = AABB::new_points(v(3.0, -1.0, 2.0), v(1.0, 4.0, 2.5), &Fpu);
    assert_eq!(b.min(), v(1.0, -1.0, 2.0));
    assert_eq!(b.max(), v(3.0, 4.0, 2.5));
}

#[test]
fn longest_axis_breaks_ties_towards_z() {
    let cube = unit_box();
    assert_eq!(cube.longest_axis(&Fpu), 2);
    let wide = AABB::new_points(v(0.0, 0.0, 0.0), v(3.0, 1.0, 1.0), &Fpu);
    assert_eq!(wide.longest_axis(&Fpu), 0);
    let tall = AABB::new_points(v(0.0, 0.0, 0.0), v(3.0, 3.0, 1.0), &Fpu);
    assert_eq!(tall.longest_axis(&Fpu), 1);
    let deep = AABB::new_points(v(0.0, 0.0, 0.0), v(1.0, 2.0, 2.0), &Fpu);
    assert_eq!(deep.longest_axis(&Fpu), 2);
}

#[test]
fn axis_interval_falls_back_to_x() {
    let b = AABB::new_points(v(0.0, 10.0, 20.0), v(1.0, 11.0, 21.0), &Fpu);
    assert_eq!(f(b.axis_interval(0).min), 0.0);
    assert_eq!(f(b.axis_interval(1).min), 10.0);
    assert_eq!(f(b.axis_interval(2).min), 20.0);
    assert_eq!(f(b.axis_interval(7).min), 0.0);
    assert_eq!(f(b.axis_interval(-1).min), 0.0);
}

#[test]
fn slab_test_hits_and_misses() {
    let b = unit_box();
    let all = Interval::new(s(0.001), s(f64::INFINITY));
    let through = Ray::new(v(0.5, 0.5, -1.0), v(0.0, 0.0, 1.0));
    assert!(b.hit(&through, all, &Fpu));
    let beside = Ray::new(v(1.5, 0.5, -1.0), v(0.0, 0.0, 1.0));
    assert!(!b.hit(&beside, all, &Fpu));
    let away = Ray::new(v(0.5, 0.5, -1.0), v(0.0, 0.0, -1.0));
    assert!(!b.hit(&away, all, &Fpu));
    let short = Interval::new(s(0.001), s(0.5));
    assert!(!b.hit(&through, short, &Fpu));
    let reaching = Interval::new(s(0.001), s(1.5));
    assert!(b.hit(&through, reaching, &Fpu));
    let slanted = Ray::new(v(-1.0, -1.0, -1.0), v(1.0, 1.0, 1.0));
    assert!(b.hit(&slanted, all, &Fpu));
}

#[test]
fn clipping_intersects_the_stretches() {
    let t = Interval::new(s(1.0), s(10.0));
    let c = AABB::clip(t, s(2.0), s(5.0));
    assert_eq!((f(c.min), f(c.max)), (2.0, 5.0));
    let c = AABB::clip(t, s(5.0), s(2.0));
    assert_eq!((f(c.min), f(c.max)), (2.0, 5.0));
    let c = AABB::clip(t, s(-3.0), s(50.0));
    assert_eq!((f(c.min), f(c.max)), (1.0, 10.0));
    let c = AABB::clip(t, s(12.0), s(20.0));
    assert_eq!((f(c.min), f(c.max)), (12.0, 10.0));
    let c = AABB::clip(t, s(f64::NEG_INFINITY), s(f64::INFINITY));
    assert_eq!((f(c.min), f(c.max)), (1.0, 10.0));
    let c = AABB::clip(t, s(f64::NAN), s(4.0));
    assert_eq!((f(c.min), f(c.max)), (4.0, 10.0));
}

#[test]
fn slab_test_leaves_the_search_interval_alone() {
    let b = unit_box();
    let all = Interval::new(s(0.001), s(f64::INFINITY));
    let through = Ray::new(v(0.5, 0.5, -1.0), v(0.0, 0.0, 1.0));
    assert!(b.hit(&through, all, &Fpu));
    assert_eq!(f(all.min), 0.001);
    assert_eq!(f(all.max), f64::INFINITY);
}

#[test]
fn vector_accessors_and_near_zero() {
    let a = v(1.0, -2.0, 3.0);
    assert_eq!(f(a.x()), 1.0);
    assert_eq!(f(a.y()), -2.0);
    assert_eq!(f(a.z()), 3.0);
    assert_eq!(f(a.get(0)), 1.0);
    assert_eq!(f(a.get(1)), -2.0);
    assert_eq!(f(a.get(2)), 3.0);
    assert_eq!(a.neg(), v(-1.0, 2.0, -3.0));
    assert!(!a.near_zero());
    assert!(v(1e-9, -1e-9, 0.0).near_zero());
    assert!(!v(1e-9, 1e-8, 0.0).near_zero());
    assert_eq!(Vector3::zero(), v(0.0, 0.0, 0.0));
}

#[test]
fn vector_arithmetic_agrees_with_the_numbers() {
    let a = v(1.0, 2.0, 3.0);
    let b = v(-4.0, 0.5, 2.0);
    assert_eq!(a.plus(&b, &Fpu), v(-3.0, 2.5, 5.0));
    assert_eq!(a.minus(&b, &Fpu), v(5.0, 1.5, 1.0));
    assert_eq!(a.times(&b, &Fpu), v(-4.0, 1.0, 6.0));
    assert_eq!(Vector3::scale(s(2.0), &a, &Fpu), v(2.0, 4.0, 6.0));
    assert_eq!(a.over(s(2.0), &Fpu), v(0.5, 1.0, 1.5));
    assert_eq!(f(Vector3::dot(&a, &b, &Fpu)), 3.0);
    assert_eq!(Vector3::cross(&a, &b, &Fpu), v(2.5, -14.0, 8.5));
    assert_eq!(f(a.length_squared(&Fpu)), 14.0);
    assert_eq!(f(v(3.0, 4.0, 0.0).length(&Fpu)), 5.0);
    assert_eq!(v(3.0, 4.0, 0.0).unit_vector(&Fpu), v(3.0 * (1.0 / 5.0), 4.0 * (1.0 / 5.0), 0.0));
    assert_eq!(Vector3::reflect(&v(1.0, -1.0, 0.0), &v(0.0, 1.0, 0.0), &Fpu), v(1.0, 1.0, 0.0));
    let mut c = a;
    c.add_assign(&b, &Fpu);
    assert_eq!(c, v(-3.0, 2.5, 5.0));
    c.mul_assign(s(2.0), &Fpu);
    assert_eq!(c, v(-6.0, 5.0, 10.0));
    c.div_assign(s(2.0), &Fpu);
    assert_eq!(c, v(-3.0, 2.5, 5.0));
}

#[test]
fn refraction_without_a_change_of_index_keeps_the_direction() {
    let uv = v(0.6, -0.8, 0.0);
    let n = v(0.0, 1.0, 0.0);
    let out = Vector3::refract(&uv, &n, s(1.0), &Fpu);
    assert!((f(out.x()) - 0.6).abs() < 1e-12);
    assert!((f(out.y()) + 0.8).abs() < 1e-12);
    assert!(f(out.z()).abs() < 1e-12);
}

#[test]
fn ray_points() {
    let r = Ray::new(v(1.0, 2.0, 3.0), v(0.0, -1.0, 2.0));
    assert_eq!(r.get_origin(), v(1.0, 2.0, 3.0));
    assert_eq!(r.get_direction(), v(0.0, -1.0, 2.0));
    assert_eq!(r.at(s(2.0), &Fpu), v(1.0, 0.0, 7.0));
}

#[test]
fn whole_numbers_become_numbers() {
    let mut n: i64 = i32::MIN as i64;
    while n <= i32::MAX as i64 {
        let k = n as i32;
        assert_eq!(Scalar::from_i32(k).to_bits(), (k as f64).to_bits(), "{}", k);
        n += 65_521;
    }
    for k in [0, 1, -1, 2, 3, 255, 256, 400, 225, i32::MAX, i32::MIN, i32::MAX - 1, i32::MIN + 1, 1 << 30, -(1 << 30)] {
        assert_eq!(Scalar::from_i32(k).to_bits(), (k as f64).to_bits(), "{}", k);
        assert_eq!(Scalar::from_i32(k).to_i32(), k);
    }
}

fn awkward() -> Vec<f64> {
    let mut all = samples();
    all.extend_from_slice(&[
        0.999_999_999,
        -0.999_999_999,
        1.5,
        -1.5,
        2.5,
        -2.5,
        7.0,
        -7.0,
        1e9,
        -1e9,
        2147483647.0,
        2147483647.5,
        2147483648.0,
        -2147483648.0,
        -2147483648.5,
        -2147483649.0,
        4294967296.0,
        1e15,
        -1e15,
        4503599627370495.5,
        -4503599627370495.5,
        4503599627370496.0,
        9007199254740993.0,
        1e300,
        -1e300,
        123456.789,
        -123456.789,
        0.1,
        -0.1,
    ]);
    all
}

#[test]
fn numbers_lose_their_fraction() {
    for &x in awkward().iter() {
        assert_eq!(s(x).to_i32(), x as i32, "{}", x);
    }
    let mut x = -70000.0f64;
    while x < 70000.0 {
        assert_eq!(s(x).to_i32(), x as i32, "{}", x);
        x += 0.371;
    }
}

#[test]
fn numbers_are_rounded_down() {
    for &x in awkward().iter() {
        assert_eq!(s(x).floor().to_bits(), x.floor().to_bits(), "{}", x);
        assert_eq!(s(x).floor().to_i32(), x.floor() as i32, "{}", x);
    }
    let mut x = -70000.0f64;
    while x < 70000.0 {
        assert_eq!(s(x).floor().to_bits(), x.floor().to_bits(), "{}", x);
        x += 0.371;
    }
    let mut x = 1e-3f64;
    while x < 1e18 {
        assert_eq!(s(x).floor().to_bits(), x.floor().to_bits(), "{}", x);
        assert_eq!(s(-x).floor().to_bits(), (-x).floor().to_bits(), "{}", -x);
        x *= 1.37;
    }
}
