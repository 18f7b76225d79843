use raytracer::math::first_within;
use raytracer::math::map_range;
use raytracer::math::square;
use raytracer::math::Mathematical;
use raytracer::math::Range;

#[derive(Clone, Copy, Debug, PartialEq, PartialOrd)]
struct Real(f64);

impl std::ops::Add for Real {
    type Output = Real;

    fn add(self, rhs: Real) -> Real {
        Real(self.0 + rhs.0)
    }
}

impl std::ops::Sub for Real {
    type Output = Real;

    fn sub(self, rhs: Real) -> Real {
        Real(self.0 - rhs.0)
    }
}

impl std::ops::Mul for Real {
    type Output = Real;

    fn mul(self, rhs: Real) -> Real {
        Real(self.0 * rhs.0)
    }
}

impl std::ops::Div for Real {
    type Output = Real;

    fn div(self, rhs: Real) -> Real {
        Real(self.0 / rhs.0)
    }
}

impl Mathematical for Real {}

#[test]
fn square_of_integers() {
    assert_eq!(square(3i64), 9);
    assert_eq!(square(-4i64), 16);
    assert_eq!(square(0usize), 0);
    assert_eq!(square(12usize), 144);
}

#[test]
fn square_of_reals() {
    assert_eq!(square(Real(0.5)), Real(0.25));
    assert_eq!(square(Real(-3.0)), Real(9.0));
}

#[test]
fn dist_is_end_less_start() {
    assert_eq!(Range::new(-1i64, 1i64).dist(), 2);
    assert_eq!(Range::new(3usize, 10usize).dist(), 7);
    assert_eq!(Range::new(5i64, 2i64).dist(), -3);
    assert_eq!(Range::new(Real(0.25), Real(1.0)).dist(), Real(0.75));
}

#[test]
fn is_within_takes_the_start_and_leaves_the_end() {
    let range = Range::new(-1i64, 1i64);
    assert!((-1i64).is_within(range));
    assert!(0i64.is_within(range));
    assert!(!1i64.is_within(range));
    assert!(!(-2i64).is_within(range));
    assert!(!2i64.is_within(range));
}

#[test]
fn is_within_an_empty_range_is_never() {
    assert!(!3usize.is_within(Range::new(3usize, 3usize)));
    assert!(!3usize.is_within(Range::new(4usize, 2usize)));
}

#[test]
fn is_within_an_unbounded_range_of_reals() {
    let range = Range::new(Real(0.001), Real(f64::INFINITY));
    assert!(Real(0.001).is_within(range));
    assert!(Real(1.0e300).is_within(range));
    assert!(!Real(0.0009).is_within(range));
    assert!(!Real(f64::INFINITY).is_within(range));
    assert!(!Real(f64::NAN).is_within(range));
}

#[test]
fn map_range_of_integers() {
    assert_eq!(map_range(5i64, Range::new(0i64, 10i64), Range::new(0i64, 100i64)), 50);
    assert_eq!(map_range(0i64, Range::new(0i64, 10i64), Range::new(20i64, 40i64)), 20);
    assert_eq!(map_range(10i64, Range::new(0i64, 10i64), Range::new(20i64, 40i64)), 40);
    assert_eq!(map_range(3usize, Range::new(1usize, 5usize), Range::new(10usize, 18usize)), 14);
}

#[test]
fn map_range_divides_the_distances_first() {
    assert_eq!(map_range(5i64, Range::new(0i64, 10i64), Range::new(0i64, 5i64)), 0);
    assert_eq!(map_range(7i64, Range::new(0i64, 4i64), Range::new(0i64, 10i64)), 14);
}

#[test]
fn map_range_of_the_sky_gradient() {
    let from = Range::new(Real(-1.0), Real(1.0));
    let onto = Range::new(Real(0.0), Real(1.0));
    assert_eq!(map_range(Real(1.0), from, onto), Real(1.0));
    assert_eq!(map_range(Real(-1.0), from, onto), Real(0.0));
    assert_eq!(map_range(Real(0.0), from, onto), Real(0.5));
    assert_eq!(map_range(Real(0.5), from, onto), Real(0.75));
}

#[test]
fn map_range_goes_on_outside_the_source() {
    assert_eq!(map_range(20i64, Range::new(0i64, 10i64), Range::new(0i64, 100i64)), 200);
    assert_eq!(map_range(-1i64, Range::new(0i64, 10i64), Range::new(0i64, 100i64)), -10);
}

#[test]
fn first_within_takes_the_earliest() {
    let range = Range::new(2i64, 10i64);
    assert_eq!(first_within(&vec![1, 5, 7], range), Some(5));
    assert_eq!(first_within(&vec![7, 5], range), Some(7));
    assert_eq!(first_within(&vec![2], range), Some(2));
}

#[test]
fn first_within_finds_none_outside() {
    let range = Range::new(2i64, 10i64);
    assert_eq!(first_within(&vec![1, 10, 11], range), None);
    assert_eq!(first_within(&Vec::<i64>::new(), range), None);
}

#[test]
fn first_within_skips_the_root_behind_the_ray() {
    let range = Range::new(Real(0.001), Real(f64::INFINITY));
    assert_eq!(first_within(&vec![Real(-1.5), Real(0.5)], range), Some(Real(0.5)));
    assert_eq!(first_within(&vec![Real(1.0), Real(3.0)], range), Some(Real(1.0)));
    assert_eq!(first_within(&vec![Real(-3.0), Real(0.0)], range), None);
}
