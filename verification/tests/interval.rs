use yarr::interval::Interval;

fn range(min: f64, max: f64) -> Interval<f64> {
    Interval::new(min, max)
}

#[test]
fn test_size() {
    let i = range(3.0, 7.0);
    assert_eq!(i.size(), 4.0);
}

#[test]
fn test_contains() {
    let i = range(1.0, 2.0);
    assert!(i.contains(1.5));
    assert!(i.contains(1.0));
    assert!(i.contains(2.0));

    assert!(!i.contains(0.5));
    assert!(!i.contains(2.5));
}

#[test]
fn test_surrounds() {
    let i = range(1.0, 2.0);
    assert!(i.surrounds(1.5));
    assert!(!i.surrounds(1.0));
    assert!(!i.surrounds(2.0));

    assert!(!i.surrounds(0.5));
    assert!(!i.surrounds(2.5));
}

#[test]
fn test_clamp() {
    let i = range(1.0, 2.0);
    assert_eq!(i.clamp(0.5), 1.0);
    assert_eq!(i.clamp(2.5), 2.0);
    assert_eq!(i.clamp(1.5), 1.5);
}

#[test]
fn interval_test_add() {
    assert_eq!(range(1.0, 2.0) + range(3.0, 4.0), range(1.0, 4.0));
    assert_eq!(range(2.0, 3.0) + range(1.0, 4.0), range(1.0, 4.0));
}

#[test]
fn interval_test_add_assign() {
    let mut i = range(1.0, 2.0);
    i.add_assign(range(3.0, 4.0));
    assert_eq!(i, range(1.0, 4.0));

    let mut i = range(2.0, 3.0);
    i.add_assign(range(1.0, 4.0));
    assert_eq!(i, range(1.0, 4.0));
}

#[test]
fn shift_moves_both_ends() {
    assert_eq!(range(1.0, 2.0) + 0.5, range(1.5, 2.5));
}

#[test]
fn add_assign_scalar_widens_by_the_scalar() {
    let mut i = range(1.0, 2.0);
    i.add_assign_scalar(0.5);
    assert_eq!(i, range(0.5, 2.5));
}

#[test]
fn pad_widens_by_half_at_each_end() {
    let mut i = range(1.0, 2.0);
    i.pad(0.5);
    assert_eq!(i, range(0.75, 2.25));
    assert_eq!(range(1.0, 2.0).padded(0.5), range(0.75, 2.25));
}

#[test]
fn pad_keeps_the_centre() {
    for (a, b, d) in [(1.0, 2.0, 0.5), (-3.0, 9.0, 2.0), (0.0, 0.0, 1e-4)] {
        let p = range(a, b).padded(d);
        assert_eq!((p.min + p.max) / 2.0, (a + b) / 2.0);
    }
}

#[test]
fn empty_universe_and_from() {
    let e = Interval::<f64>::empty();
    assert_eq!(e.min, f64::INFINITY);
    assert_eq!(e.max, f64::NEG_INFINITY);
    assert!(!e.contains(0.0));
    let u = Interval::<f64>::universe();
    assert_eq!(u.min, f64::NEG_INFINITY);
    assert_eq!(u.max, f64::INFINITY);
    assert!(u.contains(1e300) && u.surrounds(-1e300));
    let f = Interval::from(0.001);
    assert_eq!(f.min, 0.001);
    assert_eq!(f.max, f64::INFINITY);
}

#[test]
fn surrounds_implies_contains() {
    let i = range(-1.0, 1.0);
    for x in [-2.0, -1.0, -0.5, 0.0, -0.0, 0.5, 1.0, 2.0, f64::NAN, f64::INFINITY] {
        assert!(!i.surrounds(x) || i.contains(x));
    }
}

#[test]
fn union_is_commutative() {
    let items = [range(1.0, 2.0), range(-3.0, 0.5), range(0.0, 0.0), range(1.5, 9.0)];
    for a in items {
        for b in items {
            assert_eq!(a + b, b + a);
        }
    }
}

#[test]
fn union_absorbs_a_point_inside() {
    let i = range(-1.0, 4.0);
    for x in [-1.0, 0.0, 2.5, 4.0] {
        assert_eq!(i + range(x, x), i);
        assert_eq!(range(x, x) + i, i);
    }
}

#[test]
fn union_with_empty_is_the_other() {
    let i = range(-1.0, 4.0);
    assert_eq!(Interval::empty() + i, i);
    let mut e = Interval::empty();
    e.add_assign(i);
    assert_eq!(e, i);
}

#[test]
fn add_assign_passes_over_what_is_not_a_number() {
    let mut i = range(f64::NAN, f64::NAN);
    i.add_assign(range(1.0, 2.0));
    assert_eq!(i, range(1.0, 2.0));
    let mut j = range(1.0, 2.0);
    j.add_assign(range(f64::NAN, f64::NAN));
    assert_eq!(j, range(1.0, 2.0));
}

#[test]
fn comparisons_with_what_is_not_a_number_fail() {
    let i = range(0.0, 1.0);
    assert!(!i.contains(f64::NAN));
    assert!(!i.surrounds(f64::NAN));
    assert!(i.clamp(f64::NAN).is_nan());
}
