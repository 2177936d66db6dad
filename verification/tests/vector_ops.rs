use raycore::color::Color;
use raycore::error::ConfigurationError;
use raycore::structures::IVec3;

#[test]
fn new_and_accessors() {
    let v = IVec3::new(1, -2, 3);
    assert_eq!(v.x, 1);
    assert_eq!(v.y, -2);
    assert_eq!(v.z, 3);
}

#[test]
fn to_array_round_trip() {
    let v = IVec3::new(4, 5, 6);
    let a = v.to_array();
    assert_eq!(a, [4, 5, 6]);
    let w = IVec3::from_array(a);
    assert_eq!(w, v);
}

#[test]
fn splat_fills_components() {
    let v = IVec3::splat(7);
    assert_eq!(v, IVec3::new(7, 7, 7));
}

#[test]
fn from_slice_reads_first_three() {
    let s: [i32; 5] = [9, 8, 7, 6, 5];
    let v = IVec3::from_slice(&s);
    assert_eq!(v, IVec3::new(9, 8, 7));
}

#[test]
fn dot_exact_value() {
    let a = IVec3::new(1, 2, 3);
    let b = IVec3::new(4, -5, 6);
    assert_eq!(a.dot(&b), 4 - 10 + 18);
}

#[test]
fn dot_is_commutative() {
    let pairs = [
        (IVec3::new(1, 2, 3), IVec3::new(4, 5, 6)),
        (IVec3::new(-7, 0, 2), IVec3::new(3, -1, 9)),
        (IVec3::new(0, 0, 0), IVec3::new(11, -13, 17)),
    ];
    for (a, b) in pairs {
        assert_eq!(a.dot(&b), b.dot(&a));
    }
}

#[test]
fn cross_exact_value() {
    let a = IVec3::new(1, 0, 0);
    let b = IVec3::new(0, 1, 0);
    assert_eq!(a.cross(b), IVec3::new(0, 0, 1));
}

#[test]
fn cross_is_anticommutative() {
    let pairs = [
        (IVec3::new(1, 2, 3), IVec3::new(4, 5, 6)),
        (IVec3::new(-7, 0, 2), IVec3::new(3, -1, 9)),
        (IVec3::new(2, 2, 2), IVec3::new(2, 2, 2)),
    ];
    for (a, b) in pairs {
        let ab = a.cross(b);
        let ba = b.cross(a);
        assert_eq!(ab, IVec3::new(-ba.x, -ba.y, -ba.z));
    }
}

#[test]
fn cross_of_parallel_vectors_is_zero() {
    let a = IVec3::new(2, -4, 6);
    let b = IVec3::new(1, -2, 3);
    assert_eq!(a.cross(b), IVec3::new(0, 0, 0));
}

#[test]
fn abs_negates_negative_components() {
    let v = IVec3::new(-3, 0, 5);
    assert_eq!(v.abs(), IVec3::new(3, 0, 5));
}

#[test]
fn length_squared_exact_value() {
    let v = IVec3::new(3, 4, 12);
    assert_eq!(v.length_squared(), 9 + 16 + 144);
}

#[test]
fn distance_squared_exact_value() {
    let a = IVec3::new(1, 2, 3);
    let b = IVec3::new(4, 6, 3);
    assert_eq!(a.distance_squared(&b), 9 + 16);
}

#[test]
fn length_of_pythagorean_triple() {
    let v = IVec3::new(3, 4, 0);
    assert_eq!(v.length(), 5);
}

#[test]
fn length_rounds_down() {
    let v = IVec3::new(1, 1, 1);
    assert_eq!(v.length(), 1);
}

#[test]
fn sqrt_is_elementwise_floor() {
    let v = IVec3::new(9, 15, 26);
    assert_eq!(v.sqrt(), IVec3::new(3, 3, 5));
}

#[test]
fn sqrt_of_negative_component_is_zero() {
    let v = IVec3::new(-4, 0, 1);
    assert_eq!(v.sqrt(), IVec3::new(0, 0, 1));
}

#[test]
fn add_sub_mul_div_componentwise() {
    let a = IVec3::new(8, -6, 10);
    let b = IVec3::new(2, 3, -5);
    assert_eq!(a.add(b), IVec3::new(10, -3, 5));
    assert_eq!(a.sub(b), IVec3::new(6, -9, 15));
    assert_eq!(a.mul(b), IVec3::new(16, -18, -50));
    assert_eq!(a.div(b), IVec3::new(4, -2, -2));
}

#[test]
fn division_truncates_toward_zero() {
    let a = IVec3::new(7, -7, 7);
    let b = IVec3::new(2, 2, -2);
    assert_eq!(a.div(b), IVec3::new(3, -3, -3));
}

#[test]
fn scalar_forms() {
    let a = IVec3::new(8, -6, 10);
    assert_eq!(a.add_scalar(2), IVec3::new(10, -4, 12));
    assert_eq!(a.sub_scalar(2), IVec3::new(6, -8, 8));
    assert_eq!(a.mul_scalar(-3), IVec3::new(-24, 18, -30));
    assert_eq!(a.div_scalar(2), IVec3::new(4, -3, 5));
}

#[test]
fn assign_forms() {
    let mut a = IVec3::new(1, 2, 3);
    a.add_assign(IVec3::new(10, 10, 10));
    assert_eq!(a, IVec3::new(11, 12, 13));
    a.sub_assign(IVec3::new(1, 2, 3));
    assert_eq!(a, IVec3::new(10, 10, 10));
    a.mul_assign(IVec3::new(2, -2, 0));
    assert_eq!(a, IVec3::new(20, -20, 0));
    a.div_assign(IVec3::new(3, 7, 5));
    assert_eq!(a, IVec3::new(6, -2, 0));
}

#[test]
fn normalize_axis_vector_is_exactly_unit() {
    // An axis-aligned vector normalizes without any rounding: the length
    // of the result is exactly one in fixed-point units (SCALE = 256).
    let v = IVec3::new(1792, 0, 0);
    let n = v.normalize().unwrap();
    assert_eq!(n, IVec3::new(256, 0, 0));
    assert_eq!(n.length(), 256);
}

#[test]
fn normalize_general_vector_is_unit_within_tolerance() {
    // For a general vector the truncated divisions leave the length within
    // a few units of one (SCALE = 256).
    let cases = [
        IVec3::new(3, 4, 0),
        IVec3::new(100, 200, 300),
        IVec3::new(-70, 110, -130),
        IVec3::new(1000000, -999999, 123456),
    ];
    for v in cases {
        let n = v.normalize().unwrap();
        let len = n.length();
        assert!(
            (250..=262).contains(&len),
            "length {} out of tolerance for {:?}",
            len,
            v
        );
    }
}

#[test]
fn normalize_zero_vector_is_degenerate() {
    let v = IVec3::new(0, 0, 0);
    assert_eq!(v.normalize(), Err(ConfigurationError::DegenerateVector));
}

#[test]
fn color_into_vec_and_array() {
    let c = Color::new(12, 34, 56);
    assert_eq!(c.into_vec(), vec![12u8, 34, 56]);
    assert_eq!(c.into_array(), [12u8, 34, 56]);
}
