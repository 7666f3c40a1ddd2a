use ray_kernel::fixed::ONE;
use ray_kernel::vector3::Vector3;

fn units(x: i64, y: i64, z: i64) -> Vector3 {
    Vector3::new(x * ONE, y * ONE, z * ONE)
}

#[test]
fn new_stores_the_components() {
    let v = Vector3::new(1, -2, 3);
    assert_eq!(v.x, 1);
    assert_eq!(v.y, -2);
    assert_eq!(v.z, 3);
}

#[test]
fn magnitude_of_a_three_four_five_triangle() {
    assert_eq!(units(3, 4, 0).magnitude(), 5 * ONE);
    assert_eq!(units(0, -3, 4).magnitude(), 5 * ONE);
}

#[test]
fn magnitude_of_the_zero_vector_is_zero() {
    assert_eq!(units(0, 0, 0).magnitude(), 0);
}

#[test]
fn magnitude_is_zero_only_for_the_zero_vector() {
    assert_eq!(Vector3::new(1, 0, 0).magnitude(), 1);
    assert_eq!(Vector3::new(0, 0, -1).magnitude(), 1);
}

#[test]
fn magnitude_rounds_down() {
    // sqrt(3) = 1.7320508...
    assert_eq!(units(1, 1, 1).magnitude(), 1_732_050);
    // sqrt(2) = 1.4142135...
    assert_eq!(units(1, 1, 0).magnitude(), 1_414_213);
}

#[test]
fn dot_product_of_two_vectors() {
    // 1*4 + 2*5 + 3*6 = 32
    assert_eq!(units(1, 2, 3).dot(&units(4, 5, 6)), 32 * ONE);
    assert_eq!(units(1, 0, 0).dot(&units(0, 1, 0)), 0);
    // 0.5 * 0.5 + 0.25 * 2 = 0.75
    assert_eq!(Vector3::new(500_000, 250_000, 0).dot(&Vector3::new(500_000, 2_000_000, 0)), 750_000);
}

#[test]
fn dot_product_rounds_the_sum_once() {
    // Each product is a third of a step; the sum is one whole step.
    let a = Vector3::new(1, 1, 1);
    let b = Vector3::new(400_000, 300_000, 300_000);
    assert_eq!(a.dot(&b), 1);
}

#[test]
fn dot_product_commutes() {
    let a = Vector3::new(1_250_000, -3_000_001, 77);
    let b = Vector3::new(-9_999_999, 123_456, 5_000_000);
    assert_eq!(a.dot(&b), b.dot(&a));
}

#[test]
fn cross_product_of_the_axes() {
    assert_eq!(units(1, 0, 0).cross(&units(0, 1, 0)), units(0, 0, 1));
    assert_eq!(units(0, 1, 0).cross(&units(0, 0, 1)), units(1, 0, 0));
    assert_eq!(units(0, 0, 1).cross(&units(1, 0, 0)), units(0, 1, 0));
}

#[test]
fn cross_product_of_two_vectors() {
    // (1,2,3) x (4,5,6) = (2*6 - 3*5, 3*4 - 1*6, 1*5 - 2*4) = (-3, 6, -3)
    assert_eq!(units(1, 2, 3).cross(&units(4, 5, 6)), units(-3, 6, -3));
}

#[test]
fn cross_product_changes_sign_with_the_order() {
    let a = Vector3::new(1_250_000, -3_000_001, 77);
    let b = Vector3::new(-9_999_999, 123_456, 5_000_000);
    assert_eq!(a.cross(&b), -b.cross(&a));
}

#[test]
fn cross_product_with_itself_is_zero() {
    let a = Vector3::new(1_250_000, -3_000_001, 77);
    assert_eq!(a.cross(&a), units(0, 0, 0));
}

#[test]
fn normalized_three_four_five() {
    assert_eq!(units(3, 4, 0).normalized(), Vector3::new(600_000, 800_000, 0));
}

#[test]
fn normalized_axis_vectors() {
    assert_eq!(units(2, 0, 0).normalized(), units(1, 0, 0));
    assert_eq!(units(0, -7, 0).normalized(), units(0, -1, 0));
    assert_eq!(Vector3::new(0, 0, 1).normalized(), units(0, 0, 1));
}

#[test]
fn normalized_diagonal() {
    // 1 / sqrt(3) = 0.5773502...
    assert_eq!(units(1, 1, 1).normalized(), Vector3::new(577_350, 577_350, 577_350));
    assert_eq!(units(-1, 1, -1).normalized(), Vector3::new(-577_350, 577_350, -577_350));
}

#[test]
fn normalized_has_unit_magnitude_within_one_step() {
    let samples = [
        units(1, 1, 1),
        units(3, 4, 0),
        Vector3::new(1, 1, 1),
        Vector3::new(1, 0, 0),
        Vector3::new(-7, 3, 2),
        Vector3::new(123_456_789, -987_654_321, 55),
        Vector3::new(1_000_000_000_000, 1_000_000_000_000, 1_000_000_000_000),
        Vector3::new(-1_000_000_000_000, 1, 0),
        Vector3::new(999_999, 1_000_001, -1_000_000),
        Vector3::new(6, 10, 15),
        units(6, 10, 15),
        Vector3::new(1, 1, 0),
        Vector3::new(2, -3, 6),
        Vector3::new(-1, -2, -2),
    ];
    for v in samples {
        let m = v.normalized().magnitude();
        assert!((m - ONE).abs() <= 1, "{:?} gave {}", v, m);
    }
}

#[test]
fn normalized_rounds_each_component_to_the_nearest_scalar() {
    // 6/19 = 0.3157894..., 10/19 = 0.5263157..., 15/19 = 0.7894736...
    let n = Vector3::new(6, 10, 15).normalized();
    assert_eq!(n, Vector3::new(315_789, 526_316, 789_474));
    assert_eq!(n.magnitude(), ONE);
    assert_eq!(units(6, 10, 15).normalized(), n);
    assert_eq!(units(-6, 10, -15).normalized(), Vector3::new(-315_789, 526_316, -789_474));
    // 2/3 = 0.6666666... rounds up, 1/3 down.
    assert_eq!(units(2, 2, 1).normalized(), Vector3::new(666_667, 666_667, 333_333));
}

#[test]
fn normalized_whole_multiples_point_the_same_way() {
    let v = Vector3::new(6, 10, 15);
    let n = v.normalized();
    for k in [2, 3, 7, 1_000, 1_000_000, 66_000_000_000] {
        let m = Vector3::new(6 * k, 10 * k, 15 * k).normalized();
        assert!((m.x - n.x).abs() <= 1 && (m.y - n.y).abs() <= 1 && (m.z - n.z).abs() <= 1);
        let back = Vector3::new(-6 * k, -10 * k, -15 * k).normalized();
        assert!((back.x + n.x).abs() <= 1 && (back.y + n.y).abs() <= 1 && (back.z + n.z).abs() <= 1);
    }
}

#[test]
fn normalized_short_vectors_keep_their_direction() {
    // A vector of a few steps is normalised to within one step of what a
    // long one along the same line gives.
    assert_eq!(Vector3::new(3, 4, 0).normalized(), Vector3::new(600_000, 800_000, 0));
    assert_eq!(Vector3::new(1, 1, 1).normalized(), Vector3::new(577_351, 577_351, 577_351));
    assert_eq!(Vector3::new(1, 1, 1).normalized().magnitude(), ONE + 1);
    assert_eq!(units(1, 1, 1).normalized().magnitude(), ONE - 1);
}

#[test]
fn addition_of_vectors() {
    assert_eq!(units(1, 2, 3) + units(4, 5, 6), units(5, 7, 9));
}

#[test]
fn addition_commutes() {
    let a = Vector3::new(1_250_000, -3_000_001, 77);
    let b = Vector3::new(-9_999_999, 123_456, 5_000_000);
    assert_eq!(a + b, b + a);
}

#[test]
fn subtraction_of_vectors() {
    assert_eq!(units(1, 2, 3) - units(4, 5, 6), units(-3, -3, -3));
}

#[test]
fn componentwise_product() {
    assert_eq!(units(1, 2, 3) * units(4, 5, 6), units(4, 10, 18));
    assert_eq!(
        Vector3::new(500_000, -500_000, 1) * Vector3::new(500_000, 500_000, 500_000),
        Vector3::new(250_000, -250_000, 0)
    );
}

#[test]
fn componentwise_quotient() {
    assert_eq!(units(4, 10, 18) / units(4, 5, 6), units(1, 2, 3));
    assert_eq!(units(1, -1, 2) / units(3, 3, -3), Vector3::new(333_333, -333_333, -666_666));
}

#[test]
fn scalar_product_on_the_right() {
    assert_eq!(units(1, -2, 3) * (2 * ONE), units(2, -4, 6));
    assert_eq!(units(1, -2, 3) * (ONE / 2), Vector3::new(500_000, -1_000_000, 1_500_000));
    assert_eq!(units(1, -2, 3) * 0, units(0, 0, 0));
}

#[test]
fn scalar_product_on_the_left() {
    assert_eq!((2 * ONE) * units(1, -2, 3), units(2, -4, 6));
    assert_eq!((2 * ONE) * &units(1, -2, 3), units(2, -4, 6));
    assert_eq!((ONE / 2) * units(1, -2, 3), units(1, -2, 3) * (ONE / 2));
}

#[test]
fn scalar_quotient() {
    assert_eq!(units(2, -4, 6) / (2 * ONE), units(1, -2, 3));
    assert_eq!(units(1, 1, 1) / (3 * ONE), Vector3::new(333_333, 333_333, 333_333));
    assert_eq!(&units(1, 1, 1) / (-3 * ONE), Vector3::new(-333_333, -333_333, -333_333));
}

#[test]
fn negation() {
    assert_eq!(-units(1, -2, 3), units(-1, 2, -3));
    assert_eq!(-&units(1, -2, 3), units(-1, 2, -3));
    assert_eq!(-units(0, 0, 0), units(0, 0, 0));
}

#[test]
fn operators_agree_for_owned_and_borrowed_operands() {
    let a = Vector3::new(1_250_000, -3_000_001, 77);
    let b = Vector3::new(-9_999_999, 123_456, 5_000_000);
    assert_eq!(a + b, &a + b);
    assert_eq!(a + b, a + &b);
    assert_eq!(a + b, &a + &b);
    assert_eq!(a - b, &a - b);
    assert_eq!(a - b, a - &b);
    assert_eq!(a - b, &a - &b);
    assert_eq!(a * b, &a * b);
    assert_eq!(a * b, a * &b);
    assert_eq!(a * b, &a * &b);
    assert_eq!(a / b, &a / b);
    assert_eq!(a / b, a / &b);
    assert_eq!(a / b, &a / &b);
    assert_eq!(a * 1_500_000, &a * 1_500_000);
    assert_eq!(a / 1_500_000, &a / 1_500_000);
}

#[test]
fn stretch_then_shrink_gives_the_vector_back() {
    let v = Vector3::new(1_250_000, -3_000_001, 77);
    // A scalar of magnitude one or more: each component within one step.
    for s in [ONE, -ONE, 3 * ONE, 1_234_567, -7_654_321] {
        let back = (v * s) / s;
        assert!((back.x - v.x).abs() <= 1, "{} {:?}", s, back);
        assert!((back.y - v.y).abs() <= 1, "{} {:?}", s, back);
        assert!((back.z - v.z).abs() <= 1, "{} {:?}", s, back);
        assert!(back.x.abs() <= v.x.abs() && back.y.abs() <= v.y.abs() && back.z.abs() <= v.z.abs());
    }
    assert_eq!((v * ONE) / ONE, v);
    assert_eq!((v * (2 * ONE)) / (2 * ONE), v);
}

#[test]
fn stretch_then_shrink_by_a_small_scalar_is_coarser() {
    let v = Vector3::new(1_250_000, -3_000_001, 77);
    // A thousandth: each component within 1 + 1000 steps.
    let s = 1_000;
    let back = (v * s) / s;
    assert_eq!(back, Vector3::new(1_250_000, -3_000_000, 0));
    assert!((back.x - v.x).abs() * s < s + ONE);
    assert!((back.y - v.y).abs() * s < s + ONE);
    assert!((back.z - v.z).abs() * s < s + ONE);
}

#[test]
fn vectors_compare_by_components() {
    assert_eq!(units(1, 2, 3), units(1, 2, 3));
    assert_ne!(units(1, 2, 3), units(1, 2, 4));
    let v = units(1, 2, 3);
    let w = v;
    assert_eq!(v, w);
}

#[test]
fn in_range_is_the_coordinate_range() {
    let limit = 1_000_000 * ONE;
    assert!(Vector3::new(0, 0, 0).in_range());
    assert!(Vector3::new(limit, -limit, limit).in_range());
    assert!(!Vector3::new(limit + 1, 0, 0).in_range());
    assert!(!Vector3::new(0, -limit - 1, 0).in_range());
    assert!(!Vector3::new(0, 0, i64::MIN).in_range());
}

#[test]
fn is_zero_holds_of_the_zero_vector_alone() {
    assert!(Vector3::new(0, 0, 0).is_zero());
    assert!(!Vector3::new(1, 0, 0).is_zero());
    assert!(!Vector3::new(0, -1, 0).is_zero());
    assert!(!Vector3::new(0, 0, 1).is_zero());
}
