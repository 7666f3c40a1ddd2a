use ray_kernel::fixed::ONE;
use ray_kernel::material::Material;

#[test]
fn bright_red_is_a_light() {
    let m = Material::new([2 * ONE, 0, 0], 0, ONE, ONE);
    assert!(m.is_light);
}

#[test]
fn grey_is_not_a_light() {
    let m = Material::new([ONE / 2, ONE / 2, ONE / 2], 0, ONE, ONE);
    assert!(!m.is_light);
}

#[test]
fn exactly_one_is_not_a_light() {
    let m = Material::new([ONE, ONE, ONE], 0, ONE, ONE);
    assert!(!m.is_light);
}

#[test]
fn one_step_over_one_is_a_light_in_any_channel() {
    assert!(Material::new([ONE + 1, 0, 0], 0, ONE, ONE).is_light);
    assert!(Material::new([0, ONE + 1, 0], 0, ONE, ONE).is_light);
    assert!(Material::new([0, 0, ONE + 1], 0, ONE, ONE).is_light);
}

#[test]
fn negative_channels_are_not_light() {
    assert!(!Material::new([-5 * ONE, -ONE, 0], 0, ONE, ONE).is_light);
}

#[test]
fn material_keeps_its_fields() {
    let m = Material::new([100_000, 200_000, 300_000], 400_000, 500_000, 1_450_000);
    assert_eq!(m.color, [100_000, 200_000, 300_000]);
    assert_eq!(m.roughness, 400_000);
    assert_eq!(m.opacity, 500_000);
    assert_eq!(m.refractive_index, 1_450_000);
    assert!(!m.is_light);
}

#[test]
fn material_accepts_values_outside_the_unit_range() {
    let m = Material::new([0, 0, 0], 7 * ONE, -3 * ONE, 0);
    assert_eq!(m.roughness, 7 * ONE);
    assert_eq!(m.opacity, -3 * ONE);
    assert_eq!(m.refractive_index, 0);
}
