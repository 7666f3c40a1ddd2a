use ray_kernel::fixed::ONE;
use ray_kernel::material::Material;
use ray_kernel::ray::{Ray, RayResult};
use ray_kernel::vector3::Vector3;
use ray_kernel::visible_object::VisibleObject;

fn units(x: i64, y: i64, z: i64) -> Vector3 {
    Vector3::new(x * ONE, y * ONE, z * ONE)
}

fn grey() -> Material {
    Material::new([ONE / 2, ONE / 2, ONE / 2], 0, ONE, ONE)
}

fn unit_sphere() -> VisibleObject {
    VisibleObject::Sphere { position: units(0, 0, 0), radius: ONE, material: grey() }
}

fn hit_point(result: RayResult) -> Option<Vector3> {
    match result {
        RayResult::RayHit { target: _, point } => Some(point),
        RayResult::RayMiss => None,
    }
}

#[test]
fn ray_toward_the_sphere_hits_the_near_side() {
    let ray = Ray::new(units(0, 0, -5), units(0, 0, 1));
    let result = unit_sphere().test_intersect(ray);
    assert_eq!(result, RayResult::RayHit { target: unit_sphere(), point: units(0, 0, -1) });
}

#[test]
fn hit_carries_a_copy_of_the_object() {
    let sphere = VisibleObject::Sphere {
        position: units(0, 0, 0),
        radius: ONE,
        material: Material::new([2 * ONE, 0, 0], 100_000, 900_000, 1_500_000),
    };
    let ray = Ray::new(units(0, 0, -5), units(0, 0, 1));
    match sphere.test_intersect(ray) {
        RayResult::RayHit { target, point } => {
            assert_eq!(target, sphere);
            assert_eq!(point, units(0, 0, -1));
        }
        RayResult::RayMiss => panic!("the ray should hit"),
    }
}

#[test]
fn ray_beside_the_sphere_misses() {
    let ray = Ray::new(units(5, 5, 5), units(1, 0, 0));
    assert_eq!(unit_sphere().test_intersect(ray), RayResult::RayMiss);
}

#[test]
fn ray_on_the_surface_pointing_in_hits_at_its_origin() {
    let ray = Ray::new(units(0, 0, -1), units(0, 0, 1));
    assert_eq!(hit_point(unit_sphere().test_intersect(ray)), Some(units(0, 0, -1)));
}

#[test]
fn ray_on_the_surface_along_the_tangent_hits_at_its_origin() {
    let ray = Ray::new(units(1, 0, 0), units(0, 1, 0));
    assert_eq!(hit_point(unit_sphere().test_intersect(ray)), Some(units(1, 0, 0)));
}

#[test]
fn ray_on_the_surface_pointing_out_misses() {
    let ray = Ray::new(units(0, 0, 1), units(0, 0, 1));
    assert_eq!(unit_sphere().test_intersect(ray), RayResult::RayMiss);
}

#[test]
fn grazing_ray_hits() {
    let ray = Ray::new(units(1, 0, -5), units(0, 0, 1));
    assert_eq!(hit_point(unit_sphere().test_intersect(ray)), Some(units(1, 0, 0)));
}

#[test]
fn ray_just_past_the_edge_misses() {
    let ray = Ray::new(Vector3::new(ONE + 1, 0, -5 * ONE), units(0, 0, 1));
    assert_eq!(unit_sphere().test_intersect(ray), RayResult::RayMiss);
}

#[test]
fn ray_from_inside_the_sphere_misses() {
    let ray = Ray::new(units(0, 0, 0), units(0, 0, 1));
    assert_eq!(unit_sphere().test_intersect(ray), RayResult::RayMiss);
    let off_centre = Ray::new(Vector3::new(0, 0, -ONE / 2), units(0, 0, 1));
    assert_eq!(unit_sphere().test_intersect(off_centre), RayResult::RayMiss);
}

#[test]
fn ray_with_the_sphere_behind_it_misses() {
    let ray = Ray::new(units(0, 0, 5), units(0, 0, 1));
    assert_eq!(unit_sphere().test_intersect(ray), RayResult::RayMiss);
}

#[test]
fn ray_pointing_away_misses() {
    let ray = Ray::new(units(0, 0, -5), units(0, 0, -1));
    assert_eq!(unit_sphere().test_intersect(ray), RayResult::RayMiss);
}

#[test]
fn direction_is_normalized_before_the_test() {
    let short = Ray::new(units(0, 0, -5), Vector3::new(0, 0, 1));
    let long = Ray::new(units(0, 0, -5), units(0, 0, 1_000));
    assert_eq!(hit_point(unit_sphere().test_intersect(short)), Some(units(0, 0, -1)));
    assert_eq!(hit_point(unit_sphere().test_intersect(long)), Some(units(0, 0, -1)));
}

#[test]
fn sphere_away_from_the_origin() {
    let sphere = VisibleObject::Sphere { position: units(10, 0, 0), radius: 2 * ONE, material: grey() };
    let ray = Ray::new(units(0, 0, 0), units(1, 0, 0));
    assert_eq!(hit_point(sphere.test_intersect(ray)), Some(units(8, 0, 0)));
    let back = Ray::new(units(20, 0, 0), units(-1, 0, 0));
    assert_eq!(hit_point(sphere.test_intersect(back)), Some(units(12, 0, 0)));
}

#[test]
fn oblique_ray_hits_near_the_surface() {
    // From (-3, -3, -3) toward the centre: the hit is one unit short of the
    // centre along the diagonal, each coordinate -1/sqrt(3), to within a
    // hundred-thousandth.
    let ray = Ray::new(units(-3, -3, -3), units(1, 1, 1));
    let point = hit_point(unit_sphere().test_intersect(ray)).expect("the ray should hit");
    for c in [point.x, point.y, point.z] {
        assert!((c + 577_350).abs() <= 10, "{:?}", point);
    }
    let distance = point.magnitude();
    assert!((distance - ONE).abs() <= 10, "{}", distance);
}

#[test]
fn intersecting_twice_gives_the_same_result() {
    let sphere = unit_sphere();
    let hit = Ray::new(units(-3, -3, -3), units(1, 1, 1));
    assert_eq!(sphere.test_intersect(hit), sphere.test_intersect(hit));
    let miss = Ray::new(units(5, 5, 5), units(1, 0, 0));
    assert_eq!(sphere.test_intersect(miss), sphere.test_intersect(miss));
}

#[test]
fn far_sphere_within_the_coordinate_range() {
    let sphere = VisibleObject::Sphere {
        position: units(1_000_000, 1_000_000, 1_000_000),
        radius: ONE,
        material: grey(),
    };
    let ray = Ray::new(units(-1_000_000, 1_000_000, 1_000_000), units(1, 0, 0));
    assert_eq!(
        hit_point(sphere.test_intersect(ray)),
        Some(Vector3::new(999_999 * ONE, 1_000_000 * ONE, 1_000_000 * ONE))
    );
}

#[test]
fn new_hit_holds_what_it_was_given() {
    let result = RayResult::new_hit(unit_sphere(), units(1, 2, 3));
    assert_eq!(result, RayResult::RayHit { target: unit_sphere(), point: units(1, 2, 3) });
    assert_ne!(result, RayResult::new_miss());
}

#[test]
fn hits_lie_near_the_surface() {
    let sphere = VisibleObject::Sphere {
        position: Vector3::new(1_250_000, -3_000_001, 77),
        radius: 2_500_000,
        material: grey(),
    };
    let centre = Vector3::new(1_250_000, -3_000_001, 77);
    let origins = [units(-10, 4, 3), units(7, 7, 7), units(0, -20, 1), Vector3::new(1, 2, 30 * ONE)];
    let mut hits = 0;
    for origin in origins {
        for aim in [centre, Vector3::new(2_250_000, -2_000_001, 1_000_077)] {
            let ray = Ray::new(origin, aim - origin);
            if let Some(point) = hit_point(sphere.test_intersect(ray)) {
                hits += 1;
                let away = point - centre;
                let gap = (away.magnitude() - 2_500_000).abs();
                assert!(gap <= 200, "{:?} from {:?}: {}", point, origin, gap);
            }
        }
    }
    assert!(hits >= 4);
}

#[test]
fn ray_from_just_inside_the_surface_misses() {
    // The origin is inside by less than one step: its squared distance from
    // the centre is 0.9999988.
    let origin = Vector3::new(599_999, 0, -800_000);
    assert_eq!(origin.magnitude(), 999_999);
    let ray = Ray::new(origin, units(0, 0, 1));
    assert_eq!(unit_sphere().test_intersect(ray), RayResult::RayMiss);
    // One step further out the origin is on the surface, and the ray hits
    // there.
    let on_surface = Vector3::new(600_000, 0, -800_000);
    let grazing = Ray::new(on_surface, units(0, 0, 1));
    assert_eq!(hit_point(unit_sphere().test_intersect(grazing)), Some(on_surface));
}
