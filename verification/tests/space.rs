use hungry_snake::space::{
    coord_lowered, coord_raised, Position, CONSUMPTION_RADIUS, REACH_CIRCUMFERENCE, SPEED,
    SUBUNITS_PER_UNIT,
};

#[test]
fn radius_is_that_of_a_circle_of_circumference_400() {
    assert_eq!(REACH_CIRCUMFERENCE, 400);
    assert_eq!(CONSUMPTION_RADIUS, 63_661_977);
    let exact = 400.0_f64 / (2.0 * std::f64::consts::PI) * SUBUNITS_PER_UNIT as f64;
    assert_eq!(exact.floor() as i64, CONSUMPTION_RADIUS);
}

#[test]
fn a_point_reaches_itself() {
    let p = Position::new(5, -7);
    assert!(p.reaches(&p));
}

#[test]
fn reach_ends_just_before_the_radius() {
    let origin = Position::new(0, 0);
    assert!(origin.reaches(&Position::new(CONSUMPTION_RADIUS - 1, 0)));
    assert!(!origin.reaches(&Position::new(CONSUMPTION_RADIUS, 0)));
    assert!(origin.reaches(&Position::new(0, -(CONSUMPTION_RADIUS - 1))));
    assert!(!origin.reaches(&Position::new(0, -CONSUMPTION_RADIUS)));
}

#[test]
fn reach_is_euclidean() {
    let origin = Position::new(0, 0);
    // 3-4-5 triangles: the hypotenuse is 63_661_975 and 63_661_980.
    assert!(origin.reaches(&Position::new(3 * 12_732_395, 4 * 12_732_395)));
    assert!(!origin.reaches(&Position::new(3 * 12_732_396, 4 * 12_732_396)));
    // On the diagonal each coordinate may be well below the radius.
    assert!(origin.reaches(&Position::new(45_015_815, 45_015_815)));
    assert!(!origin.reaches(&Position::new(45_015_816, 45_015_816)));
    assert!(!origin.reaches(&Position::new(-45_015_816, 45_015_816)));
}

#[test]
fn reach_is_symmetric_and_relative() {
    let a = Position::new(1_000_000_000, -2_000_000_000);
    let b = Position::new(1_000_000_000 + 63_000_000, -2_000_000_000);
    let c = Position::new(1_000_000_000, -2_000_000_000 - 64_000_000);
    assert!(a.reaches(&b));
    assert!(b.reaches(&a));
    assert!(!a.reaches(&c));
    assert!(!c.reaches(&a));
}

#[test]
fn reach_between_the_far_corners_of_the_plane() {
    let low = Position::new(i64::MIN, i64::MIN);
    let high = Position::new(i64::MAX, i64::MAX);
    assert!(!low.reaches(&high));
    assert!(!high.reaches(&low));
    assert!(high.reaches(&Position::new(i64::MAX - 10, i64::MAX)));
}

#[test]
fn travel_is_speed_times_delta() {
    assert_eq!(SPEED, 150);
    assert_eq!(coord_raised(0, 1_000_000), 150_000_000);
    assert_eq!(coord_lowered(0, 1_000_000), -150_000_000);
    assert_eq!(coord_raised(-7, 16_667), -7 + 150 * 16_667);
    assert_eq!(coord_lowered(40, 0), 40);
}

#[test]
fn travel_stops_at_the_edge_of_the_plane() {
    assert_eq!(coord_raised(i64::MAX - 100, 1), i64::MAX);
    assert_eq!(coord_lowered(i64::MIN + 149, 1), i64::MIN);
    assert_eq!(coord_lowered(i64::MIN + 150, 1), i64::MIN);
    assert_eq!(coord_lowered(i64::MIN + 151, 1), i64::MIN + 1);
    assert_eq!(coord_raised(0, u64::MAX), i64::MAX);
    assert_eq!(coord_lowered(0, u64::MAX), i64::MIN);
    assert_eq!(coord_raised(i64::MIN, u64::MAX), i64::MAX);
}

#[test]
fn positions_from_whole_units() {
    assert_eq!(Position::from_units(3, -4), Some(Position::new(3_000_000, -4_000_000)));
    assert_eq!(Position::from_units(0, 0), Some(Position::new(0, 0)));
    assert_eq!(Position::from_units(i64::MAX, 0), None);
    assert_eq!(Position::from_units(0, i64::MIN / 1000), None);
    assert_eq!(
        Position::from_units(9_223_372_036_854, -9_223_372_036_854),
        Some(Position::new(9_223_372_036_854_000_000, -9_223_372_036_854_000_000))
    );
    assert_eq!(Position::from_units(9_223_372_036_855, 0), None);
}
