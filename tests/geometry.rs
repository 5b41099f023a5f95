use std::f64::consts::PI;

use gestures::geom::{distance, isqrt, vector_angle, Angle, Direction, Point, UAngle};

fn radians(r: f64) -> Angle {
    Angle::from_millidegrees((r.to_degrees() * 1000.0).round() as i64)
}

#[test]
fn angle_conversions() {
    assert_eq!(Angle::from_degrees(0), radians(0.0));
    assert_eq!(Angle::from_degrees(90), radians(PI / 2.0));
    assert_eq!(Angle::from_degrees(180), radians(PI));
    assert_eq!(Angle::from_degrees(270), radians(1.5 * PI));
    assert_eq!(Angle::from_degrees(360), radians(2.0 * PI));
    assert_eq!(Angle::from_degrees(360), radians(0.0));
}

#[test]
fn construction_normalizes_into_one_turn() {
    assert_eq!(Angle::from_degrees(-90).to_millidegrees(), 270000);
    assert_eq!(Angle::from_degrees(765).to_millidegrees(), 45000);
    assert_eq!(Angle::from_millidegrees(-1).to_millidegrees(), 359999);
    assert_eq!(Angle::from_millidegrees(i64::MIN).to_millidegrees(), i64::MIN.rem_euclid(360000));
    assert_eq!(Angle::from_degrees(i64::MAX).to_degrees(), ((i64::MAX as i128 * 1000).rem_euclid(360000) / 1000) as i64);
    for m in [-720001i64, -360000, -1, 0, 1, 359999, 360000, 1000000] {
        let a = Angle::from_millidegrees(m).to_millidegrees();
        assert!((0..360000).contains(&a));
    }
}

#[test]
fn whole_turns_do_not_change_an_angle() {
    for k in -3i64..=3 {
        assert_eq!(Angle::from_millidegrees(12345 + 360000 * k), Angle::from_millidegrees(12345));
        assert_eq!(Angle::from_degrees(-30 + 360 * k), Angle::from_degrees(330));
    }
}

#[test]
fn abs_is_distance_to_zero() {
    assert_eq!(Angle::from_degrees(180).abs().to_millidegrees(), 180000);
    assert_eq!(Angle::from_degrees(-90).abs().to_millidegrees(), 90000);
    assert_eq!(Angle::from_degrees(270).abs().to_degrees(), 90);
    assert_eq!(Angle::from_degrees(0).abs().to_millidegrees(), 0);
    assert_eq!(Angle::from_millidegrees(359999).abs().to_millidegrees(), 1);
    for m in (0..360000).step_by(7919) {
        let a = Angle::from_millidegrees(m).abs().to_millidegrees();
        assert!((0..=180000).contains(&a));
    }
}

#[test]
fn plus_minus_and_negation_wrap() {
    let a = Angle::from_degrees(300);
    let b = Angle::from_degrees(90);
    assert_eq!(a.plus(b), Angle::from_degrees(30));
    assert_eq!(b.minus(a), Angle::from_degrees(150));
    assert_eq!(b.negated(), Angle::from_degrees(270));
    assert_eq!(Angle::from_degrees(0).negated(), Angle::from_degrees(0));
}

#[test]
fn interpolate_takes_the_shorter_arc() {
    let half = 500000;
    assert_eq!(Angle::from_degrees(315).interpolate(Angle::from_degrees(45), half), Angle::from_degrees(0));
    assert_eq!(Angle::from_degrees(45).interpolate(Angle::from_degrees(315), half), Angle::from_degrees(0));
    assert_eq!(Angle::from_degrees(135).interpolate(Angle::from_degrees(225), half), Angle::from_degrees(180));
    assert_eq!(Angle::from_degrees(225).interpolate(Angle::from_degrees(135), half), Angle::from_degrees(180));
    assert_eq!(Angle::from_degrees(10).interpolate(Angle::from_degrees(50), 250000), Angle::from_degrees(20));
}

#[test]
fn interpolate_ends() {
    for (a, b) in [(0i64, 0i64), (10, 350), (350, 10), (90, 270), (270, 90), (123, 45)] {
        let x = Angle::from_degrees(a);
        let y = Angle::from_degrees(b);
        assert_eq!(x.interpolate(y, 0), x);
        assert_eq!(x.interpolate(y, 1000000), y);
    }
}

#[test]
fn direction_round_trip() {
    for d in [Direction::Up, Direction::Down, Direction::Left, Direction::Right] {
        for t in [0u32, 1, 10, 25, 45] {
            assert_eq!(Direction::from_angle(d.to_angle(), UAngle::from_degrees(t)), Some(d));
        }
    }
    assert_eq!(Direction::Right.to_angle().to_degrees(), 0);
    assert_eq!(Direction::Up.to_angle().to_degrees(), 90);
    assert_eq!(Direction::Left.to_angle().to_degrees(), 180);
    assert_eq!(Direction::Down.to_angle().to_degrees(), 270);
}

#[test]
fn direction_from_angle_with_ten_degrees() {
    let t = UAngle::from_degrees(10);
    assert_eq!(Direction::from_angle(Angle::from_degrees(0), t), Some(Direction::Right));
    assert_eq!(Direction::from_angle(Angle::from_degrees(9), t), Some(Direction::Right));
    assert_eq!(Direction::from_angle(Angle::from_degrees(351), t), Some(Direction::Right));
    assert_eq!(Direction::from_angle(Angle::from_degrees(-9), t), Some(Direction::Right));
    assert_eq!(Direction::from_angle(Angle::from_degrees(11), t), None);
    assert_eq!(Direction::from_angle(Angle::from_degrees(349), t), None);
    assert_eq!(Direction::from_angle(Angle::from_degrees(90), t), Some(Direction::Up));
    assert_eq!(Direction::from_angle(Angle::from_degrees(180), t), Some(Direction::Left));
    assert_eq!(Direction::from_angle(Angle::from_degrees(270), t), Some(Direction::Down));
    assert_eq!(Direction::from_angle(Angle::from_degrees(45), UAngle::from_degrees(45)), Some(Direction::Right));
}

#[test]
fn uangle_sum_drops_whole_turns() {
    assert_eq!(UAngle::from_degrees(20).plus(UAngle::from_degrees(25)).to_degrees(), 45);
    assert_eq!(UAngle::from_degrees(200).plus(UAngle::from_degrees(170)).to_degrees(), 10);
}

#[test]
fn uangle_keeps_magnitude() {
    assert_eq!(UAngle::from_degrees(25).to_millidegrees(), 25000);
    assert_eq!(UAngle::from_degrees(400).to_degrees(), 40);
    assert_eq!(UAngle::from_millidegrees(1500).to_degrees(), 1);
}

#[test]
fn vector_angle_to_the_millidegree() {
    assert_eq!(vector_angle(5, 0).to_millidegrees(), 0);
    assert_eq!(vector_angle(0, 5).to_millidegrees(), 90000);
    assert_eq!(vector_angle(-5, 0).to_millidegrees(), 180000);
    assert_eq!(vector_angle(0, -5).to_millidegrees(), 270000);
    assert_eq!(vector_angle(7, 7).to_millidegrees(), 45000);
    assert_eq!(vector_angle(-7, -7).to_millidegrees(), 225000);
    assert_eq!(vector_angle(0, 0).to_millidegrees(), 0);
    // tan(25.4°) = 0.474835...: just outside a 25 degree tolerance.
    assert_eq!(vector_angle(1000000, 474835).to_millidegrees(), 25400);
    assert_eq!(vector_angle(i64::MAX, i64::MAX).to_millidegrees(), 45000);
    assert_eq!(vector_angle(i64::MIN, 0).to_millidegrees(), 180000);
    for tenth in 0..3600 {
        let deg = tenth as f64 / 10.0;
        let r = deg.to_radians();
        let x = (r.cos() * 1.0e9).round() as i64;
        let y = (r.sin() * 1.0e9).round() as i64;
        let got = vector_angle(x, y).to_millidegrees();
        let want = (deg * 1000.0).round() as i64;
        let diff = (got - want).rem_euclid(360000);
        assert!(diff <= 1 || diff >= 359999, "{} degrees gave {}", deg, got);
    }
}

#[test]
fn isqrt_rounds_down() {
    assert_eq!(isqrt(0), 0);
    assert_eq!(isqrt(1), 1);
    assert_eq!(isqrt(15), 3);
    assert_eq!(isqrt(16), 4);
    assert_eq!(isqrt(u128::MAX), u64::MAX);
    assert_eq!(isqrt((1u128 << 64) - 1), (1u64 << 32) - 1);
}

#[test]
fn points_add_saturate_and_measure() {
    let a = Point::new(3000, -4000);
    assert_eq!(a.length(), 5000);
    assert_eq!(a.square_length(), 25000000);
    assert_eq!(a.plus(Point::new(1, 2)), Point::new(3001, -3998));
    assert_eq!(a.minus(Point::new(1, 2)), Point::new(2999, -4002));
    assert_eq!(Point::new(i32::MAX, i32::MIN).plus(Point::new(1, -1)), Point::new(i32::MAX, i32::MIN));
    assert_eq!(distance(Point::new(i32::MIN, 0), Point::new(i32::MAX, 0)), u32::MAX as u64);
    assert_eq!(distance(Point::new(0, 0), Point::new(1, 1)), 1);
    assert_eq!(Point::new(0, 100).lerp_to(Point::new(100, -100), 250000), Point::new(25, 50));
    assert_eq!(Point::new(0, 0).lerp_to(Point::new(-3, 0), 500000), Point::new(-2, 0));
}
