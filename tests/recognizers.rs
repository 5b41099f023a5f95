use gestures::compound::{angle_swipe, direction_swipe, DirectionStart, RoundAngle};
use gestures::filters::{NoMovement, NoRelativeMovement};
use gestures::frame::{Frame, TouchEvent};
use gestures::geom::{Angle, Direction, Point};
use gestures::manager::Manager;
use gestures::primitive::{FingersUp, InitialAngle, NFingers, StraightSwipe, StraightSwipeReason};
use gestures::recognizer::{
    Composition, Constraint, Filter, FilterResult, FlatMapOutcome, RecResult, Recognizer,
    SplitInput,
};

fn frame_with(evs: &[TouchEvent]) -> Frame {
    let mut f = Frame::new();
    for ev in evs {
        f.update(ev);
    }
    f
}

fn step(f: &mut Frame, evs: &[TouchEvent]) {
    f.advance();
    for ev in evs {
        f.update(ev);
    }
}

fn down(slot: u32, x: i32, y: i32) -> TouchEvent {
    TouchEvent::Down { slot, x, y }
}

fn motion(slot: u32, x: i32, y: i32) -> TouchEvent {
    TouchEvent::Motion { slot, x, y }
}

#[test]
fn rec_result_map_and_then() {
    let s: RecResult<i32> = RecResult::Succeeded(4);
    assert_eq!(s.map(|x| x * 2), RecResult::Succeeded(8));
    assert_eq!(RecResult::<i32>::Failed.map(|x| x * 2), RecResult::Failed);
    assert_eq!(RecResult::<i32>::Continuing.map(|x| x * 2), RecResult::Continuing);
    assert_eq!(s.and_then(|x| if x > 5 { RecResult::Succeeded(x) } else { RecResult::Failed }), RecResult::Failed);
    assert_eq!(s.and_then(|x| RecResult::Succeeded(x + 1)), RecResult::Succeeded(5));
    assert_eq!(RecResult::<i32>::Continuing.and_then(|x| RecResult::Succeeded(x)), RecResult::Continuing);
}

#[test]
fn n_fingers_waits_for_count() {
    let mut r = NFingers::new(2);
    let mut f = frame_with(&[down(0, 0, 0)]);
    r.init((), &f);
    assert_eq!(r.update(&f), RecResult::Continuing);
    step(&mut f, &[down(1, 0, 0)]);
    assert_eq!(r.update(&f), RecResult::Succeeded(()));
    step(&mut f, &[down(2, 0, 0)]);
    assert_eq!(r.update(&f), RecResult::Failed);
    let mut f = frame_with(&[down(0, 0, 0), down(1, 0, 0), down(2, 0, 0)]);
    step(&mut f, &[TouchEvent::Up { slot: 2 }]);
    assert_eq!(r.update(&f), RecResult::Failed);
}

#[test]
fn fingers_up_waits_for_empty_hand() {
    let mut r = FingersUp::new();
    let mut f = frame_with(&[down(0, 0, 0)]);
    r.init((), &f);
    assert_eq!(r.update(&f), RecResult::Failed);
    step(&mut f, &[]);
    assert_eq!(r.update(&f), RecResult::Continuing);
    step(&mut f, &[TouchEvent::Up { slot: 0 }]);
    assert_eq!(r.update(&f), RecResult::Succeeded(()));
}

#[test]
fn initial_angle_reports_start_and_direction() {
    let mut r = InitialAngle::new();
    let mut f = frame_with(&[down(0, 0, 0), down(1, 2000, 0)]);
    r.init((), &f);
    step(&mut f, &[motion(0, 0, -500), motion(1, 2000, -500)]);
    assert_eq!(r.update(&f), RecResult::Continuing);
    step(&mut f, &[motion(0, 0, -1001), motion(1, 2000, -1001)]);
    assert_eq!(r.update(&f), RecResult::Succeeded((Point::new(1000, 0), Angle::from_degrees(90))));
    let mut r = InitialAngle::with_threshold(5000);
    let mut f = frame_with(&[down(0, 0, 0)]);
    r.init((), &f);
    step(&mut f, &[motion(0, -4000, 0)]);
    assert_eq!(r.update(&f), RecResult::Continuing);
    step(&mut f, &[down(1, 0, 0)]);
    assert_eq!(r.update(&f), RecResult::Failed);
}

#[test]
fn straight_swipe_succeeds_on_lift_after_min_length() {
    let mut r = StraightSwipe::new();
    let mut f = frame_with(&[down(0, 5000, 5000), down(1, 15000, 5000)]);
    r.init((Point::new(10000, 5000), Angle::from_degrees(0)), &f);
    step(&mut f, &[motion(0, 7000, 5000), motion(1, 17000, 5000)]);
    assert_eq!(r.update(&f), RecResult::Continuing);
    step(&mut f, &[motion(0, 16000, 5000), motion(1, 26000, 5000)]);
    assert_eq!(r.update(&f), RecResult::Continuing);
    step(&mut f, &[TouchEvent::Up { slot: 0 }]);
    match r.update(&f) {
        RecResult::Succeeded(o) => {
            assert_eq!(o.reason, StraightSwipeReason::LiftedFinger);
            assert_eq!(o.init_pos, Point::new(10000, 5000));
            assert_eq!(o.final_pos, Point::new(26000, 5000));
            assert_eq!(o.angle, Angle::from_degrees(0));
        }
        other => panic!("unexpected {:?}", other),
    }
}

#[test]
fn straight_swipe_reports_turn_after_min_length() {
    let mut r = StraightSwipe::new().adaptivity(0).min_length(5000);
    let mut f = frame_with(&[down(0, 0, 0)]);
    r.init((Point::new(0, 0), Angle::from_degrees(0)), &f);
    step(&mut f, &[motion(0, 6000, 0)]);
    assert_eq!(r.update(&f), RecResult::Continuing);
    step(&mut f, &[motion(0, 6000, 4000)]);
    match r.update(&f) {
        RecResult::Succeeded(o) => {
            assert_eq!(o.reason, StraightSwipeReason::ChangedAngle);
            assert_eq!(o.final_pos, Point::new(6000, 4000));
        }
        other => panic!("unexpected {:?}", other),
    }
    let mut r = StraightSwipe::new();
    let mut f = frame_with(&[down(0, 0, 0)]);
    r.init((Point::new(0, 0), Angle::from_degrees(0)), &f);
    step(&mut f, &[motion(0, 0, 4000)]);
    assert_eq!(r.update(&f), RecResult::Failed);
}

#[test]
fn straight_swipe_tracks_slow_curves() {
    let mut r = StraightSwipe::new();
    let mut f = frame_with(&[down(0, 20000, 0), down(1, 20000, 10000)]);
    r.init((Point::new(20000, 5000), Angle::from_degrees(0)), &f);
    // 9.999 mm at 10 degrees: within the tolerance, so the tracked angle moves 0.09999 of the
    // way, to 999 millidegrees.
    step(&mut f, &[motion(0, 29848, -1736), motion(1, 29848, 8264)]);
    assert_eq!(r.update(&f), RecResult::Continuing);
    step(&mut f, &[TouchEvent::Up { slot: 0 }]);
    match r.update(&f) {
        RecResult::Succeeded(o) => {
            assert_eq!(o.reason, StraightSwipeReason::LiftedFinger);
            assert_eq!(o.angle, Angle::from_millidegrees(999));
        }
        other => panic!("unexpected {:?}", other),
    }
}

#[test]
fn no_movement_allows_arrivals_but_not_slides() {
    let mut fil = NoMovement::new();
    let mut f = frame_with(&[down(0, 0, 0), down(1, 10000, 0)]);
    fil.init(&f);
    step(&mut f, &[down(2, 20000, 0), motion(0, 500, 0)]);
    assert_eq!(fil.update(&f), FilterResult::Passed);
    step(&mut f, &[motion(2, 21000, 0)]);
    assert_eq!(fil.update(&f), FilterResult::Passed);
    step(&mut f, &[motion(0, 3000, 0)]);
    assert_eq!(fil.update(&f), FilterResult::Failed);
}

#[test]
fn no_relative_movement_allows_the_hand_to_move() {
    let mut fil = NoRelativeMovement::new();
    let mut f = frame_with(&[down(0, 0, 0), down(1, 10000, 0)]);
    fil.init(&f);
    step(&mut f, &[motion(0, 30000, 0), motion(1, 40000, 0)]);
    assert_eq!(fil.update(&f), FilterResult::Passed);
    step(&mut f, &[down(2, 50000, 0)]);
    assert_eq!(fil.update(&f), FilterResult::Passed);
    step(&mut f, &[motion(0, 10000, 0)]);
    assert_eq!(fil.update(&f), FilterResult::Failed);
}

#[test]
fn constraint_fails_with_its_filter() {
    let mut r = Constraint::new(NFingers::new(2), NoMovement::new());
    let mut f = frame_with(&[down(0, 0, 0)]);
    r.init((), &f);
    assert_eq!(r.update(&f), RecResult::Continuing);
    step(&mut f, &[motion(0, 5000, 0), down(1, 0, 0)]);
    assert_eq!(r.update(&f), RecResult::Failed);
}

#[test]
fn composition_starts_second_with_output_of_first() {
    let mut r = Composition::new(
        FlatMapOutcome::new(InitialAngle::new(), RoundAngle {}),
        SplitInput::new(StraightSwipe::new().adaptivity(0).min_length(1000), DirectionStart {}),
    );
    let mut f = frame_with(&[down(0, 50000, 50000)]);
    r.init((), &f);
    step(&mut f, &[motion(0, 50000, 52000)]);
    assert_eq!(r.update(&f), RecResult::Continuing);
    step(&mut f, &[TouchEvent::Up { slot: 0 }]);
    match r.update(&f) {
        RecResult::Succeeded((d, o)) => {
            assert_eq!(d, Direction::Down);
            assert_eq!(o.init_pos, Point::new(50000, 50000));
            assert_eq!(o.angle, Angle::from_degrees(270));
        }
        other => panic!("unexpected {:?}", other),
    }
}

#[test]
fn retired_recognizer_waits_for_next_window() {
    let mut m = Manager::new();
    m.push(NFingers::new(1));
    assert_eq!(m.update(&down(0, 0, 0)), None);
    assert_eq!(m.update(&TouchEvent::Frame), Some(()));
    assert_eq!(m.update(&down(1, 0, 0)), None);
    assert_eq!(m.update(&TouchEvent::Frame), None);
    assert_eq!(m.update(&TouchEvent::Up { slot: 1 }), None);
    assert_eq!(m.update(&TouchEvent::Frame), None);
    assert_eq!(m.update(&TouchEvent::Up { slot: 0 }), None);
    assert_eq!(m.update(&TouchEvent::Frame), None);
    assert_eq!(m.update(&down(0, 0, 0)), None);
    assert_eq!(m.update(&TouchEvent::Frame), Some(()));
}

#[test]
fn reused_recognizer_answers_like_a_fresh_one() {
    let ticks: Vec<Vec<TouchEvent>> = vec![
        vec![down(0, 0, 20000), down(1, 10000, 20000), down(2, 20000, 20000)],
        vec![motion(0, 3000, 20000), motion(1, 13000, 20000), motion(2, 23000, 20000)],
        vec![motion(0, 12000, 20000), motion(1, 22000, 20000), motion(2, 32000, 20000)],
        vec![TouchEvent::Up { slot: 0 }, TouchEvent::Up { slot: 1 }, TouchEvent::Up { slot: 2 }],
        vec![],
    ];
    let run = |r: &mut gestures::compound::DirectionSwipe| {
        let mut f = Frame::new();
        let mut out = Vec::new();
        for (i, t) in ticks.iter().enumerate() {
            if i > 0 {
                f.advance();
            }
            for ev in t {
                f.update(ev);
            }
            if i == 0 {
                r.init((), &f);
            }
            out.push(r.update(&f));
        }
        out
    };
    let mut used = direction_swipe(3);
    let first = run(&mut used);
    let second = run(&mut used);
    let fresh = run(&mut direction_swipe(3));
    assert_eq!(first, fresh);
    assert_eq!(second, fresh);
    assert_eq!(fresh[4], RecResult::Succeeded(Direction::Right));
}

#[test]
fn angle_swipe_reports_tracked_angle() {
    let mut m = Manager::new();
    m.push(angle_swipe());
    let evs = [
        vec![down(0, 0, 20000), down(1, 10000, 20000), down(2, 20000, 20000)],
        vec![motion(0, 3000, 20000), motion(1, 13000, 20000), motion(2, 23000, 20000)],
        vec![motion(0, 12000, 20000), motion(1, 22000, 20000), motion(2, 32000, 20000)],
        vec![TouchEvent::Up { slot: 0 }],
        vec![TouchEvent::Up { slot: 1 }],
        vec![TouchEvent::Up { slot: 2 }],
    ];
    let mut out = Vec::new();
    for t in evs.iter() {
        for ev in t {
            assert_eq!(m.update(ev), None);
        }
        out.push(m.update(&TouchEvent::Frame));
    }
    assert_eq!(out, vec![None, None, None, None, None, Some(Angle::from_degrees(0))]);
}
