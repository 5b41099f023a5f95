use gestures::compound::{direction_swipe, gesture_swipe, DirectionSwipe, Gesture, GestureSwipe};
use gestures::frame::TouchEvent;
use gestures::geom::Direction;
use gestures::manager::Manager;

fn down(slot: u32, x_mm: i32, y_mm: i32) -> TouchEvent {
    TouchEvent::Down { slot, x: x_mm * 1000, y: y_mm * 1000 }
}

fn motion(slot: u32, x_mm: i32, y_mm: i32) -> TouchEvent {
    TouchEvent::Motion { slot, x: x_mm * 1000, y: y_mm * 1000 }
}

fn up(slot: u32) -> TouchEvent {
    TouchEvent::Up { slot }
}

/// Feeds the events of one tick and then the tick itself; returns what the tick produced.
fn tick<R>(m: &mut Manager<R>, evs: &[TouchEvent]) -> Option<R::Out>
where
    R: gestures::recognizer::Recognizer<In = ()>,
{
    for ev in evs {
        assert!(m.update(ev).is_none());
    }
    m.update(&TouchEvent::Frame)
}

fn right_swipe_ticks(m: &mut Manager<DirectionSwipe>) -> Vec<Option<Direction>> {
    vec![
        tick(m, &[down(0, 0, 0), down(1, 10, 0), down(2, 20, 0)]),
        tick(m, &[motion(0, 3, 0), motion(1, 13, 0), motion(2, 23, 0)]),
        tick(m, &[motion(0, 12, 0), motion(1, 22, 0), motion(2, 32, 0)]),
        tick(m, &[up(0)]),
        tick(m, &[up(1)]),
        tick(m, &[up(2)]),
    ]
}

#[test]
fn three_finger_right_swipe() {
    let mut m = Manager::new();
    m.push(direction_swipe(3));
    let out = right_swipe_ticks(&mut m);
    assert_eq!(out, vec![None, None, None, None, None, Some(Direction::Right)]);
}

#[test]
fn three_finger_right_swipe_lifted_at_once() {
    // The lift is measured from the mean of the fingers that are still down, which is the
    // origin once every finger is up: here that is exactly 10 mm from the start, not more.
    let mut m = Manager::new();
    m.push(direction_swipe(3));
    assert_eq!(tick(&mut m, &[down(0, 0, 0), down(1, 10, 0), down(2, 20, 0)]), None);
    assert_eq!(tick(&mut m, &[motion(0, 3, 0), motion(1, 13, 0), motion(2, 23, 0)]), None);
    assert_eq!(tick(&mut m, &[motion(0, 12, 0), motion(1, 22, 0), motion(2, 32, 0)]), None);
    assert_eq!(tick(&mut m, &[up(0), up(1), up(2)]), None);
    assert_eq!(tick(&mut m, &[]), None);
}

#[test]
fn right_swipe_lifted_at_once_away_from_origin() {
    let mut m = Manager::new();
    m.push(direction_swipe(3));
    assert_eq!(tick(&mut m, &[down(0, 0, 20), down(1, 10, 20), down(2, 20, 20)]), None);
    assert_eq!(tick(&mut m, &[motion(0, 3, 20), motion(1, 13, 20), motion(2, 23, 20)]), None);
    assert_eq!(tick(&mut m, &[motion(0, 12, 20), motion(1, 22, 20), motion(2, 32, 20)]), None);
    assert_eq!(tick(&mut m, &[up(0), up(1), up(2)]), None);
    assert_eq!(tick(&mut m, &[]), Some(Direction::Right));
}

#[test]
fn no_movement_rejects_sliding_finger() {
    let mut m = Manager::new();
    m.push(direction_swipe(3));
    assert_eq!(tick(&mut m, &[down(0, 0, 0), down(1, 10, 0)]), None);
    assert_eq!(tick(&mut m, &[motion(0, 5, 0)]), None);
    assert_eq!(tick(&mut m, &[down(2, 20, 0)]), None);
    assert_eq!(tick(&mut m, &[motion(0, 8, 0), motion(1, 13, 0), motion(2, 23, 0)]), None);
    assert_eq!(tick(&mut m, &[motion(0, 17, 0), motion(1, 22, 0), motion(2, 32, 0)]), None);
    assert_eq!(tick(&mut m, &[up(0)]), None);
    assert_eq!(tick(&mut m, &[up(1)]), None);
    assert_eq!(tick(&mut m, &[up(2)]), None);
}

#[test]
fn oblique_swipe_is_rejected() {
    // 3 mm at 30 degrees above the x axis: (2.598, -1.5) mm on the screen.
    let mut m = Manager::new();
    m.push(direction_swipe(3));
    let at = |slot: u32, x: i32, y: i32| TouchEvent::Motion { slot, x, y };
    assert_eq!(tick(&mut m, &[down(0, 0, 40), down(1, 10, 40), down(2, 20, 40)]), None);
    assert_eq!(
        tick(&mut m, &[at(0, 2598, 38500), at(1, 12598, 38500), at(2, 22598, 38500)]),
        None
    );
    assert_eq!(
        tick(&mut m, &[at(0, 10392, 34000), at(1, 20392, 34000), at(2, 30392, 34000)]),
        None
    );
    assert_eq!(tick(&mut m, &[up(0)]), None);
    assert_eq!(tick(&mut m, &[up(1)]), None);
    assert_eq!(tick(&mut m, &[up(2)]), None);
}

#[test]
fn start_just_beyond_rounding_tolerance_is_rejected() {
    // 3 mm at 25.4 degrees above the x axis.
    let mut m = Manager::new();
    m.push(direction_swipe(3));
    let at = |slot: u32, x: i32, y: i32| TouchEvent::Motion { slot, x, y };
    assert_eq!(tick(&mut m, &[down(0, 0, 40), down(1, 10, 40), down(2, 20, 40)]), None);
    assert_eq!(
        tick(&mut m, &[at(0, 2710, 38713), at(1, 12710, 38713), at(2, 22710, 38713)]),
        None
    );
    assert_eq!(
        tick(&mut m, &[at(0, 12710, 38713), at(1, 22710, 38713), at(2, 32710, 38713)]),
        None
    );
    assert_eq!(tick(&mut m, &[up(0)]), None);
    assert_eq!(tick(&mut m, &[up(1)]), None);
    assert_eq!(tick(&mut m, &[up(2)]), None);
}

#[test]
fn premature_lift_is_rejected() {
    let mut m = Manager::new();
    m.push(direction_swipe(3));
    assert_eq!(tick(&mut m, &[down(0, 0, 0), down(1, 10, 0), down(2, 20, 0)]), None);
    assert_eq!(tick(&mut m, &[motion(0, 5, 0), motion(1, 15, 0), motion(2, 25, 0)]), None);
    assert_eq!(tick(&mut m, &[up(0)]), None);
    assert_eq!(tick(&mut m, &[up(1)]), None);
    assert_eq!(tick(&mut m, &[up(2)]), None);
}

#[test]
fn second_identical_swipe_is_recognized() {
    let mut m = Manager::new();
    m.push(direction_swipe(3));
    let first = right_swipe_ticks(&mut m);
    let second = right_swipe_ticks(&mut m);
    assert_eq!(first, vec![None, None, None, None, None, Some(Direction::Right)]);
    assert_eq!(second, first);
}

#[test]
fn four_finger_swipe_fires_only_four_finger_binding() {
    let mut m: Manager<GestureSwipe> = Manager::new();
    m.push(gesture_swipe(3));
    m.push(gesture_swipe(4));
    let downs = [down(0, 0, 0), down(1, 10, 0), down(2, 20, 0), down(3, 30, 0)];
    assert_eq!(tick(&mut m, &downs), None);
    let step1 = [motion(0, 3, 0), motion(1, 13, 0), motion(2, 23, 0), motion(3, 33, 0)];
    assert_eq!(tick(&mut m, &step1), None);
    let step2 = [motion(0, 12, 0), motion(1, 22, 0), motion(2, 32, 0), motion(3, 42, 0)];
    assert_eq!(tick(&mut m, &step2), None);
    assert_eq!(tick(&mut m, &[up(0)]), None);
    assert_eq!(tick(&mut m, &[up(1)]), None);
    assert_eq!(tick(&mut m, &[up(2)]), None);
    assert_eq!(
        tick(&mut m, &[up(3)]),
        Some(Gesture::Swipe { num_fingers: 4, direction: Direction::Right })
    );
}

#[test]
fn upward_swipe_is_recognized() {
    let mut m = Manager::new();
    m.push(direction_swipe(3));
    assert_eq!(tick(&mut m, &[down(0, 0, 40), down(1, 10, 40), down(2, 20, 40)]), None);
    assert_eq!(tick(&mut m, &[motion(0, 0, 37), motion(1, 10, 37), motion(2, 20, 37)]), None);
    assert_eq!(tick(&mut m, &[motion(0, 0, 25), motion(1, 10, 25), motion(2, 20, 25)]), None);
    assert_eq!(tick(&mut m, &[up(0)]), None);
    assert_eq!(tick(&mut m, &[up(1)]), None);
    assert_eq!(tick(&mut m, &[up(2)]), Some(Direction::Up));
}
