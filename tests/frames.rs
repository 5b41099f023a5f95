use gestures::frame::{Frame, Snapshot, TouchEvent, MAX_SLOTS};
use gestures::geom::Point;

fn count_down(s: &Snapshot) -> u8 {
    s.down.iter().filter(|d| **d).count() as u8
}

#[test]
fn count_follows_set_down_and_set_up() {
    let mut s = Snapshot::new();
    let steps: [(bool, usize); 9] =
        [(true, 0), (true, 3), (true, 3), (false, 0), (false, 0), (true, 9), (false, 5), (true, 0), (false, 3)];
    for (d, i) in steps {
        if d {
            s.set_down(i, Point::new(i as i32, 1));
        } else {
            s.set_up(i);
        }
        assert_eq!(s.num_down, count_down(&s));
    }
    assert_eq!(s.num_down, 2);
    assert_eq!(s.pos[9], Point::new(9, 1));
}

#[test]
fn mean_of_empty_snapshot_is_zero() {
    let mut s = Snapshot::new();
    assert_eq!(s.mean_pos(), Point::zero());
    s.pos[2] = Point::new(50, 50);
    assert_eq!(s.mean_pos(), Point::zero());
}

#[test]
fn mean_rounds_down() {
    let mut s = Snapshot::new();
    s.set_down(0, Point::new(0, 0));
    s.set_down(4, Point::new(10, -1));
    s.set_down(7, Point::new(21, -1));
    assert_eq!(s.mean_pos(), Point::new(10, -1));
    s.set_up(0);
    assert_eq!(s.mean_pos(), Point::new(15, -1));
    s.set_down(1, Point::new(-32, -1));
    assert_eq!(s.mean_pos(), Point::new(-1, -1));
}

#[test]
fn mean_pos_filtered_uses_common_fingers() {
    let mut a = Snapshot::new();
    let mut b = Snapshot::new();
    a.set_down(0, Point::new(10, 10));
    a.set_down(1, Point::new(30, 10));
    b.set_down(1, Point::new(0, 0));
    b.set_down(2, Point::new(0, 0));
    assert_eq!(a.mean_pos_filtered(&b), Point::new(30, 10));
    assert_eq!(b.mean_pos_filtered(&a), Point::new(0, 0));
    assert_eq!(a.mean_pos_filtered(&Snapshot::new()), Point::zero());
}

#[test]
fn mean_dist_of_a_snapshot_to_itself_is_zero() {
    let mut s = Snapshot::new();
    assert_eq!(s.mean_dist(&s), 0);
    s.set_down(0, Point::new(-5, 7));
    s.set_down(8, Point::new(1000, 7));
    assert_eq!(s.mean_dist(&s), 0);
}

#[test]
fn mean_dist_averages_over_common_fingers() {
    let mut a = Snapshot::new();
    let mut b = Snapshot::new();
    a.set_down(0, Point::new(0, 0));
    a.set_down(1, Point::new(0, 0));
    a.set_down(2, Point::new(0, 0));
    b.set_down(0, Point::new(3, 4));
    b.set_down(1, Point::new(6, 8));
    assert_eq!(a.mean_dist(&b), 7);
    assert_eq!(b.mean_dist(&a), 7);
    assert_eq!(a.mean_dist(&Snapshot::new()), 0);
}

#[test]
fn merge_takes_presence_from_other() {
    let mut a = Snapshot::new();
    let mut b = Snapshot::new();
    a.set_down(0, Point::new(1, 1));
    a.set_down(1, Point::new(2, 2));
    b.set_down(1, Point::new(20, 20));
    b.set_down(2, Point::new(30, 30));
    a.merge(&b);
    assert_eq!(a.down, b.down);
    assert_eq!(a.num_down, 2);
    assert_eq!(a.pos[1], Point::new(2, 2));
    assert_eq!(a.pos[2], Point::new(30, 30));
}

#[test]
fn shift_moves_every_slot() {
    let mut s = Snapshot::new();
    s.set_down(3, Point::new(5, 5));
    s.shift(Point::new(1, -1));
    assert_eq!(s.pos[3], Point::new(6, 4));
    assert_eq!(s.pos[0], Point::new(1, -1));
    s.unshift(Point::new(6, 4));
    assert_eq!(s.pos[3], Point::zero());
    assert_eq!(s.num_down, 1);
}

#[test]
fn interpolate_to_moves_slots_down_in_other() {
    let mut a = Snapshot::new();
    let mut b = Snapshot::new();
    b.set_down(0, Point::new(100, 0));
    b.pos[1] = Point::new(100, 0);
    a.interpolate_to(&b, 250000);
    assert_eq!(a.pos[0], Point::new(25, 0));
    assert_eq!(a.pos[1], Point::zero());
    a.interpolate_to(&b, 1000000);
    assert_eq!(a.pos[0], Point::new(100, 0));
}

#[test]
fn fingers_lists_down_slots() {
    let mut s = Snapshot::new();
    s.set_down(4, Point::new(4, 4));
    s.set_down(1, Point::new(1, 1));
    assert_eq!(s.fingers(), vec![(1, Point::new(1, 1)), (4, Point::new(4, 4))]);
}

#[test]
fn frame_update_follows_events() {
    let mut f = Frame::new();
    f.update(&TouchEvent::Down { slot: 2, x: 10, y: 20 });
    assert!(f.touch_down && !f.touch_up);
    assert_eq!(f.cur.num_down, 1);
    assert_eq!(f.cur.pos[2], Point::new(10, 20));
    f.update(&TouchEvent::Down { slot: 2, x: 99, y: 99 });
    assert_eq!(f.cur.num_down, 1);
    assert_eq!(f.cur.pos[2], Point::new(10, 20));
    f.update(&TouchEvent::Down { slot: MAX_SLOTS as u32, x: 1, y: 1 });
    assert_eq!(f.cur.num_down, 1);
    f.update(&TouchEvent::Motion { slot: 2, x: 11, y: 21 });
    assert_eq!(f.cur.pos[2], Point::new(11, 21));
    f.update(&TouchEvent::Motion { slot: 40, x: 11, y: 21 });
    f.update(&TouchEvent::Up { slot: 5 });
    assert!(!f.touch_up);
    f.update(&TouchEvent::Up { slot: 2 });
    assert!(f.touch_up);
    assert_eq!(f.cur.num_down, 0);
    f.update(&TouchEvent::Cancel);
    f.update(&TouchEvent::Frame);
    assert_eq!(f.cur.num_down, 0);
    assert_eq!(f.last.num_down, 0);
}

#[test]
fn advance_clears_edges_and_catches_up() {
    let mut f = Frame::new();
    f.update(&TouchEvent::Down { slot: 0, x: 1, y: 2 });
    f.update(&TouchEvent::Down { slot: 1, x: 3, y: 4 });
    f.update(&TouchEvent::Up { slot: 0 });
    f.advance();
    assert!(!f.touch_down && !f.touch_up);
    assert_eq!(f.last.num_down, f.cur.num_down);
    assert_eq!(f.last.down, f.cur.down);
    assert_eq!(f.last.pos, f.cur.pos);
}
