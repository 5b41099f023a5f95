use gestures::compound::Gesture;
use gestures::config::{parse_gesture, split_words, Action, Binding, ConfigError, ConfigFile};
use gestures::geom::Direction;

fn swipe(n: u8, d: Direction) -> Option<Gesture> {
    Some(Gesture::Swipe { num_fingers: n, direction: d })
}

fn binding(g: &str, cmd: &str) -> Binding {
    Binding { gesture: g.to_string(), command: cmd.to_string(), args: vec!["-x".to_string()] }
}

#[test]
fn gesture_grammar() {
    assert_eq!(parse_gesture("swipe right"), swipe(3, Direction::Right));
    assert_eq!(parse_gesture("swipe 4 up"), swipe(4, Direction::Up));
    assert_eq!(parse_gesture("  swipe\t2   left \n"), swipe(2, Direction::Left));
    assert_eq!(parse_gesture("swipe 255 down"), swipe(255, Direction::Down));
    assert_eq!(parse_gesture("swipe 007 down"), swipe(7, Direction::Down));
    assert_eq!(parse_gesture("swipe 256 down"), None);
    assert_eq!(parse_gesture("swipe 3"), None);
    assert_eq!(parse_gesture("swipe"), None);
    assert_eq!(parse_gesture(""), None);
    assert_eq!(parse_gesture("tap right"), None);
    assert_eq!(parse_gesture("swipe 3 right now"), None);
    assert_eq!(parse_gesture("swipe Right"), None);
    assert_eq!(parse_gesture("swipe -3 up"), None);
    assert_eq!(parse_gesture("swipe 3x up"), None);
}

#[test]
fn words_split_on_whitespace() {
    let ws = split_words(b" a bc\td  ");
    assert_eq!(ws, vec![b"a".to_vec(), b"bc".to_vec(), b"d".to_vec()]);
    assert!(split_words(b"   ").is_empty());
}

#[test]
fn config_binds_gestures() {
    let file = ConfigFile {
        bindings: vec![binding("swipe right", "next"), binding("swipe 4 left", "prev"), binding("swipe 3 up", "up")],
    };
    let c = file.to_config().unwrap();
    let next = Action::Command { command: "next".to_string(), args: vec!["-x".to_string()] };
    assert_eq!(c.action_for(&Gesture::Swipe { num_fingers: 3, direction: Direction::Right }), Some(&next));
    assert_eq!(c.action_for(&Gesture::Swipe { num_fingers: 3, direction: Direction::Left }), None);
    assert_eq!(c.finger_counts(), vec![3, 4]);
}

#[test]
fn config_refuses_bad_gesture() {
    let file = ConfigFile { bindings: vec![binding("swipe right", "a"), binding("pinch", "b")] };
    assert_eq!(file.to_config().err(), Some(ConfigError::BadGesture));
    let b = binding("swipe sideways", "c");
    assert_eq!(b.to_binding().err(), Some(ConfigError::BadGesture));
}

#[test]
fn config_refuses_duplicate() {
    let file = ConfigFile {
        bindings: vec![binding("swipe right", "a"), binding("swipe 3 right", "b"), binding("pinch", "c")],
    };
    assert_eq!(file.to_config().err(), Some(ConfigError::DuplicateBinding));
    let empty = ConfigFile { bindings: vec![] };
    assert_eq!(empty.to_config().unwrap().finger_counts(), Vec::<u8>::new());
}
