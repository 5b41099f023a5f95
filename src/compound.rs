//! Gestures built from the primitive recognizers.
use vstd::prelude::*;

use crate::filters::{NoMovement, NoRelativeMovement};
use crate::frame::Snapshot;
use crate::geom::{direction_of, Angle, Direction, Point, UAngle};
use crate::primitive::{
    FingersUp, InitialAngle, NFingers, StraightSwipe, StraightSwipeOutcome, StraightSwipeReason,
};
use crate::recognizer::{
    Composition, Constraint, FilterOutcome, FlatMapOutcome, InputSplit, MapOutcome, OutcomeFlatMap,
    OutcomeMap, OutcomeTest, RecResult, Recognizer, RecognizerBuild, SplitInput,
};

verus! {

/// Rounds the direction of an initial movement to a cardinal direction within 25 degrees, and
/// fails where there is none.
#[derive(Clone, Copy, Debug, PartialEq, Eq, Structural)]
pub struct RoundAngle {}

impl OutcomeFlatMap<(Point, Angle)> for RoundAngle {
    type Out = (Point, Direction);

    open spec fn spec_apply(&self, t: (Point, Angle)) -> RecResult<(Point, Direction)> {
        match direction_of(t.1@, 25000) {
            Some(d) => RecResult::Succeeded((t.0, d)),
            None => RecResult::Failed,
        }
    }

    fn apply(&self, t: (Point, Angle)) -> (r: RecResult<(Point, Direction)>) {
        match Direction::from_angle(t.1, UAngle::from_degrees(25)) {
            Some(d) => RecResult::Succeeded((t.0, d)),
            None => RecResult::Failed,
        }
    }
}

/// Keeps the direction and starts a swipe at the point along its canonical angle.
#[derive(Clone, Copy, Debug, PartialEq, Eq, Structural)]
pub struct DirectionStart {}

impl InputSplit for DirectionStart {
    type From = (Point, Direction);
    type Kept = Direction;
    type Passed = (Point, Angle);

    open spec fn spec_split(&self, x: (Point, Direction)) -> (Direction, (Point, Angle)) {
        (x.1, (x.0, Angle::of(x.1.mdeg())))
    }

    fn split(&self, x: (Point, Direction)) -> (r: (Direction, (Point, Angle))) {
        (x.1, (x.0, x.1.to_angle()))
    }
}

/// Keeps a direction and passes nothing on.
#[derive(Clone, Copy, Debug, PartialEq, Eq, Structural)]
pub struct KeepDirection {}

impl InputSplit for KeepDirection {
    type From = Direction;
    type Kept = Direction;
    type Passed = ();

    open spec fn spec_split(&self, x: Direction) -> (Direction, ()) {
        (x, ())
    }

    fn split(&self, x: Direction) -> (r: (Direction, ())) {
        (x, ())
    }
}

/// Keeps a swipe outcome and passes nothing on.
#[derive(Clone, Copy, Debug, PartialEq, Eq, Structural)]
pub struct KeepOutcome {}

impl InputSplit for KeepOutcome {
    type From = StraightSwipeOutcome;
    type Kept = StraightSwipeOutcome;
    type Passed = ();

    open spec fn spec_split(&self, x: StraightSwipeOutcome) -> (StraightSwipeOutcome, ()) {
        (x, ())
    }

    fn split(&self, x: StraightSwipeOutcome) -> (r: (StraightSwipeOutcome, ())) {
        (x, ())
    }
}

/// The first part of a pair.
#[derive(Clone, Copy, Debug, PartialEq, Eq, Structural)]
pub struct TakeFirst {}

impl<A, B> OutcomeMap<(A, B)> for TakeFirst {
    type Out = A;

    open spec fn spec_apply(&self, t: (A, B)) -> A {
        t.0
    }

    fn apply(&self, t: (A, B)) -> (r: A) {
        t.0
    }
}

/// The tracked angle of a swipe outcome paired with anything.
#[derive(Clone, Copy, Debug, PartialEq, Eq, Structural)]
pub struct OutcomeAngle {}

impl OutcomeMap<(StraightSwipeOutcome, ())> for OutcomeAngle {
    type Out = Angle;

    open spec fn spec_apply(&self, t: (StraightSwipeOutcome, ())) -> Angle {
        t.0.angle
    }

    fn apply(&self, t: (StraightSwipeOutcome, ())) -> (r: Angle) {
        t.0.angle
    }
}

/// Passes the swipes that ended because a finger was lifted.
#[derive(Clone, Copy, Debug, PartialEq, Eq, Structural)]
pub struct LiftedOnly {}

impl OutcomeTest<StraightSwipeOutcome> for LiftedOnly {
    open spec fn spec_test(&self, t: StraightSwipeOutcome) -> bool {
        t.reason == StraightSwipeReason::LiftedFinger
    }

    fn test(&self, t: &StraightSwipeOutcome) -> (r: bool) {
        match t.reason {
            StraightSwipeReason::LiftedFinger => true,
            StraightSwipeReason::ChangedAngle => false,
        }
    }
}

impl OutcomeTest<(Direction, StraightSwipeOutcome)> for LiftedOnly {
    open spec fn spec_test(&self, t: (Direction, StraightSwipeOutcome)) -> bool {
        t.1.reason == StraightSwipeReason::LiftedFinger
    }

    fn test(&self, t: &(Direction, StraightSwipeOutcome)) -> (r: bool) {
        match t.1.reason {
            StraightSwipeReason::LiftedFinger => true,
            StraightSwipeReason::ChangedAngle => false,
        }
    }
}

/// The hand comes down with a given number of fingers and holds still.
pub type HandDown = Constraint<NFingers, NoMovement>;

/// A straight swipe whose initial direction rounds to a cardinal direction, ended by lifting a
/// finger while the hand keeps its shape; it outputs the direction.
pub type DirectionStroke = MapOutcome<
    FilterOutcome<
        Constraint<
            Composition<
                FlatMapOutcome<InitialAngle, RoundAngle>,
                SplitInput<StraightSwipe, DirectionStart>,
            >,
            NoRelativeMovement,
        >,
        LiftedOnly,
    >,
    TakeFirst,
>;

/// Every finger leaves; it outputs the direction it was started with.
pub type HandUp = MapOutcome<SplitInput<FingersUp, KeepDirection>, TakeFirst>;

/// A swipe in a cardinal direction with a given number of fingers.
pub type DirectionSwipe = Composition<Composition<HandDown, DirectionStroke>, HandUp>;

/// A straight swipe with three fingers; it outputs the tracked angle.
pub type AngleSwipe = Composition<
    Composition<
        HandDown,
        FilterOutcome<
            Constraint<Composition<InitialAngle, StraightSwipe>, NoRelativeMovement>,
            LiftedOnly,
        >,
    >,
    MapOutcome<SplitInput<FingersUp, KeepOutcome>, OutcomeAngle>,
>;

/// A fresh `NoMovement` filter.
pub open spec fn fresh_no_movement() -> NoMovement {
    NoMovement { threshold: 1000, init_pos: Snapshot::empty() }
}

/// A fresh `NoRelativeMovement` filter.
pub open spec fn fresh_no_relative_movement() -> NoRelativeMovement {
    NoRelativeMovement { threshold: 5000, adaptivity: 20000, init_rel_pos: Snapshot::empty() }
}

/// A fresh `InitialAngle` with a threshold of one millimetre.
pub open spec fn fresh_initial_angle() -> InitialAngle {
    InitialAngle { threshold: 1000, init_pos: Point::zero_spec() }
}

/// A fresh `StraightSwipe` with the default parameters but `adaptivity`.
pub open spec fn fresh_straight_swipe(adaptivity: u32) -> StraightSwipe {
    StraightSwipe {
        init_pos: Point::zero_spec(),
        last_pos: Point::zero_spec(),
        min_length: 10000,
        step: 3000,
        adaptivity,
        angle: Angle::of(0),
        angle_tolerance: 20000,
    }
}

/// `direction_swipe(n)` as it is built.
pub open spec fn fresh_direction_swipe(n: u8) -> DirectionSwipe {
    Composition {
        rec1: Composition {
            rec1: Constraint { rec: NFingers { n }, fil: fresh_no_movement() },
            rec2: MapOutcome {
                rec: FilterOutcome {
                    rec: Constraint {
                        rec: Composition {
                            rec1: FlatMapOutcome { rec: fresh_initial_angle(), f: RoundAngle {  } },
                            rec2: SplitInput {
                                rec: fresh_straight_swipe(0),
                                g: DirectionStart {  },
                                cached: None,
                            },
                            on_rec2: false,
                        },
                        fil: fresh_no_relative_movement(),
                    },
                    p: LiftedOnly {  },
                },
                f: TakeFirst {  },
            },
            on_rec2: false,
        },
        rec2: MapOutcome {
            rec: SplitInput { rec: FingersUp {  }, g: KeepDirection {  }, cached: None },
            f: TakeFirst {  },
        },
        on_rec2: false,
    }
}

/// `angle_swipe()` as it is built.
pub open spec fn fresh_angle_swipe() -> AngleSwipe {
    Composition {
        rec1: Composition {
            rec1: Constraint { rec: NFingers { n: 3 }, fil: fresh_no_movement() },
            rec2: FilterOutcome {
                rec: Constraint {
                    rec: Composition {
                        rec1: fresh_initial_angle(),
                        rec2: fresh_straight_swipe(10000),
                        on_rec2: false,
                    },
                    fil: fresh_no_relative_movement(),
                },
                p: LiftedOnly {  },
            },
            on_rec2: false,
        },
        rec2: MapOutcome {
            rec: SplitInput { rec: FingersUp {  }, g: KeepOutcome {  }, cached: None },
            f: OutcomeAngle {  },
        },
        on_rec2: false,
    }
}

/// The configuration of `direction_swipe(n)`.
pub open spec fn direction_swipe_config(n: u8) -> <DirectionSwipe as Recognizer>::Config {
    (
        (
            (n, 1000u32),
            (
                (
                    (
                        ((1000u32, RoundAngle {  }), ((10000u32, 3000u32, 0u32, 20000i64), DirectionStart {  })),
                        (5000u32, 20000u32),
                    ),
                    LiftedOnly {  },
                ),
                TakeFirst {  },
            ),
        ),
        (((), KeepDirection {  }), TakeFirst {  }),
    )
}

/// The configuration of `angle_swipe()`.
pub open spec fn angle_swipe_config() -> <AngleSwipe as Recognizer>::Config {
    (
        (
            (3u8, 1000u32),
            (((1000u32, (10000u32, 3000u32, 10000u32, 20000i64)), (5000u32, 20000u32)), LiftedOnly {  }),
        ),
        (((), KeepOutcome {  }), OutcomeAngle {  }),
    )
}

/// A swipe with `num_fingers` fingers in a cardinal direction: the fingers come down and hold
/// still; the hand then moves within 25 degrees of a cardinal direction and keeps going straight
/// for more than 10 mm without changing shape; a finger is lifted; and every finger leaves.
/// It outputs the direction.
pub fn direction_swipe(num_fingers: u8) -> (r: DirectionSwipe)
    ensures
        r == fresh_direction_swipe(num_fingers),
        r.inv(),
        r.config() == direction_swipe_config(num_fingers),
{
    let stroke = InitialAngle::new()
        .flat_map_outcome(RoundAngle {  })
        .and_then(StraightSwipe::new().adaptivity(0).split_input(DirectionStart {  }))
        .constrain(NoRelativeMovement::new())
        .filter_outcome(LiftedOnly {  })
        .map_outcome(TakeFirst {  });
    let up = FingersUp::new().split_input(KeepDirection {  }).map_outcome(TakeFirst {  });
    NFingers::new(num_fingers).constrain(NoMovement::new()).and_then(stroke).and_then(up)
}

/// A straight swipe with three fingers, ended by lifting a finger while the hand keeps its shape,
/// after which every finger leaves. It outputs the direction tracked along the swipe.
pub fn angle_swipe() -> (r: AngleSwipe)
    ensures
        r == fresh_angle_swipe(),
        r.inv(),
        r.config() == angle_swipe_config(),
{
    let stroke = InitialAngle::new()
        .and_then(StraightSwipe::new())
        .constrain(NoRelativeMovement::new())
        .filter_outcome(LiftedOnly {  });
    let up = FingersUp::new().split_input(KeepOutcome {  }).map_outcome(OutcomeAngle {  });
    NFingers::new(3).constrain(NoMovement::new()).and_then(stroke).and_then(up)
}

/// A gesture that can be bound to an action.
#[derive(Clone, Copy, Debug, PartialEq, Eq, Hash, Structural)]
pub enum Gesture {
    Swipe { num_fingers: u8, direction: Direction },
}

/// Turns a direction into a swipe gesture with a given number of fingers.
#[derive(Clone, Copy, Debug, PartialEq, Eq, Structural)]
pub struct ToGesture {
    pub num_fingers: u8,
}

impl OutcomeMap<Direction> for ToGesture {
    type Out = Gesture;

    open spec fn spec_apply(&self, t: Direction) -> Gesture {
        Gesture::Swipe { num_fingers: self.num_fingers, direction: t }
    }

    fn apply(&self, t: Direction) -> (r: Gesture) {
        Gesture::Swipe { num_fingers: self.num_fingers, direction: t }
    }
}

/// A direction swipe that outputs the gesture it recognized.
pub type GestureSwipe = MapOutcome<DirectionSwipe, ToGesture>;

/// `direction_swipe(num_fingers)`, reporting a `Gesture::Swipe` with that number of fingers.
pub fn gesture_swipe(num_fingers: u8) -> (r: GestureSwipe)
    ensures
        r == (MapOutcome { rec: fresh_direction_swipe(num_fingers), f: ToGesture { num_fingers } }),
        r.inv(),
        r.config() == (direction_swipe_config(num_fingers), ToGesture { num_fingers }),
{
    direction_swipe(num_fingers).map_outcome(ToGesture { num_fingers })
}

} // verus!
