//! The primitive recognizers.
use vstd::prelude::*;

use crate::frame::{Frame, FrameView};
use crate::geom::{
    abs_spec, distance_sq, interpolate_spec, isqrt, len_sq, lemma_sqrt_floor_bound, normalize,
    sqrt_floor, vector_angle, vector_mdeg, Angle, Point, LAMBDA_ONE,
};
use crate::recognizer::{RecResult, Recognizer};

verus! {

/// Succeeds on the first tick at which exactly `n` fingers are down; fails on a tick at which a
/// finger goes up or more than `n` fingers are down.
#[derive(Clone, Copy, Debug)]
pub struct NFingers {
    pub n: u8,
}

impl NFingers {
    /// The number of fingers awaited.
    pub open spec fn count(self) -> u8 {
        self.n
    }

    /// A recognizer that succeeds when `n` fingers are down.
    pub fn new(n: u8) -> (r: NFingers)
        ensures
            r == (NFingers { n }),
            r.count() == n,
            r.config() == n,
            r.inv(),
    {
        NFingers { n }
    }
}

/// The verdict of `NFingers` with count `n` on a frame.
pub open spec fn n_fingers_verdict(n: int, frame: FrameView) -> RecResult<()> {
    if frame.touch_up || frame.cur.num_down > n {
        RecResult::Failed
    } else if frame.cur.num_down == n {
        RecResult::Succeeded(())
    } else {
        RecResult::Continuing
    }
}

impl Recognizer for NFingers {
    type In = ();
    type Out = ();
    type Config = u8;
    type State = ();

    open spec fn inv(&self) -> bool {
        true
    }

    open spec fn config(&self) -> u8 {
        self.n
    }

    open spec fn state(&self) -> () {
        ()
    }

    open spec fn spec_init(self, input: (), frame: FrameView) -> Self {
        self
    }

    open spec fn spec_update(self, frame: FrameView) -> (Self, RecResult<()>) {
        (self, n_fingers_verdict(self.n as int, frame))
    }

    fn init(&mut self, input: (), frame: &Frame) {
    }

    fn update(&mut self, frame: &Frame) -> (r: RecResult<()>)
        ensures
            r == n_fingers_verdict(old(self).n as int, frame@),
    {
        if frame.touch_up || frame.cur.num_down > self.n {
            RecResult::Failed
        } else if frame.cur.num_down == self.n {
            RecResult::Succeeded(())
        } else {
            RecResult::Continuing
        }
    }

    proof fn lemma_config_kept(self, input: (), frame: FrameView) {
    }

    proof fn lemma_init_by_config(self, other: Self, input: (), frame: FrameView) {
    }

    proof fn lemma_update_by_state(self, other: Self, frame: FrameView) {
    }
}

/// Succeeds on the first tick at which no finger is down; fails on a tick at which a finger
/// comes down.
#[derive(Clone, Copy, Debug)]
pub struct FingersUp {}

impl FingersUp {
    /// A recognizer that succeeds when every finger is up.
    pub fn new() -> (r: FingersUp)
        ensures
            r == (FingersUp {  }),
            r.config() == (),
            r.inv(),
    {
        FingersUp {  }
    }
}

/// The verdict of `FingersUp` on a frame.
pub open spec fn fingers_up_verdict(frame: FrameView) -> RecResult<()> {
    if frame.touch_down {
        RecResult::Failed
    } else if frame.cur.num_down == 0 {
        RecResult::Succeeded(())
    } else {
        RecResult::Continuing
    }
}

impl Recognizer for FingersUp {
    type In = ();
    type Out = ();
    type Config = ();
    type State = ();

    open spec fn inv(&self) -> bool {
        true
    }

    open spec fn config(&self) -> () {
        ()
    }

    open spec fn state(&self) -> () {
        ()
    }

    open spec fn spec_init(self, input: (), frame: FrameView) -> Self {
        self
    }

    open spec fn spec_update(self, frame: FrameView) -> (Self, RecResult<()>) {
        (self, fingers_up_verdict(frame))
    }

    fn init(&mut self, input: (), frame: &Frame) {
    }

    fn update(&mut self, frame: &Frame) -> (r: RecResult<()>)
        ensures
            r == fingers_up_verdict(frame@),
    {
        if frame.touch_down {
            RecResult::Failed
        } else if frame.cur.num_down == 0 {
            RecResult::Succeeded(())
        } else {
            RecResult::Continuing
        }
    }

    proof fn lemma_config_kept(self, input: (), frame: FrameView) {
    }

    proof fn lemma_init_by_config(self, other: Self, input: (), frame: FrameView) {
    }

    proof fn lemma_update_by_state(self, other: Self, frame: FrameView) {
    }
}

/// The direction of travel from `from` to `to` on the screen, where y grows downwards: measured
/// counterclockwise from the positive x axis with the y axis flipped, in millidegrees.
pub open spec fn travel_angle(from: Point, to: Point) -> Angle {
    Angle::of(vector_mdeg(to.x - from.x, from.y - to.y))
}

fn travel_angle_exec(from: Point, to: Point) -> (r: Angle)
    ensures
        r == travel_angle(from, to),
{
    vector_angle(to.x as i64 - from.x as i64, from.y as i64 - to.y as i64)
}

/// Waits for the mean finger position to move more than a threshold away from where it was at
/// `init`, then succeeds with the start position and the direction of the movement. Fails on a
/// tick at which a finger goes up or comes down.
#[derive(Clone, Copy, Debug)]
pub struct InitialAngle {
    pub threshold: u32,
    pub init_pos: Point,
}

impl InitialAngle {
    /// The distance, in micrometres, that counts as movement.
    pub open spec fn threshold(self) -> u32 {
        self.threshold
    }

    /// A recognizer with a threshold of one millimetre.
    pub fn new() -> (r: InitialAngle)
        ensures
            r == (InitialAngle { threshold: 1000, init_pos: Point::zero_spec() }),
            r.threshold() == 1000,
            r.config() == 1000u32,
            r.inv(),
    {
        InitialAngle { threshold: 1000, init_pos: Point::zero() }
    }

    /// A recognizer that succeeds once the mean position has moved more than `um` micrometres.
    pub fn with_threshold(um: u32) -> (r: InitialAngle)
        ensures
            r == (InitialAngle { threshold: um, init_pos: Point::zero_spec() }),
            r.threshold() == um,
            r.config() == um,
            r.inv(),
    {
        InitialAngle { threshold: um, init_pos: Point::zero() }
    }
}

impl Recognizer for InitialAngle {
    type In = ();
    type Out = (Point, Angle);
    type Config = u32;
    type State = Point;

    open spec fn inv(&self) -> bool {
        true
    }

    open spec fn config(&self) -> u32 {
        self.threshold
    }

    open spec fn state(&self) -> Point {
        self.init_pos
    }

    open spec fn spec_init(self, input: (), frame: FrameView) -> Self {
        InitialAngle { init_pos: frame.cur.mean(), ..self }
    }

    open spec fn spec_update(self, frame: FrameView) -> (Self, RecResult<(Point, Angle)>) {
        let pos = frame.cur.mean();
        if frame.touch_up || frame.touch_down {
            (self, RecResult::Failed)
        } else if len_sq(pos.x - self.init_pos.x, pos.y - self.init_pos.y) > self.threshold
            * self.threshold {
            (self, RecResult::Succeeded((self.init_pos, travel_angle(self.init_pos, pos))))
        } else {
            (self, RecResult::Continuing)
        }
    }

    fn init(&mut self, input: (), frame: &Frame) {
        self.init_pos = frame.cur.mean_pos();
    }

    fn update(&mut self, frame: &Frame) -> (r: RecResult<(Point, Angle)>) {
        if frame.touch_up || frame.touch_down {
            RecResult::Failed
        } else {
            let pos = frame.cur.mean_pos();
            let t = self.threshold as u128;
            assert(t * t <= 4294967296 * 4294967296) by (nonlinear_arith)
                requires
                    t <= 4294967296,
            ;
            if distance_sq(pos, self.init_pos) > t * t {
                RecResult::Succeeded((self.init_pos, travel_angle_exec(self.init_pos, pos)))
            } else {
                RecResult::Continuing
            }
        }
    }

    proof fn lemma_config_kept(self, input: (), frame: FrameView) {
    }

    proof fn lemma_init_by_config(self, other: Self, input: (), frame: FrameView) {
    }

    proof fn lemma_update_by_state(self, other: Self, frame: FrameView) {
    }
}

/// Why a `StraightSwipe` finished.
#[derive(Clone, Copy, Debug, PartialEq, Eq, Structural)]
pub enum StraightSwipeReason {
    /// The movement stopped being straight.
    ChangedAngle,
    /// A finger was lifted.
    LiftedFinger,
}

/// The outcome of a successful `StraightSwipe`.
#[derive(Clone, Copy, Debug, PartialEq, Eq, Structural)]
pub struct StraightSwipeOutcome {
    /// Why the swipe finished.
    pub reason: StraightSwipeReason,
    /// The mean finger position where the swipe started.
    pub init_pos: Point,
    /// The mean finger position where the swipe finished.
    pub final_pos: Point,
    /// The direction of the swipe, as tracked while it went on.
    pub angle: Angle,
}

/// The blending factor, in millionths, for a step of `len` micrometres at `adaptivity`
/// millionths per millimetre: `min(len * adaptivity, 1)`.
pub open spec fn blend_factor(len: int, adaptivity: int) -> int {
    if len * adaptivity / 1000 > LAMBDA_ONE {
        LAMBDA_ONE as int
    } else {
        len * adaptivity / 1000
    }
}

/// Follows a movement of the mean finger position that keeps its direction.
///
/// It samples the direction each time the mean position has moved `step` micrometres since the
/// last sample. It fails if a finger comes down. When a finger goes up, or when a sample turns
/// away from the tracked direction by more than the tolerance, it succeeds if the mean position
/// is more than `min_length` micrometres from the start, and fails otherwise. Samples within
/// the tolerance pull the tracked direction towards them in proportion to the step length.
#[derive(Clone, Copy, Debug)]
pub struct StraightSwipe {
    pub init_pos: Point,
    pub last_pos: Point,
    pub min_length: u32,
    pub step: u32,
    pub adaptivity: u32,
    pub angle: Angle,
    pub angle_tolerance: i64,
}

impl StraightSwipe {
    /// The shortest successful swipe, in micrometres.
    pub open spec fn spec_min_length(self) -> u32 {
        self.min_length
    }

    /// The distance between samples of the direction, in micrometres.
    pub open spec fn spec_step(self) -> u32 {
        self.step
    }

    /// How fast the tracked direction follows the samples, in millionths per millimetre.
    pub open spec fn spec_adaptivity(self) -> u32 {
        self.adaptivity
    }

    /// The largest turn that keeps the swipe going, in millidegrees.
    pub open spec fn spec_angle_tolerance(self) -> i64 {
        self.angle_tolerance
    }

    /// A recognizer with a minimum length of 10 mm, a step of 3 mm, an adaptivity of 0.01 per
    /// millimetre and a tolerance of 20 degrees.
    pub fn new() -> (r: StraightSwipe)
        ensures
            r == (StraightSwipe {
                init_pos: Point::zero_spec(),
                last_pos: Point::zero_spec(),
                min_length: 10000,
                step: 3000,
                adaptivity: 10000,
                angle: Angle::of(0),
                angle_tolerance: 20000,
            }),
            r.spec_min_length() == 10000,
            r.spec_step() == 3000,
            r.spec_adaptivity() == 10000,
            r.spec_angle_tolerance() == 20000,
            r.config() == (10000u32, 3000u32, 10000u32, 20000i64),
            r.inv(),
    {
        StraightSwipe {
            init_pos: Point::zero(),
            last_pos: Point::zero(),
            min_length: 10000,
            step: 3000,
            adaptivity: 10000,
            angle: Angle::from_millidegrees(0),
            angle_tolerance: 20000,
        }
    }

    /// The same recognizer with a minimum length of `length_um` micrometres.
    pub fn min_length(self, length_um: u32) -> (r: StraightSwipe)
        ensures
            r == (StraightSwipe { min_length: length_um, ..self }),
            r.config() == (length_um, self.config().1, self.config().2, self.config().3),
            self.inv() ==> r.inv(),
            r.spec_min_length() == length_um,
            r.spec_step() == self.spec_step(),
            r.spec_adaptivity() == self.spec_adaptivity(),
            r.spec_angle_tolerance() == self.spec_angle_tolerance(),
    {
        StraightSwipe { min_length: length_um, ..self }
    }

    /// The same recognizer with an adaptivity of `per_mm` millionths per millimetre.
    pub fn adaptivity(self, per_mm: u32) -> (r: StraightSwipe)
        ensures
            r == (StraightSwipe { adaptivity: per_mm, ..self }),
            r.config() == (self.config().0, self.config().1, per_mm, self.config().3),
            self.inv() ==> r.inv(),
            r.spec_min_length() == self.spec_min_length(),
            r.spec_step() == self.spec_step(),
            r.spec_adaptivity() == per_mm,
            r.spec_angle_tolerance() == self.spec_angle_tolerance(),
    {
        StraightSwipe { adaptivity: per_mm, ..self }
    }

    pub open spec fn far_enough(self, pos: Point) -> bool {
        len_sq(pos.x - self.init_pos.x, pos.y - self.init_pos.y) > self.min_length
            * self.min_length
    }

    fn is_far_enough(&self, pos: Point) -> (r: bool)
        ensures
            r == self.far_enough(pos),
    {
        let m = self.min_length as u128;
        assert(m * m <= 4294967296 * 4294967296) by (nonlinear_arith)
            requires
                m <= 4294967296,
        ;
        distance_sq(pos, self.init_pos) > m * m
    }

    pub open spec fn spec_outcome(self, reason: StraightSwipeReason, pos: Point) -> StraightSwipeOutcome {
        StraightSwipeOutcome { reason, init_pos: self.init_pos, final_pos: pos, angle: self.angle }
    }

    fn outcome(&self, reason: StraightSwipeReason, pos: Point) -> (r: StraightSwipeOutcome)
        ensures
            r == self.spec_outcome(reason, pos),
    {
        StraightSwipeOutcome { reason, init_pos: self.init_pos, final_pos: pos, angle: self.angle }
    }
}

impl Recognizer for StraightSwipe {
    type In = (Point, Angle);
    type Out = StraightSwipeOutcome;
    type Config = (u32, u32, u32, i64);
    type State = (Point, Point, Angle);

    open spec fn inv(&self) -> bool {
        true
    }

    open spec fn config(&self) -> Self::Config {
        (self.min_length, self.step, self.adaptivity, self.angle_tolerance)
    }

    open spec fn state(&self) -> Self::State {
        (self.init_pos, self.last_pos, self.angle)
    }

    open spec fn spec_init(self, input: (Point, Angle), frame: FrameView) -> Self {
        StraightSwipe { init_pos: input.0, last_pos: input.0, angle: input.1, ..self }
    }

    open spec fn spec_update(self, frame: FrameView) -> (Self, RecResult<StraightSwipeOutcome>) {
        let pos = frame.cur.mean();
        let step_sq = len_sq(pos.x - self.last_pos.x, pos.y - self.last_pos.y);
        if frame.touch_down {
            (self, RecResult::Failed)
        } else if frame.touch_up {
            if self.far_enough(pos) {
                (self, RecResult::Succeeded(self.spec_outcome(StraightSwipeReason::LiftedFinger, pos)))
            } else {
                (self, RecResult::Failed)
            }
        } else if step_sq < self.step * self.step {
            (self, RecResult::Continuing)
        } else {
            let a = travel_angle(self.last_pos, pos);
            let moved = StraightSwipe { last_pos: pos, ..self };
            if abs_spec(normalize(a@ - self.angle@)) > self.angle_tolerance {
                if self.far_enough(pos) {
                    (moved, RecResult::Succeeded(self.spec_outcome(StraightSwipeReason::ChangedAngle, pos)))
                } else {
                    (moved, RecResult::Failed)
                }
            } else {
                let lambda = blend_factor(sqrt_floor(step_sq), self.adaptivity as int);
                (
                    StraightSwipe {
                        angle: Angle::of(interpolate_spec(self.angle@, a@, lambda)),
                        ..moved
                    },
                    RecResult::Continuing,
                )
            }
        }
    }

    fn init(&mut self, input: (Point, Angle), frame: &Frame) {
        self.init_pos = input.0;
        self.last_pos = input.0;
        self.angle = input.1;
    }

    fn update(&mut self, frame: &Frame) -> (r: RecResult<StraightSwipeOutcome>) {
        let pos = frame.cur.mean_pos();
        if frame.touch_down {
            RecResult::Failed
        } else if frame.touch_up {
            if self.is_far_enough(pos) {
                RecResult::Succeeded(self.outcome(StraightSwipeReason::LiftedFinger, pos))
            } else {
                RecResult::Failed
            }
        } else {
            let step_sq = distance_sq(pos, self.last_pos);
            let st = self.step as u128;
            assert(st * st <= 4294967296 * 4294967296) by (nonlinear_arith)
                requires
                    st <= 4294967296,
            ;
            if step_sq < st * st {
                RecResult::Continuing
            } else {
                let a = travel_angle_exec(self.last_pos, pos);
                self.last_pos = pos;
                let turn = a.minus(self.angle).abs();
                proof {
                    Angle::lemma_of(a@ - self.angle@);
                }
                if turn.to_millidegrees() > self.angle_tolerance {
                    if self.is_far_enough(pos) {
                        RecResult::Succeeded(self.outcome(StraightSwipeReason::ChangedAngle, pos))
                    } else {
                        RecResult::Failed
                    }
                } else {
                    let len = isqrt(step_sq);
                    proof {
                        let dx = pos.x - old(self).last_pos.x;
                        let dy = pos.y - old(self).last_pos.y;
                        assert(step_sq <= 8589934592 * 8589934592) by (nonlinear_arith)
                            requires
                                step_sq == dx * dx + dy * dy,
                                -4294967296 <= dx <= 4294967296,
                                -4294967296 <= dy <= 4294967296,
                        ;
                        lemma_sqrt_floor_bound(step_sq as int, 8589934592);
                    }
                    assert((len as u128) * (self.adaptivity as u128) <= 8589934592 * 4294967296)
                        by (nonlinear_arith)
                        requires
                            len <= 8589934592,
                            self.adaptivity <= 4294967296,
                    ;
                    let prod = len as u128 * self.adaptivity as u128;
                    let raw = prod / 1000;
                    let lambda: i64 = if raw > LAMBDA_ONE as u128 {
                        LAMBDA_ONE
                    } else {
                        raw as i64
                    };
                    self.angle = self.angle.interpolate(a, lambda);
                    RecResult::Continuing
                }
            }
        }
    }

    proof fn lemma_config_kept(self, input: (Point, Angle), frame: FrameView) {
    }

    proof fn lemma_init_by_config(self, other: Self, input: (Point, Angle), frame: FrameView) {
    }

    proof fn lemma_update_by_state(self, other: Self, frame: FrameView) {
    }
}

} // verus!
