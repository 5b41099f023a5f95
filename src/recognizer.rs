//! The recognizer algebra: the `Recognizer` and `Filter` traits and their combinators.
use vstd::prelude::*;

use crate::frame::{Frame, FrameView};

verus! {

/// The result of trying to recognize a gesture.
#[derive(Clone, Copy, Debug, PartialEq, Eq)]
pub enum RecResult<T> {
    /// More input is needed to decide.
    Continuing,
    /// The gesture is finished, with this output.
    Succeeded(T),
    /// The gesture was not recognized.
    Failed,
}

impl<T> RecResult<T> {
    /// Applies `f` to the output of a success; other results pass through.
    pub fn map<U, F: FnOnce(T) -> U>(self, f: F) -> (r: RecResult<U>)
        requires
            self matches RecResult::Succeeded(t) ==> f.requires((t,)),
        ensures
            self is Continuing ==> r is Continuing,
            self is Failed ==> r is Failed,
            self matches RecResult::Succeeded(t) ==> (r matches RecResult::Succeeded(u) && f.ensures(
                (t,),
                u,
            )),
    {
        match self {
            RecResult::Continuing => RecResult::Continuing,
            RecResult::Failed => RecResult::Failed,
            RecResult::Succeeded(t) => RecResult::Succeeded(f(t)),
        }
    }

    /// Replaces a success by what `f` makes of its output; other results pass through.
    pub fn and_then<U, F: FnOnce(T) -> RecResult<U>>(self, f: F) -> (r: RecResult<U>)
        requires
            self matches RecResult::Succeeded(t) ==> f.requires((t,)),
        ensures
            self is Continuing ==> r is Continuing,
            self is Failed ==> r is Failed,
            self matches RecResult::Succeeded(t) ==> f.ensures((t,), r),
    {
        match self {
            RecResult::Continuing => RecResult::Continuing,
            RecResult::Failed => RecResult::Failed,
            RecResult::Succeeded(t) => f(t),
        }
    }
}

/// Whether a result ends an activation.
pub open spec fn is_terminal<T>(r: RecResult<T>) -> bool {
    !(r is Continuing)
}

/// A stateful component that reads successive frames and eventually reports a verdict.
///
/// The state splits into a configuration, which no call changes, and a state, which together
/// with the configuration decides how the recognizer answers frames.
pub trait Recognizer: Sized {
    type In;
    type Out;
    type Config;
    type State;

    /// The internal state is well formed.
    spec fn inv(&self) -> bool;

    /// The parameters, kept across activations.
    spec fn config(&self) -> Self::Config;

    /// What, beside the configuration, decides the answers to later frames.
    spec fn state(&self) -> Self::State;

    /// The recognizer after `init(input, frame)`.
    spec fn spec_init(self, input: Self::In, frame: FrameView) -> Self;

    /// The recognizer and its result after `update(frame)`.
    spec fn spec_update(self, frame: FrameView) -> (Self, RecResult<Self::Out>);

    /// Starts an activation with an input and the current frame.
    fn init(&mut self, input: Self::In, frame: &Frame)
        requires
            frame.wf(),
        ensures
            *final(self) == old(self).spec_init(input, frame@),
            final(self).inv(),
    ;

    /// Reads the frame of a tick and says whether the gesture has been decided.
    fn update(&mut self, frame: &Frame) -> (r: RecResult<Self::Out>)
        requires
            old(self).inv(),
            frame.wf(),
        ensures
            (*final(self), r) == old(self).spec_update(frame@),
            final(self).inv(),
    ;

    /// Neither call changes the configuration.
    proof fn lemma_config_kept(self, input: Self::In, frame: FrameView)
        ensures
            self.spec_init(input, frame).config() == self.config(),
            self.spec_update(frame).0.config() == self.config(),
    ;

    /// The state that `init` leaves depends on the configuration alone, not on the past.
    proof fn lemma_init_by_config(self, other: Self, input: Self::In, frame: FrameView)
        requires
            self.config() == other.config(),
        ensures
            self.spec_init(input, frame).state() == other.spec_init(input, frame).state(),
    ;

    /// Configuration and state decide the result of `update` and the state after it.
    proof fn lemma_update_by_state(self, other: Self, frame: FrameView)
        requires
            self.config() == other.config(),
            self.state() == other.state(),
        ensures
            self.spec_update(frame).1 == other.spec_update(frame).1,
            self.spec_update(frame).0.state() == other.spec_update(frame).0.state(),
    ;
}

/// One call on a recognizer: `init` with an input and a frame, or `update` with a frame.
pub enum Call<I> {
    Init(I, FrameView),
    Update(FrameView),
}

/// The recognizer after each call of `calls` in turn.
pub open spec fn replay<R: Recognizer>(r: R, calls: Seq<Call<R::In>>) -> R
    decreases calls.len(),
{
    if calls.len() == 0 {
        r
    } else {
        let next = match calls[0] {
            Call::Init(i, f) => r.spec_init(i, f),
            Call::Update(f) => r.spec_update(f).0,
        };
        replay(next, calls.skip(1))
    }
}

/// The results of updating `r` with each frame of `frames` in turn.
pub open spec fn verdicts<R: Recognizer>(r: R, frames: Seq<FrameView>) -> Seq<RecResult<R::Out>>
    decreases frames.len(),
{
    if frames.len() == 0 {
        Seq::empty()
    } else {
        let (next, res) = r.spec_update(frames[0]);
        seq![res] + verdicts(next, frames.skip(1))
    }
}

proof fn lemma_replay_keeps_config<R: Recognizer>(r: R, calls: Seq<Call<R::In>>)
    ensures
        replay(r, calls).config() == r.config(),
    decreases calls.len(),
{
    if calls.len() > 0 {
        let next = match calls[0] {
            Call::Init(i, f) => r.spec_init(i, f),
            Call::Update(f) => r.spec_update(f).0,
        };
        match calls[0] {
            Call::Init(i, f) => r.lemma_config_kept(i, f),
            Call::Update(f) => r.lemma_config_kept(arbitrary(), f),
        }
        lemma_replay_keeps_config(next, calls.skip(1));
    }
}

proof fn lemma_same_verdicts<R: Recognizer>(a: R, b: R, frames: Seq<FrameView>)
    requires
        a.config() == b.config(),
        a.state() == b.state(),
    ensures
        verdicts(a, frames) == verdicts(b, frames),
    decreases frames.len(),
{
    if frames.len() > 0 {
        let f = frames[0];
        a.lemma_update_by_state(b, f);
        a.lemma_config_kept(arbitrary(), f);
        b.lemma_config_kept(arbitrary(), f);
        lemma_same_verdicts(a.spec_update(f).0, b.spec_update(f).0, frames.skip(1));
    }
}

/// A recognizer started with an input and a frame answers any later frames as it would have
/// if nothing had been done with it before: its earlier activations leave no trace.
pub proof fn law_fresh_activation<R: Recognizer>(
    r: R,
    history: Seq<Call<R::In>>,
    input: R::In,
    start: FrameView,
    frames: Seq<FrameView>,
)
    ensures
        verdicts(replay(r, history).spec_init(input, start), frames) == verdicts(
            r.spec_init(input, start),
            frames,
        ),
{
    let used = replay(r, history);
    lemma_replay_keeps_config(r, history);
    used.lemma_init_by_config(r, input, start);
    used.lemma_config_kept(input, start);
    r.lemma_config_kept(input, start);
    lemma_same_verdicts(used.spec_init(input, start), r.spec_init(input, start), frames);
}

/// The result of a `Filter`.
#[derive(Clone, Copy, Debug, PartialEq, Eq, Structural)]
pub enum FilterResult {
    Passed,
    Failed,
}

/// A guard that runs beside a recognizer and can make it fail.
pub trait Filter: Sized {
    type Config;
    type State;

    /// The internal state is well formed.
    spec fn inv(&self) -> bool;

    /// The parameters, kept across activations.
    spec fn config(&self) -> Self::Config;

    /// What, beside the configuration, decides the answers to later frames.
    spec fn state(&self) -> Self::State;

    /// The filter after `init(frame)`.
    spec fn spec_init(self, frame: FrameView) -> Self;

    /// The filter and its result after `update(frame)`.
    spec fn spec_update(self, frame: FrameView) -> (Self, FilterResult);

    /// Starts an activation with the current frame.
    fn init(&mut self, frame: &Frame)
        requires
            frame.wf(),
        ensures
            *final(self) == old(self).spec_init(frame@),
            final(self).inv(),
    ;

    /// Reads the frame of a tick.
    fn update(&mut self, frame: &Frame) -> (r: FilterResult)
        requires
            old(self).inv(),
            frame.wf(),
        ensures
            (*final(self), r) == old(self).spec_update(frame@),
            final(self).inv(),
    ;

    /// Neither call changes the configuration.
    proof fn lemma_config_kept(self, frame: FrameView)
        ensures
            self.spec_init(frame).config() == self.config(),
            self.spec_update(frame).0.config() == self.config(),
    ;

    /// The state that `init` leaves depends on the configuration alone, not on the past.
    proof fn lemma_init_by_config(self, other: Self, frame: FrameView)
        requires
            self.config() == other.config(),
        ensures
            self.spec_init(frame).state() == other.spec_init(frame).state(),
    ;

    /// Configuration and state decide the result of `update` and the state after it.
    proof fn lemma_update_by_state(self, other: Self, frame: FrameView)
        requires
            self.config() == other.config(),
            self.state() == other.state(),
        ensures
            self.spec_update(frame).1 == other.spec_update(frame).1,
            self.spec_update(frame).0.state() == other.spec_update(frame).0.state(),
    ;
}

/// A function applied to the output of a successful recognizer.
pub trait OutcomeMap<T> {
    type Out;

    spec fn spec_apply(&self, t: T) -> Self::Out;

    fn apply(&self, t: T) -> (r: Self::Out)
        ensures
            r == self.spec_apply(t),
    ;
}

/// A function that may turn the output of a successful recognizer into a failure.
pub trait OutcomeFlatMap<T> {
    type Out;

    spec fn spec_apply(&self, t: T) -> RecResult<Self::Out>;

    fn apply(&self, t: T) -> (r: RecResult<Self::Out>)
        ensures
            r == self.spec_apply(t),
    ;
}

/// A test on the output of a successful recognizer.
pub trait OutcomeTest<T> {
    spec fn spec_test(&self, t: T) -> bool;

    fn test(&self, t: &T) -> (r: bool)
        ensures
            r == self.spec_test(*t),
    ;
}

/// Splits an input into a part to keep and a part to pass on.
pub trait InputSplit {
    type From;
    type Kept;
    type Passed;

    spec fn spec_split(&self, x: Self::From) -> (Self::Kept, Self::Passed);

    fn split(&self, x: Self::From) -> (r: (Self::Kept, Self::Passed))
        ensures
            r == self.spec_split(x),
    ;
}

/// Recognizes one gesture and then another: the output of the first starts the second.
#[derive(Clone, Debug)]
pub struct Composition<R1, R2> {
    pub rec1: R1,
    pub rec2: R2,
    pub on_rec2: bool,
}

impl<R1: Recognizer, R2: Recognizer<In = R1::Out>> Composition<R1, R2> {
    /// The first recognizer.
    pub open spec fn first(self) -> R1 {
        self.rec1
    }

    /// The second recognizer.
    pub open spec fn second(self) -> R2 {
        self.rec2
    }

    /// Whether the first recognizer has succeeded in this activation.
    pub open spec fn on_second(self) -> bool {
        self.on_rec2
    }

    /// `rec1`, then `rec2`.
    pub fn new(rec1: R1, rec2: R2) -> (r: Composition<R1, R2>)
        ensures
            r == (Composition { rec1, rec2, on_rec2: false }),
            r.first() == rec1,
            r.second() == rec2,
            !r.on_second(),
            r.config() == (rec1.config(), rec2.config()),
            rec1.inv() ==> r.inv(),
    {
        Composition { rec1, rec2, on_rec2: false }
    }
}

impl<R1: Recognizer, R2: Recognizer<In = R1::Out>> Recognizer for Composition<R1, R2> {
    type In = R1::In;
    type Out = R2::Out;
    type Config = (R1::Config, R2::Config);
    type State = (bool, R1::State, Option<R2::State>);

    open spec fn inv(&self) -> bool {
        self.rec1.inv() && (self.on_rec2 ==> self.rec2.inv())
    }

    open spec fn config(&self) -> Self::Config {
        (self.rec1.config(), self.rec2.config())
    }

    open spec fn state(&self) -> Self::State {
        (self.on_rec2, self.rec1.state(), if self.on_rec2 { Some(self.rec2.state()) } else { None })
    }

    open spec fn spec_init(self, input: R1::In, frame: FrameView) -> Self {
        Composition { rec1: self.rec1.spec_init(input, frame), on_rec2: false, ..self }
    }

    open spec fn spec_update(self, frame: FrameView) -> (Self, RecResult<R2::Out>) {
        if self.on_rec2 {
            let (r2, res) = self.rec2.spec_update(frame);
            (Composition { rec2: r2, ..self }, res)
        } else {
            let (r1, res) = self.rec1.spec_update(frame);
            match res {
                RecResult::Succeeded(x) => (
                    Composition { rec1: r1, rec2: self.rec2.spec_init(x, frame), on_rec2: true },
                    RecResult::Continuing,
                ),
                RecResult::Continuing => (Composition { rec1: r1, ..self }, RecResult::Continuing),
                RecResult::Failed => (Composition { rec1: r1, ..self }, RecResult::Failed),
            }
        }
    }

    fn init(&mut self, input: R1::In, frame: &Frame) {
        self.rec1.init(input, frame);
        self.on_rec2 = false;
    }

    fn update(&mut self, frame: &Frame) -> (r: RecResult<R2::Out>) {
        if self.on_rec2 {
            self.rec2.update(frame)
        } else {
            match self.rec1.update(frame) {
                RecResult::Failed => RecResult::Failed,
                RecResult::Continuing => RecResult::Continuing,
                RecResult::Succeeded(x) => {
                    self.on_rec2 = true;
                    self.rec2.init(x, frame);
                    RecResult::Continuing
                },
            }
        }
    }

    proof fn lemma_config_kept(self, input: R1::In, frame: FrameView) {
        self.rec1.lemma_config_kept(input, frame);
        self.rec2.lemma_config_kept(arbitrary(), frame);
        if !self.on_rec2 {
            if let RecResult::Succeeded(x) = self.rec1.spec_update(frame).1 {
                self.rec2.lemma_config_kept(x, frame);
            }
        }
    }

    proof fn lemma_init_by_config(self, other: Self, input: R1::In, frame: FrameView) {
        self.rec1.lemma_init_by_config(other.rec1, input, frame);
    }

    proof fn lemma_update_by_state(self, other: Self, frame: FrameView) {
        if self.on_rec2 {
            self.rec2.lemma_update_by_state(other.rec2, frame);
        } else {
            self.rec1.lemma_update_by_state(other.rec1, frame);
            if let RecResult::Succeeded(x) = self.rec1.spec_update(frame).1 {
                self.rec2.lemma_init_by_config(other.rec2, x, frame);
            }
        }
    }
}

/// Recognizes what `R` recognizes, but fails as soon as the filter `F` fails; on each tick the
/// filter runs first, and the recognizer is not updated on a tick where it fails.
#[derive(Clone, Debug)]
pub struct Constraint<R, F> {
    pub rec: R,
    pub fil: F,
}

impl<R: Recognizer, F: Filter> Constraint<R, F> {
    /// The constrained recognizer.
    pub open spec fn recognizer(self) -> R {
        self.rec
    }

    /// The filter.
    pub open spec fn filter(self) -> F {
        self.fil
    }

    /// `rec` constrained by `fil`.
    pub fn new(rec: R, fil: F) -> (r: Constraint<R, F>)
        ensures
            r == (Constraint { rec, fil }),
            r.recognizer() == rec,
            r.filter() == fil,
            r.config() == (rec.config(), fil.config()),
            rec.inv() && fil.inv() ==> r.inv(),
    {
        Constraint { rec, fil }
    }
}

impl<R: Recognizer, F: Filter> Recognizer for Constraint<R, F> {
    type In = R::In;
    type Out = R::Out;
    type Config = (R::Config, F::Config);
    type State = (R::State, F::State);

    open spec fn inv(&self) -> bool {
        self.rec.inv() && self.fil.inv()
    }

    open spec fn config(&self) -> Self::Config {
        (self.rec.config(), self.fil.config())
    }

    open spec fn state(&self) -> Self::State {
        (self.rec.state(), self.fil.state())
    }

    open spec fn spec_init(self, input: R::In, frame: FrameView) -> Self {
        Constraint { rec: self.rec.spec_init(input, frame), fil: self.fil.spec_init(frame) }
    }

    open spec fn spec_update(self, frame: FrameView) -> (Self, RecResult<R::Out>) {
        let (f2, fres) = self.fil.spec_update(frame);
        if fres is Failed {
            (Constraint { fil: f2, ..self }, RecResult::Failed)
        } else {
            let (r2, res) = self.rec.spec_update(frame);
            (Constraint { rec: r2, fil: f2 }, res)
        }
    }

    fn init(&mut self, input: R::In, frame: &Frame) {
        self.rec.init(input, frame);
        self.fil.init(frame);
    }

    fn update(&mut self, frame: &Frame) -> (r: RecResult<R::Out>) {
        match self.fil.update(frame) {
            FilterResult::Failed => RecResult::Failed,
            FilterResult::Passed => self.rec.update(frame),
        }
    }

    proof fn lemma_config_kept(self, input: R::In, frame: FrameView) {
        self.rec.lemma_config_kept(input, frame);
        self.fil.lemma_config_kept(frame);
    }

    proof fn lemma_init_by_config(self, other: Self, input: R::In, frame: FrameView) {
        self.rec.lemma_init_by_config(other.rec, input, frame);
        self.fil.lemma_init_by_config(other.fil, frame);
    }

    proof fn lemma_update_by_state(self, other: Self, frame: FrameView) {
        self.rec.lemma_update_by_state(other.rec, frame);
        self.fil.lemma_update_by_state(other.fil, frame);
    }
}

/// Recognizes what `R` recognizes, with the output of a success transformed by `F`.
#[derive(Clone, Debug)]
pub struct MapOutcome<R, F> {
    pub rec: R,
    pub f: F,
}

impl<R: Recognizer, F: OutcomeMap<R::Out>> MapOutcome<R, F> {
    /// The inner recognizer.
    pub open spec fn recognizer(self) -> R {
        self.rec
    }

    /// The function applied to outputs.
    pub open spec fn function(self) -> F {
        self.f
    }

    /// `rec` with its outputs mapped by `f`.
    pub fn new(rec: R, f: F) -> (r: MapOutcome<R, F>)
        ensures
            r == (MapOutcome { rec, f }),
            r.recognizer() == rec,
            r.function() == f,
            r.config() == (rec.config(), f),
            rec.inv() ==> r.inv(),
    {
        MapOutcome { rec, f }
    }
}

impl<R: Recognizer, F: OutcomeMap<R::Out>> Recognizer for MapOutcome<R, F> {
    type In = R::In;
    type Out = F::Out;
    type Config = (R::Config, F);
    type State = R::State;

    open spec fn inv(&self) -> bool {
        self.rec.inv()
    }

    open spec fn config(&self) -> Self::Config {
        (self.rec.config(), self.f)
    }

    open spec fn state(&self) -> Self::State {
        self.rec.state()
    }

    open spec fn spec_init(self, input: R::In, frame: FrameView) -> Self {
        MapOutcome { rec: self.rec.spec_init(input, frame), ..self }
    }

    open spec fn spec_update(self, frame: FrameView) -> (Self, RecResult<F::Out>) {
        let (r2, res) = self.rec.spec_update(frame);
        (
            MapOutcome { rec: r2, ..self },
            match res {
                RecResult::Succeeded(x) => RecResult::Succeeded(self.f.spec_apply(x)),
                RecResult::Continuing => RecResult::Continuing,
                RecResult::Failed => RecResult::Failed,
            },
        )
    }

    fn init(&mut self, input: R::In, frame: &Frame) {
        self.rec.init(input, frame);
    }

    fn update(&mut self, frame: &Frame) -> (r: RecResult<F::Out>) {
        match self.rec.update(frame) {
            RecResult::Succeeded(x) => RecResult::Succeeded(self.f.apply(x)),
            RecResult::Continuing => RecResult::Continuing,
            RecResult::Failed => RecResult::Failed,
        }
    }

    proof fn lemma_config_kept(self, input: R::In, frame: FrameView) {
        self.rec.lemma_config_kept(input, frame);
    }

    proof fn lemma_init_by_config(self, other: Self, input: R::In, frame: FrameView) {
        self.rec.lemma_init_by_config(other.rec, input, frame);
    }

    proof fn lemma_update_by_state(self, other: Self, frame: FrameView) {
        self.rec.lemma_update_by_state(other.rec, frame);
    }
}

/// Recognizes what `R` recognizes, with a success replaced by what `F` makes of its output,
/// which may be a failure.
#[derive(Clone, Debug)]
pub struct FlatMapOutcome<R, F> {
    pub rec: R,
    pub f: F,
}

impl<R: Recognizer, F: OutcomeFlatMap<R::Out>> FlatMapOutcome<R, F> {
    /// The inner recognizer.
    pub open spec fn recognizer(self) -> R {
        self.rec
    }

    /// The function applied to outputs.
    pub open spec fn function(self) -> F {
        self.f
    }

    /// `rec` with its successes passed through `f`.
    pub fn new(rec: R, f: F) -> (r: FlatMapOutcome<R, F>)
        ensures
            r == (FlatMapOutcome { rec, f }),
            r.recognizer() == rec,
            r.function() == f,
            r.config() == (rec.config(), f),
            rec.inv() ==> r.inv(),
    {
        FlatMapOutcome { rec, f }
    }
}

impl<R: Recognizer, F: OutcomeFlatMap<R::Out>> Recognizer for FlatMapOutcome<R, F> {
    type In = R::In;
    type Out = F::Out;
    type Config = (R::Config, F);
    type State = R::State;

    open spec fn inv(&self) -> bool {
        self.rec.inv()
    }

    open spec fn config(&self) -> Self::Config {
        (self.rec.config(), self.f)
    }

    open spec fn state(&self) -> Self::State {
        self.rec.state()
    }

    open spec fn spec_init(self, input: R::In, frame: FrameView) -> Self {
        FlatMapOutcome { rec: self.rec.spec_init(input, frame), ..self }
    }

    open spec fn spec_update(self, frame: FrameView) -> (Self, RecResult<F::Out>) {
        let (r2, res) = self.rec.spec_update(frame);
        (
            FlatMapOutcome { rec: r2, ..self },
            match res {
                RecResult::Succeeded(x) => self.f.spec_apply(x),
                RecResult::Continuing => RecResult::Continuing,
                RecResult::Failed => RecResult::Failed,
            },
        )
    }

    fn init(&mut self, input: R::In, frame: &Frame) {
        self.rec.init(input, frame);
    }

    fn update(&mut self, frame: &Frame) -> (r: RecResult<F::Out>) {
        match self.rec.update(frame) {
            RecResult::Succeeded(x) => self.f.apply(x),
            RecResult::Continuing => RecResult::Continuing,
            RecResult::Failed => RecResult::Failed,
        }
    }

    proof fn lemma_config_kept(self, input: R::In, frame: FrameView) {
        self.rec.lemma_config_kept(input, frame);
    }

    proof fn lemma_init_by_config(self, other: Self, input: R::In, frame: FrameView) {
        self.rec.lemma_init_by_config(other.rec, input, frame);
    }

    proof fn lemma_update_by_state(self, other: Self, frame: FrameView) {
        self.rec.lemma_update_by_state(other.rec, frame);
    }
}

/// Recognizes what `R` recognizes, but only keeps the successes whose output passes `P`.
#[derive(Clone, Debug)]
pub struct FilterOutcome<R, P> {
    pub rec: R,
    pub p: P,
}

impl<R: Recognizer, P: OutcomeTest<R::Out>> FilterOutcome<R, P> {
    /// The inner recognizer.
    pub open spec fn recognizer(self) -> R {
        self.rec
    }

    /// The test on outputs.
    pub open spec fn test(self) -> P {
        self.p
    }

    /// `rec`, failing where an output does not pass `p`.
    pub fn new(rec: R, p: P) -> (r: FilterOutcome<R, P>)
        ensures
            r == (FilterOutcome { rec, p }),
            r.recognizer() == rec,
            r.test() == p,
            r.config() == (rec.config(), p),
            rec.inv() ==> r.inv(),
    {
        FilterOutcome { rec, p }
    }
}

impl<R: Recognizer, P: OutcomeTest<R::Out>> Recognizer for FilterOutcome<R, P> {
    type In = R::In;
    type Out = R::Out;
    type Config = (R::Config, P);
    type State = R::State;

    open spec fn inv(&self) -> bool {
        self.rec.inv()
    }

    open spec fn config(&self) -> Self::Config {
        (self.rec.config(), self.p)
    }

    open spec fn state(&self) -> Self::State {
        self.rec.state()
    }

    open spec fn spec_init(self, input: R::In, frame: FrameView) -> Self {
        FilterOutcome { rec: self.rec.spec_init(input, frame), ..self }
    }

    open spec fn spec_update(self, frame: FrameView) -> (Self, RecResult<R::Out>) {
        let (r2, res) = self.rec.spec_update(frame);
        (
            FilterOutcome { rec: r2, ..self },
            match res {
                RecResult::Succeeded(x) => if self.p.spec_test(x) {
                    RecResult::Succeeded(x)
                } else {
                    RecResult::Failed
                },
                RecResult::Continuing => RecResult::Continuing,
                RecResult::Failed => RecResult::Failed,
            },
        )
    }

    fn init(&mut self, input: R::In, frame: &Frame) {
        self.rec.init(input, frame);
    }

    fn update(&mut self, frame: &Frame) -> (r: RecResult<R::Out>) {
        match self.rec.update(frame) {
            RecResult::Succeeded(x) => if self.p.test(&x) {
                RecResult::Succeeded(x)
            } else {
                RecResult::Failed
            },
            RecResult::Continuing => RecResult::Continuing,
            RecResult::Failed => RecResult::Failed,
        }
    }

    proof fn lemma_config_kept(self, input: R::In, frame: FrameView) {
        self.rec.lemma_config_kept(input, frame);
    }

    proof fn lemma_init_by_config(self, other: Self, input: R::In, frame: FrameView) {
        self.rec.lemma_init_by_config(other.rec, input, frame);
    }

    proof fn lemma_update_by_state(self, other: Self, frame: FrameView) {
        self.rec.lemma_update_by_state(other.rec, frame);
    }
}

/// Takes an input that `G` splits in two: it keeps the first part and starts `R` with the second,
/// and pairs the kept part with the output of a success. A success with nothing kept, which only
/// an update before any `init` can give, counts as a failure.
#[derive(Clone, Debug)]
pub struct SplitInput<R, G: InputSplit> {
    pub rec: R,
    pub g: G,
    pub cached: Option<G::Kept>,
}

impl<R: Recognizer, G: InputSplit<Passed = R::In>> SplitInput<R, G> {
    /// The inner recognizer.
    pub open spec fn recognizer(self) -> R {
        self.rec
    }

    /// The function that splits inputs.
    pub open spec fn splitter(self) -> G {
        self.g
    }

    /// The kept part of the current input, until a success hands it out.
    pub open spec fn kept(self) -> Option<G::Kept> {
        self.cached
    }

    /// `rec`, fed with the second part of what `g` makes of each input.
    pub fn new(rec: R, g: G) -> (r: SplitInput<R, G>)
        ensures
            r == (SplitInput { rec, g, cached: None }),
            r.recognizer() == rec,
            r.splitter() == g,
            r.kept() is None,
            r.config() == (rec.config(), g),
            rec.inv() ==> r.inv(),
    {
        SplitInput { rec, g, cached: None }
    }
}

impl<R: Recognizer, G: InputSplit<Passed = R::In>> Recognizer for SplitInput<R, G> {
    type In = G::From;
    type Out = (G::Kept, R::Out);
    type Config = (R::Config, G);
    type State = (R::State, Option<G::Kept>);

    open spec fn inv(&self) -> bool {
        self.rec.inv()
    }

    open spec fn config(&self) -> Self::Config {
        (self.rec.config(), self.g)
    }

    open spec fn state(&self) -> Self::State {
        (self.rec.state(), self.cached)
    }

    open spec fn spec_init(self, input: G::From, frame: FrameView) -> Self {
        let (k, i) = self.g.spec_split(input);
        SplitInput { rec: self.rec.spec_init(i, frame), cached: Some(k), ..self }
    }

    open spec fn spec_update(self, frame: FrameView) -> (Self, RecResult<(G::Kept, R::Out)>) {
        let (r2, res) = self.rec.spec_update(frame);
        match res {
            RecResult::Succeeded(x) => match self.cached {
                Some(k) => (SplitInput { rec: r2, cached: None, ..self }, RecResult::Succeeded((k, x))),
                None => (SplitInput { rec: r2, ..self }, RecResult::Failed),
            },
            RecResult::Continuing => (SplitInput { rec: r2, ..self }, RecResult::Continuing),
            RecResult::Failed => (SplitInput { rec: r2, ..self }, RecResult::Failed),
        }
    }

    fn init(&mut self, input: G::From, frame: &Frame) {
        let (k, i) = self.g.split(input);
        self.cached = Some(k);
        self.rec.init(i, frame);
    }

    fn update(&mut self, frame: &Frame) -> (r: RecResult<(G::Kept, R::Out)>) {
        match self.rec.update(frame) {
            RecResult::Succeeded(x) => match self.cached.take() {
                Some(k) => RecResult::Succeeded((k, x)),
                None => RecResult::Failed,
            },
            RecResult::Continuing => RecResult::Continuing,
            RecResult::Failed => RecResult::Failed,
        }
    }

    proof fn lemma_config_kept(self, input: G::From, frame: FrameView) {
        self.rec.lemma_config_kept(self.g.spec_split(input).1, frame);
    }

    proof fn lemma_init_by_config(self, other: Self, input: G::From, frame: FrameView) {
        self.rec.lemma_init_by_config(other.rec, self.g.spec_split(input).1, frame);
    }

    proof fn lemma_update_by_state(self, other: Self, frame: FrameView) {
        self.rec.lemma_update_by_state(other.rec, frame);
    }
}

/// The builders of the combinators, available on every recognizer.
pub trait RecognizerBuild: Recognizer {
    /// This recognizer, then `other`, started with the output of this one.
    fn and_then<R2: Recognizer<In = Self::Out>>(self, other: R2) -> (r: Composition<Self, R2>)
        ensures
            r == (Composition { rec1: self, rec2: other, on_rec2: false }),
    ;

    /// This recognizer, failing as soon as `fil` fails.
    fn constrain<F: Filter>(self, fil: F) -> (r: Constraint<Self, F>)
        ensures
            r == (Constraint { rec: self, fil }),
    ;

    /// This recognizer with the output of a success mapped by `f`.
    fn map_outcome<F: OutcomeMap<Self::Out>>(self, f: F) -> (r: MapOutcome<Self, F>)
        ensures
            r == (MapOutcome { rec: self, f }),
    ;

    /// This recognizer with a success replaced by what `f` makes of its output.
    fn flat_map_outcome<F: OutcomeFlatMap<Self::Out>>(self, f: F) -> (r: FlatMapOutcome<Self, F>)
        ensures
            r == (FlatMapOutcome { rec: self, f }),
    ;

    /// This recognizer, failing where the output of a success does not pass `p`.
    fn filter_outcome<P: OutcomeTest<Self::Out>>(self, p: P) -> (r: FilterOutcome<Self, P>)
        ensures
            r == (FilterOutcome { rec: self, p }),
    ;

    /// This recognizer, taking inputs that `g` splits into a part to keep and its own input.
    fn split_input<G: InputSplit<Passed = Self::In>>(self, g: G) -> (r: SplitInput<Self, G>)
        ensures
            r == (SplitInput { rec: self, g, cached: None }),
    ;
}

impl<R: Recognizer> RecognizerBuild for R {
    fn and_then<R2: Recognizer<In = R::Out>>(self, other: R2) -> (r: Composition<R, R2>) {
        Composition::new(self, other)
    }

    fn constrain<F: Filter>(self, fil: F) -> (r: Constraint<R, F>) {
        Constraint::new(self, fil)
    }

    fn map_outcome<F: OutcomeMap<R::Out>>(self, f: F) -> (r: MapOutcome<R, F>) {
        MapOutcome::new(self, f)
    }

    fn flat_map_outcome<F: OutcomeFlatMap<R::Out>>(self, f: F) -> (r: FlatMapOutcome<R, F>) {
        FlatMapOutcome::new(self, f)
    }

    fn filter_outcome<P: OutcomeTest<R::Out>>(self, p: P) -> (r: FilterOutcome<R, P>) {
        FilterOutcome::new(self, p)
    }

    fn split_input<G: InputSplit<Passed = R::In>>(self, g: G) -> (r: SplitInput<R, G>) {
        SplitInput::new(self, g)
    }
}

} // verus!
