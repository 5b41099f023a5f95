//! Filters that make a recognizer fail when the fingers move in the wrong way.
use vstd::prelude::*;

use crate::frame::{Frame, FrameView, Snapshot, SnapshotView};
use crate::geom::{dist, distance, lemma_sqrt_floor_bound, len_sq, LAMBDA_ONE};
use crate::primitive::blend_factor;
use crate::recognizer::{Filter, FilterResult};

verus! {

/// Fails once the fingers that are down have moved, on average, more than a threshold from
/// where they were. Fingers may come down and go up: a finger that comes down is tracked from
/// where it first appears.
#[derive(Clone, Copy, Debug)]
pub struct NoMovement {
    pub threshold: u32,
    pub init_pos: Snapshot,
}

impl NoMovement {
    /// The largest mean movement that passes, in micrometres.
    pub open spec fn threshold(self) -> u32 {
        self.threshold
    }

    /// A filter with a threshold of one millimetre.
    pub fn new() -> (r: NoMovement)
        ensures
            r == (NoMovement { threshold: 1000, init_pos: Snapshot::empty() }),
            r.threshold() == 1000,
            r.config() == 1000u32,
            r.inv(),
    {
        NoMovement { threshold: 1000, init_pos: Snapshot::new() }
    }
}

impl Filter for NoMovement {
    type Config = u32;
    type State = Snapshot;

    open spec fn inv(&self) -> bool {
        self.init_pos.wf()
    }

    open spec fn config(&self) -> u32 {
        self.threshold
    }

    open spec fn state(&self) -> Snapshot {
        self.init_pos
    }

    open spec fn spec_init(self, frame: FrameView) -> Self {
        NoMovement { init_pos: Snapshot::from_view(frame.cur), ..self }
    }

    open spec fn spec_update(self, frame: FrameView) -> (Self, FilterResult) {
        if frame.cur.mean_dist(self.init_pos@) > self.threshold {
            (self, FilterResult::Failed)
        } else {
            (
                NoMovement { init_pos: Snapshot::from_view(self.init_pos@.merged(frame.cur)), ..self },
                FilterResult::Passed,
            )
        }
    }

    fn init(&mut self, frame: &Frame) {
        self.init_pos = frame.cur;
        proof {
            Snapshot::lemma_from_view(frame.cur);
        }
    }

    fn update(&mut self, frame: &Frame) -> (r: FilterResult) {
        if frame.cur.mean_dist(&self.init_pos) > self.threshold as u64 {
            FilterResult::Failed
        } else {
            self.init_pos.merge(&frame.cur);
            proof {
                Snapshot::lemma_from_view(self.init_pos);
            }
            FilterResult::Passed
        }
    }

    proof fn lemma_config_kept(self, frame: FrameView) {
    }

    proof fn lemma_init_by_config(self, other: Self, frame: FrameView) {
    }

    proof fn lemma_update_by_state(self, other: Self, frame: FrameView) {
    }
}

/// Fails once the shape of the hand changes: the positions of the fingers relative to their
/// mean move, on average, more than a threshold from the tracked shape. The hand as a whole may
/// move, and fingers may come down and go up.
#[derive(Clone, Copy, Debug)]
pub struct NoRelativeMovement {
    pub threshold: u32,
    pub adaptivity: u32,
    pub init_rel_pos: Snapshot,
}

/// The finger positions of `s` relative to their mean.
pub open spec fn relative(s: SnapshotView) -> SnapshotView {
    s.unshifted(s.mean())
}

/// How far the mean position moved between the last tick and this one, as far as fingers that
/// came down or went up moved it.
pub open spec fn set_change_offset(frame: FrameView) -> crate::geom::Point {
    frame.cur.mean().minus_spec(frame.last.mean()).minus_spec(
        frame.cur.mean_filtered(frame.last).minus_spec(frame.last.mean_filtered(frame.cur)),
    )
}

impl NoRelativeMovement {
    /// The largest mean change of shape that passes, in micrometres.
    pub open spec fn threshold(self) -> u32 {
        self.threshold
    }

    /// How fast the tracked shape follows the hand, in millionths per millimetre of movement.
    pub open spec fn adaptivity(self) -> u32 {
        self.adaptivity
    }

    /// A filter with a threshold of 5 mm and an adaptivity of 0.02 per millimetre.
    pub fn new() -> (r: NoRelativeMovement)
        ensures
            r == (NoRelativeMovement {
                threshold: 5000,
                adaptivity: 20000,
                init_rel_pos: Snapshot::empty(),
            }),
            r.threshold() == 5000,
            r.adaptivity() == 20000,
            r.config() == (5000u32, 20000u32),
            r.inv(),
    {
        NoRelativeMovement { threshold: 5000, adaptivity: 20000, init_rel_pos: Snapshot::new() }
    }

    /// The tracked shape after the corrections for fingers that came down or went up.
    pub open spec fn corrected(self, frame: FrameView) -> SnapshotView {
        if frame.touch_down || frame.touch_up {
            self.init_rel_pos@.unshifted(set_change_offset(frame)).merged(relative(frame.cur))
        } else {
            self.init_rel_pos@
        }
    }
}

impl Filter for NoRelativeMovement {
    type Config = (u32, u32);
    type State = Snapshot;

    open spec fn inv(&self) -> bool {
        self.init_rel_pos.wf()
    }

    open spec fn config(&self) -> (u32, u32) {
        (self.threshold, self.adaptivity)
    }

    open spec fn state(&self) -> Snapshot {
        self.init_rel_pos
    }

    open spec fn spec_init(self, frame: FrameView) -> Self {
        NoRelativeMovement { init_rel_pos: Snapshot::from_view(relative(frame.cur)), ..self }
    }

    open spec fn spec_update(self, frame: FrameView) -> (Self, FilterResult) {
        let rel = self.corrected(frame);
        let now = relative(frame.cur);
        if now.mean_dist(rel) > self.threshold {
            (NoRelativeMovement { init_rel_pos: Snapshot::from_view(rel), ..self }, FilterResult::Failed)
        } else {
            let lambda = blend_factor(dist(frame.cur.mean(), frame.last.mean()), self.adaptivity as int);
            (
                NoRelativeMovement {
                    init_rel_pos: Snapshot::from_view(rel.interpolated(now, lambda)),
                    ..self
                },
                FilterResult::Passed,
            )
        }
    }

    fn init(&mut self, frame: &Frame) {
        let mut rel = frame.cur;
        rel.unshift(frame.cur.mean_pos());
        self.init_rel_pos = rel;
        proof {
            Snapshot::lemma_from_view(rel);
        }
    }

    fn update(&mut self, frame: &Frame) -> (r: FilterResult) {
        let changed = frame.touch_down || frame.touch_up;
        let mean_cur = frame.cur.mean_pos();
        let mean_last = frame.last.mean_pos();
        if changed {
            let mean_diff = mean_cur.minus(mean_last);
            let common_diff = frame.cur.mean_pos_filtered(&frame.last).minus(
                frame.last.mean_pos_filtered(&frame.cur),
            );
            self.init_rel_pos.unshift(mean_diff.minus(common_diff));
        }
        let mut rel_pos = frame.cur;
        rel_pos.unshift(mean_cur);
        if changed {
            self.init_rel_pos.merge(&rel_pos);
        }
        if rel_pos.mean_dist(&self.init_rel_pos) > self.threshold as u64 {
            proof {
                Snapshot::lemma_from_view(self.init_rel_pos);
            }
            FilterResult::Failed
        } else {
            let d = distance(mean_cur, mean_last);
            proof {
                let dx = mean_cur.x - mean_last.x;
                let dy = mean_cur.y - mean_last.y;
                assert(len_sq(dx, dy) <= 8589934592 * 8589934592) by (nonlinear_arith)
                    requires
                        -4294967296 <= dx <= 4294967296,
                        -4294967296 <= dy <= 4294967296,
                ;
                lemma_sqrt_floor_bound(len_sq(dx, dy), 8589934592);
            }
            assert((d as u128) * (self.adaptivity as u128) <= 8589934592 * 4294967296)
                by (nonlinear_arith)
                requires
                    d <= 8589934592,
                    self.adaptivity <= 4294967296,
            ;
            let raw = (d as u128 * self.adaptivity as u128) / 1000;
            let lambda: i64 = if raw > LAMBDA_ONE as u128 {
                LAMBDA_ONE
            } else {
                raw as i64
            };
            self.init_rel_pos.interpolate_to(&rel_pos, lambda);
            proof {
                Snapshot::lemma_from_view(self.init_rel_pos);
            }
            FilterResult::Passed
        }
    }

    proof fn lemma_config_kept(self, frame: FrameView) {
    }

    proof fn lemma_init_by_config(self, other: Self, frame: FrameView) {
    }

    proof fn lemma_update_by_state(self, other: Self, frame: FrameView) {
    }
}

} // verus!
