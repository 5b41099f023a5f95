//! Per-finger touch state and the per-tick summary that recognizers read.
use vstd::prelude::*;

use crate::geom::{Point, dist, distance, div_floor, LAMBDA_ONE};

verus! {

/// The number of finger slots that are tracked.
pub const MAX_SLOTS: usize = 10;

/// The number of set entries among the first `n` of `m`.
pub open spec fn count_set(m: Seq<bool>, n: int) -> int
    decreases n,
{
    if n <= 0 {
        0
    } else {
        count_set(m, n - 1) + if m[n - 1] {
            1int
        } else {
            0int
        }
    }
}

/// The sum of the x coordinates of the first `n` points of `p` whose entry in `m` is set.
pub open spec fn sum_x(m: Seq<bool>, p: Seq<Point>, n: int) -> int
    decreases n,
{
    if n <= 0 {
        0
    } else {
        sum_x(m, p, n - 1) + if m[n - 1] {
            p[n - 1].x as int
        } else {
            0int
        }
    }
}

/// The sum of the y coordinates of the first `n` points of `p` whose entry in `m` is set.
pub open spec fn sum_y(m: Seq<bool>, p: Seq<Point>, n: int) -> int
    decreases n,
{
    if n <= 0 {
        0
    } else {
        sum_y(m, p, n - 1) + if m[n - 1] {
            p[n - 1].y as int
        } else {
            0int
        }
    }
}

/// The sum of the distances between `p[i]` and `q[i]` over the first `n` slots set in `m`.
pub open spec fn sum_dist(m: Seq<bool>, p: Seq<Point>, q: Seq<Point>, n: int) -> int
    decreases n,
{
    if n <= 0 {
        0
    } else {
        sum_dist(m, p, q, n - 1) + if m[n - 1] {
            dist(p[n - 1], q[n - 1])
        } else {
            0int
        }
    }
}

/// `sum / count`, rounded down, or zero when `count` is zero.
pub open spec fn mean_of(sum: int, count: int) -> int {
    if count == 0 {
        0
    } else {
        sum / count
    }
}

/// The slots set in both `a` and `b`.
pub open spec fn both(a: Seq<bool>, b: Seq<bool>) -> Seq<bool> {
    Seq::new(MAX_SLOTS as nat, |i: int| a[i] && b[i])
}

/// The mathematical content of a `Snapshot`.
pub struct SnapshotView {
    pub num_down: int,
    pub down: Seq<bool>,
    pub pos: Seq<Point>,
}

impl SnapshotView {
    /// The cached count agrees with the presence flags.
    pub open spec fn wf(self) -> bool {
        &&& self.down.len() == MAX_SLOTS
        &&& self.pos.len() == MAX_SLOTS
        &&& self.num_down == count_set(self.down, MAX_SLOTS as int)
    }

    /// Finger `i` down at `p`; a finger that is already down only moves.
    pub open spec fn set_down(self, i: int, p: Point) -> SnapshotView {
        SnapshotView {
            num_down: if self.down[i] { self.num_down } else { self.num_down + 1 },
            down: self.down.update(i, true),
            pos: self.pos.update(i, p),
        }
    }

    /// Finger `i` up.
    pub open spec fn set_up(self, i: int) -> SnapshotView {
        SnapshotView {
            num_down: if self.down[i] { self.num_down - 1 } else { self.num_down },
            down: self.down.update(i, false),
            pos: self.pos,
        }
    }

    /// Finger `i` at `p`, whether it is down or not.
    pub open spec fn set_pos(self, i: int, p: Point) -> SnapshotView {
        SnapshotView { pos: self.pos.update(i, p), ..self }
    }

    /// The x coordinate of the mean position of the fingers that are down.
    pub open spec fn mean_x(self) -> int {
        mean_of(sum_x(self.down, self.pos, MAX_SLOTS as int), count_set(self.down, MAX_SLOTS as int))
    }

    /// The y coordinate of the mean position of the fingers that are down.
    pub open spec fn mean_y(self) -> int {
        mean_of(sum_y(self.down, self.pos, MAX_SLOTS as int), count_set(self.down, MAX_SLOTS as int))
    }

    /// The mean position of the fingers that are down; zero if none is.
    pub open spec fn mean(self) -> Point {
        Point { x: self.mean_x() as i32, y: self.mean_y() as i32 }
    }

    /// The mean position of the fingers down here and in `o`; zero if there is none.
    pub open spec fn mean_filtered(self, o: SnapshotView) -> Point {
        Point { x: self.mean_x_filtered(o) as i32, y: self.mean_y_filtered(o) as i32 }
    }

    /// The x coordinate of the mean position of the fingers down here and in `o`.
    pub open spec fn mean_x_filtered(self, o: SnapshotView) -> int {
        let m = both(self.down, o.down);
        mean_of(sum_x(m, self.pos, MAX_SLOTS as int), count_set(m, MAX_SLOTS as int))
    }

    /// The y coordinate of the mean position of the fingers down here and in `o`.
    pub open spec fn mean_y_filtered(self, o: SnapshotView) -> int {
        let m = both(self.down, o.down);
        mean_of(sum_y(m, self.pos, MAX_SLOTS as int), count_set(m, MAX_SLOTS as int))
    }

    /// Presence copied from `o`; a finger that comes down here takes its position from `o`.
    pub open spec fn merged(self, o: SnapshotView) -> SnapshotView {
        SnapshotView {
            num_down: count_set(o.down, MAX_SLOTS as int),
            down: o.down,
            pos: Seq::new(
                MAX_SLOTS as nat,
                |i: int|
                    if !self.down[i] && o.down[i] {
                        o.pos[i]
                    } else {
                        self.pos[i]
                    },
            ),
        }
    }

    /// Every position, down or up, offset by `d`.
    pub open spec fn shifted(self, d: Point) -> SnapshotView {
        SnapshotView { pos: Seq::new(MAX_SLOTS as nat, |i: int| self.pos[i].plus_spec(d)), ..self }
    }

    /// Every position, down or up, offset by minus `d`.
    pub open spec fn unshifted(self, d: Point) -> SnapshotView {
        SnapshotView { pos: Seq::new(MAX_SLOTS as nat, |i: int| self.pos[i].minus_spec(d)), ..self }
    }

    /// Each slot that is down in `o` blended towards its position there by `lambda` millionths.
    pub open spec fn interpolated(self, o: SnapshotView, lambda: int) -> SnapshotView {
        SnapshotView {
            pos: Seq::new(
                MAX_SLOTS as nat,
                |i: int|
                    if o.down[i] {
                        self.pos[i].lerp_spec(o.pos[i], lambda)
                    } else {
                        self.pos[i]
                    },
            ),
            ..self
        }
    }

    /// The mean distance between the positions here and in `o` of the fingers down in both.
    pub open spec fn mean_dist(self, o: SnapshotView) -> int {
        let m = both(self.down, o.down);
        mean_of(sum_dist(m, self.pos, o.pos, MAX_SLOTS as int), count_set(m, MAX_SLOTS as int))
    }
}

/// The state of all finger slots at one moment.
#[derive(Clone, Copy, Debug)]
pub struct Snapshot {
    /// How many fingers are down.
    pub num_down: u8,
    /// Which slots hold a finger that is down.
    pub down: [bool; MAX_SLOTS],
    /// The position of each slot; meaningless for a slot that is up.
    pub pos: [Point; MAX_SLOTS],
}

impl View for Snapshot {
    type V = SnapshotView;

    open spec fn view(&self) -> SnapshotView {
        SnapshotView { num_down: self.num_down as int, down: self.down@, pos: self.pos@ }
    }
}

proof fn lemma_count_bound(m: Seq<bool>, n: int)
    requires
        0 <= n,
    ensures
        0 <= count_set(m, n) <= n,
    decreases n,
{
    if n > 0 {
        lemma_count_bound(m, n - 1);
    }
}

proof fn lemma_count_update(m: Seq<bool>, i: int, v: bool, n: int)
    requires
        0 <= i < m.len(),
        0 <= n <= m.len(),
    ensures
        count_set(m.update(i, v), n) == count_set(m, n) + if i < n {
            (if v { 1int } else { 0int }) - (if m[i] { 1int } else { 0int })
        } else {
            0int
        },
    decreases n,
{
    if n > 0 {
        lemma_count_update(m, i, v, n - 1);
    }
}

proof fn lemma_mean_in_range(s: int, c: int)
    requires
        c > 0,
        -2147483648 * c <= s <= 2147483647 * c,
    ensures
        -2147483648 <= s / c <= 2147483647,
{
    vstd::arithmetic::div_mod::lemma_div_is_ordered(-2147483648 * c, s, c);
    vstd::arithmetic::div_mod::lemma_div_is_ordered(s, 2147483647 * c, c);
    vstd::arithmetic::mul::lemma_mul_is_commutative(-2147483648, c);
    vstd::arithmetic::mul::lemma_mul_is_commutative(2147483647, c);
    vstd::arithmetic::div_mod::lemma_div_multiples_vanish(-2147483648, c);
    vstd::arithmetic::div_mod::lemma_div_multiples_vanish(2147483647, c);
}

/// The mean position of the points of `pos` whose slot is set in `mask`; zero if none is.
fn masked_mean(mask: &[bool; MAX_SLOTS], pos: &[Point; MAX_SLOTS]) -> (r: Point)
    ensures
        r.x == mean_of(sum_x(mask@, pos@, MAX_SLOTS as int), count_set(mask@, MAX_SLOTS as int)),
        r.y == mean_of(sum_y(mask@, pos@, MAX_SLOTS as int), count_set(mask@, MAX_SLOTS as int)),
{
    let mut sx: i64 = 0;
    let mut sy: i64 = 0;
    let mut c: i64 = 0;
    let mut i: usize = 0;
    while i < MAX_SLOTS
        invariant
            i <= MAX_SLOTS,
            sx == sum_x(mask@, pos@, i as int),
            sy == sum_y(mask@, pos@, i as int),
            c == count_set(mask@, i as int),
            0 <= c <= i,
            -2147483648 * c <= sx <= 2147483647 * c,
            -2147483648 * c <= sy <= 2147483647 * c,
        decreases MAX_SLOTS - i,
    {
        if mask[i] {
            sx = sx + pos[i].x as i64;
            sy = sy + pos[i].y as i64;
            c = c + 1;
        }
        i = i + 1;
    }
    if c == 0 {
        Point::zero()
    } else {
        proof {
            lemma_mean_in_range(sx as int, c as int);
            lemma_mean_in_range(sy as int, c as int);
        }
        Point::new(div_floor(sx, c) as i32, div_floor(sy, c) as i32)
    }
}

/// The slots set in both `a` and `b`.
fn both_mask(a: &[bool; MAX_SLOTS], b: &[bool; MAX_SLOTS]) -> (r: [bool; MAX_SLOTS])
    ensures
        r@ == both(a@, b@),
{
    let mut r = [false; MAX_SLOTS];
    let mut i: usize = 0;
    while i < MAX_SLOTS
        invariant
            i <= MAX_SLOTS,
            r@.len() == MAX_SLOTS,
            forall|j: int| 0 <= j < i ==> r@[j] == (a@[j] && b@[j]),
        decreases MAX_SLOTS - i,
    {
        r[i] = a[i] && b[i];
        i = i + 1;
    }
    assert(r@ =~= both(a@, b@));
    r
}

impl Snapshot {
    /// The snapshot whose content is `v`.
    pub open spec fn from_view(v: SnapshotView) -> Snapshot {
        choose|s: Snapshot| s@ == v
    }

    /// A snapshot is the one its content describes.
    pub proof fn lemma_from_view(s: Snapshot)
        ensures
            Snapshot::from_view(s@) == s,
    {
        let t = Snapshot::from_view(s@);
        assert(t@ == s@);
        assert(t.down =~= s.down);
        assert(t.pos =~= s.pos);
    }

    /// The cached count agrees with the presence flags.
    pub open spec fn wf(&self) -> bool {
        self@.wf()
    }

    /// The content of a snapshot with every finger up and every position zero.
    pub open spec fn empty_view() -> SnapshotView {
        SnapshotView {
            num_down: 0,
            down: Seq::new(MAX_SLOTS as nat, |i: int| false),
            pos: Seq::new(MAX_SLOTS as nat, |i: int| Point::zero_spec()),
        }
    }

    /// The snapshot with every finger up and every position zero.
    pub open spec fn empty() -> Snapshot {
        Snapshot::from_view(Snapshot::empty_view())
    }

    /// A snapshot with every finger up and every position zero.
    pub fn new() -> (r: Snapshot)
        ensures
            r == Snapshot::empty(),
            r@ == Snapshot::empty_view(),
            r.wf(),
            r.num_down == 0,
            forall|i: int| 0 <= i < MAX_SLOTS ==> !r.down@[i] && r.pos@[i] == Point::zero_spec(),
    {
        let r = Snapshot { num_down: 0, down: [false; MAX_SLOTS], pos: [Point::zero(); MAX_SLOTS] };
        proof {
            lemma_count_zero(r.down@, MAX_SLOTS as int);
            assert(r.down@ =~= Snapshot::empty_view().down);
            assert(r.pos@ =~= Snapshot::empty_view().pos);
            Snapshot::lemma_from_view(r);
        }
        r
    }

    /// Marks finger `i` as down at `pos`; a finger that is already down only moves.
    pub fn set_down(&mut self, i: usize, pos: Point)
        requires
            old(self).wf(),
            i < MAX_SLOTS,
        ensures
            final(self)@ == old(self)@.set_down(i as int, pos),
            final(self).wf(),
    {
        proof {
            lemma_count_update(self.down@, i as int, true, MAX_SLOTS as int);
            lemma_count_bound(self.down@.update(i as int, true), MAX_SLOTS as int);
        }
        if !self.down[i] {
            self.num_down = self.num_down + 1;
            self.down[i] = true;
        }
        self.pos[i] = pos;
        proof {
            assert(self.down@ =~= old(self).down@.update(i as int, true));
        }
    }

    /// Marks finger `i` as up.
    pub fn set_up(&mut self, i: usize)
        requires
            old(self).wf(),
            i < MAX_SLOTS,
        ensures
            final(self)@ == old(self)@.set_up(i as int),
            final(self).wf(),
    {
        proof {
            lemma_count_update(self.down@, i as int, false, MAX_SLOTS as int);
            lemma_count_bound(self.down@.update(i as int, false), MAX_SLOTS as int);
        }
        if self.down[i] {
            self.num_down = self.num_down - 1;
            self.down[i] = false;
        }
        proof {
            assert(self.down@ =~= old(self).down@.update(i as int, false));
        }
    }

    /// The mean position of the fingers that are down; zero if none is.
    pub fn mean_pos(&self) -> (r: Point)
        ensures
            r == self@.mean(),
            r.x == self@.mean_x(),
            r.y == self@.mean_y(),
    {
        masked_mean(&self.down, &self.pos)
    }

    /// The mean position of the fingers that are down both here and in `other`; zero if none is.
    pub fn mean_pos_filtered(&self, other: &Snapshot) -> (r: Point)
        ensures
            r == self@.mean_filtered(other@),
            r.x == self@.mean_x_filtered(other@),
            r.y == self@.mean_y_filtered(other@),
    {
        let m = both_mask(&self.down, &other.down);
        masked_mean(&m, &self.pos)
    }

    /// The mean distance, over the fingers down both here and in `other`, between a finger's
    /// position here and there; zero if no finger is down in both.
    pub fn mean_dist(&self, other: &Snapshot) -> (r: u64)
        ensures
            r == self@.mean_dist(other@),
    {
        let m = both_mask(&self.down, &other.down);
        let mut s: u64 = 0;
        let mut c: u64 = 0;
        let mut i: usize = 0;
        while i < MAX_SLOTS
            invariant
                i <= MAX_SLOTS,
                m@ == both(self.down@, other.down@),
                s == sum_dist(m@, self.pos@, other.pos@, i as int),
                c == count_set(m@, i as int),
                c <= i,
                s <= 8589934592 * i,
            decreases MAX_SLOTS - i,
        {
            if m[i] {
                let d = distance(self.pos[i], other.pos[i]);
                proof {
                    lemma_dist_bound(self.pos@[i as int], other.pos@[i as int]);
                }
                s = s + d;
                c = c + 1;
            }
            i = i + 1;
        }
        if c == 0 {
            0
        } else {
            s / c
        }
    }
}

/// The slot and position of each finger among the first `n` slots that is down.
pub open spec fn fingers_of(down: Seq<bool>, pos: Seq<Point>, n: int) -> Seq<(usize, Point)>
    decreases n,
{
    if n <= 0 {
        Seq::empty()
    } else if down[n - 1] {
        fingers_of(down, pos, n - 1).push(((n - 1) as usize, pos[n - 1]))
    } else {
        fingers_of(down, pos, n - 1)
    }
}

impl Snapshot {
    /// Takes over the presence flags of `other`; a finger that comes down takes its position
    /// from `other`, and one that stays down keeps its position here.
    pub fn merge(&mut self, other: &Snapshot)
        requires
            old(self).wf(),
            other.wf(),
        ensures
            final(self)@ == old(self)@.merged(other@),
            final(self).wf(),
    {
        let ghost o = *old(self);
        let mut i: usize = 0;
        while i < MAX_SLOTS
            invariant
                i <= MAX_SLOTS,
                self.wf(),
                other.wf(),
                forall|j: int|
                    0 <= j < i ==> self.down@[j] == other.down@[j] && self.pos@[j] == (if !o.down@[j]
                        && other.down@[j] {
                        other.pos@[j]
                    } else {
                        o.pos@[j]
                    }),
                forall|j: int|
                    i <= j < MAX_SLOTS ==> self.down@[j] == o.down@[j] && self.pos@[j] == o.pos@[j],
            decreases MAX_SLOTS - i,
        {
            if !self.down[i] && other.down[i] {
                self.set_down(i, other.pos[i]);
            } else if self.down[i] && !other.down[i] {
                self.set_up(i);
            }
            i = i + 1;
        }
        assert(self.down@ =~= other.down@);
        assert(self.pos@ =~= o@.merged(other@).pos);
    }

    /// Offsets every position, down or up, by `by`.
    pub fn shift(&mut self, by: Point)
        ensures
            final(self)@ == old(self)@.shifted(by),
    {
        let ghost o = *old(self);
        let mut i: usize = 0;
        while i < MAX_SLOTS
            invariant
                i <= MAX_SLOTS,
                self.num_down == o.num_down,
                self.down@ == o.down@,
                self.pos@.len() == MAX_SLOTS,
                forall|j: int| 0 <= j < i ==> self.pos@[j] == o.pos@[j].plus_spec(by),
                forall|j: int| i <= j < MAX_SLOTS ==> self.pos@[j] == o.pos@[j],
            decreases MAX_SLOTS - i,
        {
            self.pos[i] = self.pos[i].plus(by);
            i = i + 1;
        }
        assert(self.pos@ =~= o@.shifted(by).pos);
    }

    /// Offsets every position, down or up, by minus `by`.
    pub fn unshift(&mut self, by: Point)
        ensures
            final(self)@ == old(self)@.unshifted(by),
    {
        let ghost o = *old(self);
        let mut i: usize = 0;
        while i < MAX_SLOTS
            invariant
                i <= MAX_SLOTS,
                self.num_down == o.num_down,
                self.down@ == o.down@,
                self.pos@.len() == MAX_SLOTS,
                forall|j: int| 0 <= j < i ==> self.pos@[j] == o.pos@[j].minus_spec(by),
                forall|j: int| i <= j < MAX_SLOTS ==> self.pos@[j] == o.pos@[j],
            decreases MAX_SLOTS - i,
        {
            self.pos[i] = self.pos[i].minus(by);
            i = i + 1;
        }
        assert(self.pos@ =~= o@.unshifted(by).pos);
    }

    /// Blends the position of each slot that is down in `other` towards its position there by
    /// `lambda` millionths.
    pub fn interpolate_to(&mut self, other: &Snapshot, lambda: i64)
        requires
            0 <= lambda <= LAMBDA_ONE,
        ensures
            final(self)@ == old(self)@.interpolated(other@, lambda as int),
    {
        let ghost o = *old(self);
        let mut i: usize = 0;
        while i < MAX_SLOTS
            invariant
                i <= MAX_SLOTS,
                0 <= lambda <= LAMBDA_ONE,
                self.num_down == o.num_down,
                self.down@ == o.down@,
                self.pos@.len() == MAX_SLOTS,
                forall|j: int|
                    0 <= j < i ==> self.pos@[j] == (if other.down@[j] {
                        o.pos@[j].lerp_spec(other.pos@[j], lambda as int)
                    } else {
                        o.pos@[j]
                    }),
                forall|j: int| i <= j < MAX_SLOTS ==> self.pos@[j] == o.pos@[j],
            decreases MAX_SLOTS - i,
        {
            if other.down[i] {
                self.pos[i] = self.pos[i].lerp_to(other.pos[i], lambda);
            }
            i = i + 1;
        }
        assert(self.pos@ =~= o@.interpolated(other@, lambda as int).pos);
    }

    /// The slot and position of each finger that is down, in slot order.
    pub fn fingers(&self) -> (r: Vec<(usize, Point)>)
        ensures
            r@ == fingers_of(self.down@, self.pos@, MAX_SLOTS as int),
    {
        let mut r: Vec<(usize, Point)> = Vec::new();
        let mut i: usize = 0;
        while i < MAX_SLOTS
            invariant
                i <= MAX_SLOTS,
                r@ == fingers_of(self.down@, self.pos@, i as int),
            decreases MAX_SLOTS - i,
        {
            if self.down[i] {
                r.push((i, self.pos[i]));
            }
            i = i + 1;
        }
        r
    }
}

proof fn lemma_count_zero(m: Seq<bool>, n: int)
    requires
        0 <= n <= m.len(),
        forall|i: int| 0 <= i < m.len() ==> !m[i],
    ensures
        count_set(m, n) == 0,
    decreases n,
{
    if n > 0 {
        lemma_count_zero(m, n - 1);
    }
}

proof fn lemma_dist_bound(a: Point, b: Point)
    ensures
        0 <= dist(a, b) <= 8589934592,
{
    let n = crate::geom::len_sq(a.x - b.x, a.y - b.y);
    let dx = a.x - b.x;
    let dy = a.y - b.y;
    assert(0 <= n <= 2 * 4294967296 * 4294967296) by (nonlinear_arith)
        requires
            n == dx * dx + dy * dy,
            -4294967296 <= dx <= 4294967296,
            -4294967296 <= dy <= 4294967296,
    ;
    crate::geom::lemma_sqrt_floor_bound(n, 8589934592);
}

/// One event from the touch device. Positions are in micrometres.
#[derive(Clone, Copy, Debug, PartialEq, Eq, Structural)]
pub enum TouchEvent {
    /// A finger came down in `slot` at `(x, y)`.
    Down { slot: u32, x: i32, y: i32 },
    /// The finger in `slot` went up.
    Up { slot: u32 },
    /// The finger in `slot` moved to `(x, y)`.
    Motion { slot: u32, x: i32, y: i32 },
    /// The device cancelled the current touches.
    Cancel,
    /// The end of a batch of simultaneous events: a tick.
    Frame,
}

/// The mathematical content of a `Frame`.
pub struct FrameView {
    pub touch_down: bool,
    pub touch_up: bool,
    pub cur: SnapshotView,
    pub last: SnapshotView,
}

impl FrameView {
    /// Both snapshots are well formed.
    pub open spec fn wf(self) -> bool {
        self.cur.wf() && self.last.wf()
    }

    /// The frame after one device event. A repeated down, an up of a slot that is up and any
    /// event for a slot out of range leave it unchanged, as do cancel and tick events.
    pub open spec fn apply(self, ev: TouchEvent) -> FrameView {
        match ev {
            TouchEvent::Down { slot, x, y } => {
                if slot >= MAX_SLOTS || self.cur.down[slot as int] {
                    self
                } else {
                    FrameView {
                        touch_down: true,
                        cur: self.cur.set_down(slot as int, Point { x, y }),
                        ..self
                    }
                }
            },
            TouchEvent::Up { slot } => {
                if slot >= MAX_SLOTS || !self.cur.down[slot as int] {
                    self
                } else {
                    FrameView { touch_up: true, cur: self.cur.set_up(slot as int), ..self }
                }
            },
            TouchEvent::Motion { slot, x, y } => {
                if slot >= MAX_SLOTS {
                    self
                } else {
                    FrameView { cur: self.cur.set_pos(slot as int, Point { x, y }), ..self }
                }
            },
            _ => self,
        }
    }

    /// The frame after a tick has been observed: `last` catches up with `cur` and both edge
    /// flags clear.
    pub open spec fn advance(self) -> FrameView {
        FrameView { touch_down: false, touch_up: false, cur: self.cur, last: self.cur }
    }
}

/// The touch state as recognizers see it at a tick.
#[derive(Clone, Copy, Debug)]
pub struct Frame {
    /// Did a finger come down since the last tick?
    pub touch_down: bool,
    /// Did a finger go up since the last tick?
    pub touch_up: bool,
    /// The current positions of the fingers.
    pub cur: Snapshot,
    /// The positions of the fingers at the last tick.
    pub last: Snapshot,
}

impl View for Frame {
    type V = FrameView;

    open spec fn view(&self) -> FrameView {
        FrameView { touch_down: self.touch_down, touch_up: self.touch_up, cur: self.cur@, last: self.last@ }
    }
}

impl Frame {
    /// Both snapshots are well formed.
    pub open spec fn wf(&self) -> bool {
        self@.wf()
    }

    /// A frame with no finger down and no edge.
    pub fn new() -> (r: Frame)
        ensures
            r.wf(),
            !r.touch_down,
            !r.touch_up,
            r.cur.num_down == 0,
            r.last.num_down == 0,
            r.cur@ == r.last@,
    {
        let s = Snapshot::new();
        Frame { touch_down: false, touch_up: false, cur: s, last: s }
    }

    /// Takes one device event into account.
    pub fn update(&mut self, ev: &TouchEvent)
        requires
            old(self).wf(),
        ensures
            final(self)@ == old(self)@.apply(*ev),
            final(self).wf(),
    {
        match *ev {
            TouchEvent::Down { slot, x, y } => {
                if slot as usize >= MAX_SLOTS || self.cur.down[slot as usize] {
                    return;
                }
                self.touch_down = true;
                self.cur.set_down(slot as usize, Point::new(x, y));
            },
            TouchEvent::Up { slot } => {
                if slot as usize >= MAX_SLOTS || !self.cur.down[slot as usize] {
                    return;
                }
                self.touch_up = true;
                self.cur.set_up(slot as usize);
            },
            TouchEvent::Motion { slot, x, y } => {
                if slot as usize >= MAX_SLOTS {
                    return;
                }
                self.cur.pos[slot as usize] = Point::new(x, y);
            },
            TouchEvent::Cancel => {},
            TouchEvent::Frame => {},
        }
    }

    /// Gets ready for the next tick: `last` becomes `cur` and both edge flags clear.
    pub fn advance(&mut self)
        requires
            old(self).wf(),
        ensures
            final(self)@ == old(self)@.advance(),
            final(self).wf(),
    {
        self.last = self.cur;
        self.touch_up = false;
        self.touch_down = false;
    }
}

/// A change of one slot, as `Snapshot::set_down` and `Snapshot::set_up` make it.
pub enum SlotChange {
    Down(int, Point),
    Up(int),
}

/// `s` after each change of `changes` in turn.
pub open spec fn apply_changes(s: SnapshotView, changes: Seq<SlotChange>) -> SnapshotView
    decreases changes.len(),
{
    if changes.len() == 0 {
        s
    } else {
        let t = match changes[0] {
            SlotChange::Down(i, p) => s.set_down(i, p),
            SlotChange::Up(i) => s.set_up(i),
        };
        apply_changes(t, changes.skip(1))
    }
}

/// The number of fingers down stays the number of slots marked down, after any sequence of
/// changes of slots in range.
pub proof fn law_count_matches_down(s: SnapshotView, changes: Seq<SlotChange>)
    requires
        s.wf(),
        forall|k: int|
            0 <= k < changes.len() ==> match #[trigger] changes[k] {
                SlotChange::Down(i, _) => 0 <= i < MAX_SLOTS,
                SlotChange::Up(i) => 0 <= i < MAX_SLOTS,
            },
    ensures
        apply_changes(s, changes).wf(),
    decreases changes.len(),
{
    if changes.len() > 0 {
        let t = match changes[0] {
            SlotChange::Down(i, p) => s.set_down(i, p),
            SlotChange::Up(i) => s.set_up(i),
        };
        match changes[0] {
            SlotChange::Down(i, p) => lemma_count_update(s.down, i, true, MAX_SLOTS as int),
            SlotChange::Up(i) => lemma_count_update(s.down, i, false, MAX_SLOTS as int),
        }
        assert forall|k: int| 0 <= k < changes.skip(1).len() implies match #[trigger] changes.skip(
            1,
        )[k] {
            SlotChange::Down(i, _) => 0 <= i < MAX_SLOTS,
            SlotChange::Up(i) => 0 <= i < MAX_SLOTS,
        } by {
            assert(changes.skip(1)[k] == changes[k + 1]);
        }
        law_count_matches_down(t, changes.skip(1));
    }
}

/// The mean position of a snapshot with no finger down is the zero vector.
pub proof fn law_mean_of_empty(s: SnapshotView)
    requires
        s.wf(),
        s.num_down == 0,
    ensures
        s.mean() == Point::zero_spec(),
{
}

proof fn lemma_sum_dist_self(m: Seq<bool>, p: Seq<Point>, n: int)
    requires
        0 <= n <= p.len(),
    ensures
        sum_dist(m, p, p, n) == 0,
    decreases n,
{
    if n > 0 {
        lemma_sum_dist_self(m, p, n - 1);
        assert(crate::geom::len_sq(p[n - 1].x - p[n - 1].x, p[n - 1].y - p[n - 1].y) == 0);
        assert(crate::geom::sqrt_below(0, 0) == 0);
    }
}

/// The mean distance of a snapshot to itself is zero.
pub proof fn law_mean_dist_self(s: SnapshotView)
    requires
        s.wf(),
    ensures
        s.mean_dist(s) == 0,
{
    lemma_sum_dist_self(both(s.down, s.down), s.pos, MAX_SLOTS as int);
}

} // verus!
