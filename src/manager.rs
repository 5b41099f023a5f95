//! Runs a set of candidate recognizers against one stream of touch events.
use vstd::prelude::*;

use crate::frame::{Frame, FrameView, TouchEvent};
use crate::recognizer::{is_terminal, RecResult, Recognizer};

verus! {

/// Updates each recognizer of `rs` in order with `frame`: the ones that go on, the ones that
/// reached a verdict, and the output of the last success, if any.
pub open spec fn dispatch<R: Recognizer<In = ()>>(rs: Seq<R>, frame: FrameView) -> (
    Seq<R>,
    Seq<R>,
    Option<R::Out>,
)
    decreases rs.len(),
{
    if rs.len() == 0 {
        (Seq::empty(), Seq::empty(), None)
    } else {
        let (going, done, g) = dispatch(rs.drop_last(), frame);
        let (r, res) = rs.last().spec_update(frame);
        match res {
            RecResult::Continuing => (going.push(r), done, g),
            RecResult::Failed => (going, done.push(r), g),
            RecResult::Succeeded(x) => (going, done.push(r), Some(x)),
        }
    }
}

/// Each recognizer of `rs` started anew on `frame`.
pub open spec fn rearmed<R: Recognizer<In = ()>>(rs: Seq<R>, frame: FrameView) -> Seq<R> {
    rs.map_values(|r: R| r.spec_init((), frame))
}

/// Whether a tick on `frame` opens a gesture window: no finger was down at the last tick and
/// one is now.
pub open spec fn opens_window(frame: FrameView) -> bool {
    frame.last.num_down == 0 && frame.cur.num_down > 0
}

/// Owns the candidate recognizers and feeds them the ticks of one touch device.
///
/// A recognizer is active while it has not reached a verdict in the current gesture window;
/// once it succeeds or fails it is retired until the next window opens.
pub struct Manager<R: Recognizer<In = ()>> {
    active: Vec<R>,
    inactive: Vec<R>,
    buf: Vec<R>,
    frame: Frame,
}

impl<R: Recognizer<In = ()>> Manager<R> {
    /// The recognizers that are waiting for the next tick.
    pub closed spec fn active(self) -> Seq<R> {
        self.active@
    }

    /// The recognizers that are retired until the next gesture window.
    pub closed spec fn inactive(self) -> Seq<R> {
        self.inactive@
    }

    /// The touch state.
    pub closed spec fn frame(self) -> FrameView {
        self.frame@
    }

    /// The frame is well formed and every active recognizer is.
    pub closed spec fn wf(self) -> bool {
        &&& self.frame.wf()
        &&& self.buf@.len() == 0
        &&& forall|i: int| 0 <= i < self.active@.len() ==> self.active@[i].inv()
    }

    /// A manager with no recognizer and no finger down.
    pub fn new() -> (r: Manager<R>)
        ensures
            r.wf(),
            r.active() == Seq::<R>::empty(),
            r.inactive() == Seq::<R>::empty(),
            !r.frame().touch_down,
            !r.frame().touch_up,
            r.frame().cur.num_down == 0,
            r.frame().last.num_down == 0,
    {
        Manager { active: Vec::new(), inactive: Vec::new(), buf: Vec::new(), frame: Frame::new() }
    }

    /// Adds a recognizer to the active ones.
    pub fn push(&mut self, r: R)
        requires
            old(self).wf(),
            r.inv(),
        ensures
            final(self).wf(),
            final(self).active() == old(self).active().push(r),
            final(self).inactive() == old(self).inactive(),
            final(self).frame() == old(self).frame(),
    {
        self.active.push(r);
    }

    /// Takes one device event into account. On a tick it opens a gesture window if one starts,
    /// updates every active recognizer, retires those that reach a verdict, and returns the
    /// output of the last one to succeed; otherwise it returns `None`.
    pub fn update(&mut self, ev: &TouchEvent) -> (r: Option<R::Out>)
        requires
            old(self).wf(),
        ensures
            final(self).wf(),
            ({
                let f = old(self).frame().apply(*ev);
                if *ev is Frame {
                    let pool = if opens_window(f) {
                        old(self).active() + rearmed(old(self).inactive(), f)
                    } else {
                        old(self).active()
                    };
                    let kept = if opens_window(f) {
                        Seq::empty()
                    } else {
                        old(self).inactive()
                    };
                    let (going, done, g) = dispatch(pool, f);
                    &&& final(self).active() == going
                    &&& final(self).inactive() == kept + done
                    &&& final(self).frame() == f.advance()
                    &&& r == g
                } else {
                    &&& final(self).active() == old(self).active()
                    &&& final(self).inactive() == old(self).inactive()
                    &&& final(self).frame() == f
                    &&& r is None
                }
            }),
    {
        self.frame.update(ev);
        let is_tick = match ev {
            TouchEvent::Frame => true,
            _ => false,
        };
        if !is_tick {
            return None;
        }
        let ghost f = self.frame@;
        let ghost old_inactive = self.inactive@;
        if self.frame.last.num_down == 0 && self.frame.cur.num_down > 0 {
            let mut k: usize = 0;
            let n = self.inactive.len();
            let ghost start = self.active@;
            while self.inactive.len() > 0
                invariant
                    self.frame.wf(),
                    self.frame@ == f,
                    n == old_inactive.len(),
                    k + self.inactive@.len() == n,
                    self.inactive@ == old_inactive.skip(k as int),
                    self.active@ == start + rearmed(old_inactive.take(k as int), f),
                    self.buf@.len() == 0,
                    forall|i: int| 0 <= i < self.active@.len() ==> self.active@[i].inv(),
                decreases self.inactive@.len(),
            {
                let mut r = self.inactive.remove(0);
                r.init((), &self.frame);
                self.active.push(r);
                proof {
                    assert(old_inactive.take(k + 1) == old_inactive.take(k as int).push(
                        old_inactive[k as int],
                    ));
                    assert(rearmed(old_inactive.take(k + 1), f) =~= rearmed(
                        old_inactive.take(k as int),
                        f,
                    ).push(old_inactive[k as int].spec_init((), f)));
                    assert(old_inactive.skip(k + 1) =~= old_inactive.skip(k as int).skip(1));
                }
                k = k + 1;
            }
            proof {
                assert(old_inactive.take(k as int) =~= old_inactive);
            }
        }
        let ghost pool = self.active@;
        let ghost kept = self.inactive@;
        let mut ret: Option<R::Out> = None;
        let mut k: usize = 0;
        proof {
            assert(pool.take(0) =~= Seq::<R>::empty());
            assert(self.inactive@.skip(kept.len() as int) =~= Seq::<R>::empty());
            assert(self.buf@ =~= Seq::<R>::empty());
            assert(self.inactive@.take(kept.len() as int) =~= kept);
            assert(pool.skip(0) =~= pool);
        }
        let n = self.active.len();
        while self.active.len() > 0
            invariant
                self.frame.wf(),
                self.frame@ == f,
                n == pool.len(),
                k + self.active@.len() == n,
                self.active@ == pool.skip(k as int),
                forall|i: int| 0 <= i < self.active@.len() ==> self.active@[i].inv(),
                forall|i: int| 0 <= i < self.buf@.len() ==> self.buf@[i].inv(),
                dispatch(pool.take(k as int), f) == (self.buf@, self.inactive@.skip(kept.len() as int), ret),
                self.inactive@.take(kept.len() as int) == kept,
                self.inactive@.len() >= kept.len(),
            decreases self.active@.len(),
        {
            let mut rec = self.active.remove(0);
            let ghost before = self.inactive@;
            proof {
                assert(pool.take(k + 1).drop_last() =~= pool.take(k as int));
                assert(pool.take(k + 1).last() == pool[k as int]);
                assert(pool[k as int] == rec);
            }
            match rec.update(&self.frame) {
                RecResult::Continuing => self.buf.push(rec),
                RecResult::Failed => self.inactive.push(rec),
                RecResult::Succeeded(g) => {
                    ret = Some(g);
                    self.inactive.push(rec);
                },
            }
            proof {
                assert(self.inactive@.take(kept.len() as int) =~= kept);
                assert(before.skip(kept.len() as int).push(rec) =~= before.push(rec).skip(
                    kept.len() as int,
                ));
                assert(pool.skip(k + 1) =~= pool.skip(k as int).skip(1));
            }
            k = k + 1;
        }
        proof {
            assert(pool.take(k as int) =~= pool);
            assert(kept + self.inactive@.skip(kept.len() as int) =~= self.inactive@);
        }
        std::mem::swap(&mut self.buf, &mut self.active);
        self.frame.advance();
        ret
    }
}

/// At a tick, each recognizer that answers `Continuing` stays active and each one that reaches
/// a verdict is retired; nothing else is kept or retired, and the output returned is that of a
/// success at this tick. Together with `Manager::update`, which leaves the retired recognizers
/// untouched until a gesture window opens and starts them anew, this means a recognizer is not
/// updated again in an activation once it has answered with a verdict.
pub proof fn law_verdicts_retire<R: Recognizer<In = ()>>(rs: Seq<R>, frame: FrameView)
    ensures
        ({
            let (going, done, g) = dispatch(rs, frame);
            &&& going.len() + done.len() == rs.len()
            &&& forall|i: int|
                0 <= i < going.len() ==> exists|j: int|
                    0 <= j < rs.len() && #[trigger] going[i] == (#[trigger] rs[j].spec_update(frame)).0
                        && rs[j].spec_update(frame).1 is Continuing
            &&& forall|i: int|
                0 <= i < done.len() ==> exists|j: int|
                    0 <= j < rs.len() && #[trigger] done[i] == (#[trigger] rs[j].spec_update(frame)).0
                        && is_terminal(rs[j].spec_update(frame).1)
            &&& g matches Some(x) ==> exists|j: int|
                0 <= j < rs.len() && (#[trigger] rs[j].spec_update(frame)).1
                    == RecResult::Succeeded(x)
        }),
    decreases rs.len(),
{
    if rs.len() > 0 {
        let prefix = rs.drop_last();
        law_verdicts_retire(prefix, frame);
        let (going, done, g) = dispatch(prefix, frame);
        let last = rs.len() - 1;
        assert(rs.last() == rs[last]);
        assert forall|j: int| 0 <= j < prefix.len() implies prefix[j] == rs[j] by {}
        let (going2, done2, g2) = dispatch(rs, frame);
        assert forall|i: int| 0 <= i < going2.len() implies exists|j: int|
            0 <= j < rs.len() && #[trigger] going2[i] == (#[trigger] rs[j].spec_update(frame)).0
                && rs[j].spec_update(frame).1 is Continuing by {
            if i < going.len() {
                let j = choose|j: int|
                    0 <= j < prefix.len() && going[i] == (#[trigger] prefix[j].spec_update(frame)).0
                        && prefix[j].spec_update(frame).1 is Continuing;
                assert(prefix[j] == rs[j]);
            } else {
                assert(rs[last].spec_update(frame).0 == going2[i]);
            }
        }
        assert forall|i: int| 0 <= i < done2.len() implies exists|j: int|
            0 <= j < rs.len() && #[trigger] done2[i] == (#[trigger] rs[j].spec_update(frame)).0
                && is_terminal(rs[j].spec_update(frame).1) by {
            if i < done.len() {
                let j = choose|j: int|
                    0 <= j < prefix.len() && done[i] == (#[trigger] prefix[j].spec_update(frame)).0
                        && is_terminal(prefix[j].spec_update(frame).1);
                assert(prefix[j] == rs[j]);
            } else {
                assert(rs[last].spec_update(frame).0 == done2[i]);
            }
        }
        if g2 is Some {
            if g2 == g {
                let x = g->0;
                let j = choose|j: int|
                    0 <= j < prefix.len() && (#[trigger] prefix[j].spec_update(frame)).1
                        == RecResult::Succeeded(x);
                assert(prefix[j] == rs[j]);
            } else {
                assert(rs[last].spec_update(frame).1 == RecResult::Succeeded(g2->0));
            }
        }
    }
}

} // verus!
