//! The frames a renderer renders ahead with: cached frames ready to render
//! into, and frames in flight on the GPU waiting to be presented.

use std::collections::VecDeque;

use vstd::prelude::*;

verus! {

/// A frame the GPU may still be rendering, with what tells when it is done.
pub struct InFlight<F, P> {
    /// Tells whether the GPU finished the frame; `None` once it did.
    pub poller: Option<P>,
    pub frame: F,
}

/// The frames of a renderer, each either cached or in flight.
pub struct FrameQueues<F, P> {
    cache: VecDeque<F>,
    inflight: VecDeque<InFlight<F, P>>,
}

impl<F, P> View for FrameQueues<F, P> {
    type V = (Seq<F>, Seq<InFlight<F, P>>);

    closed spec fn view(&self) -> (Seq<F>, Seq<InFlight<F, P>>) {
        (self.cache@, self.inflight@)
    }
}

/// How many frames the renderer has, cached or in flight.
pub open spec fn frame_count<F, P>(queues: (Seq<F>, Seq<InFlight<F, P>>)) -> nat {
    queues.0.len() + queues.1.len()
}

impl<F, P> FrameQueues<F, P> {
    /// No frame at all.
    pub fn new() -> (res: Self)
        ensures
            res@.0 == Seq::<F>::empty(),
            res@.1 == Seq::<InFlight<F, P>>::empty(),
    {
        FrameQueues { cache: VecDeque::new(), inflight: VecDeque::new() }
    }

    /// Drops every frame, in flight or not, and caches `frames` instead, as
    /// when the surface is configured anew.
    pub fn reset(&mut self, frames: Vec<F>)
        ensures
            final(self)@.0 == frames@,
            final(self)@.1 == Seq::<InFlight<F, P>>::empty(),
    {
        self.inflight.clear();
        self.cache.clear();
        let mut rest = frames;
        let ghost all = rest@;
        let mut k: usize = 0;
        let total = rest.len();
        proof {
            assert(all.skip(0) =~= all);
            assert(all.take(0) =~= Seq::<F>::empty());
        }
        while rest.len() > 0
            invariant
                k <= all.len(),
                all.len() == total,
                rest@ == all.skip(k as int),
                self.cache@ == all.take(k as int),
                self.inflight@ == Seq::<InFlight<F, P>>::empty(),
            decreases rest@.len(),
        {
            let frame = rest.remove(0);
            proof {
                assert(all.take(k + 1) =~= all.take(k as int).push(frame));
                assert(rest@ =~= all.skip(k + 1));
            }
            self.cache.push_back(frame);
            k = k + 1;
        }
        proof {
            assert(all.take(k as int) =~= all);
        }
    }

    /// Number of cached frames.
    pub fn cached_len(&self) -> (res: usize)
        ensures
            res == self@.0.len(),
    {
        self.cache.len()
    }

    /// Number of frames in flight.
    pub fn inflight_len(&self) -> (res: usize)
        ensures
            res == self@.1.len(),
    {
        self.inflight.len()
    }

    /// The cached frame that waited longest, taken to render into.
    pub fn take_cached(&mut self) -> (res: Option<F>)
        ensures
            old(self)@.0.len() == 0 <==> res is None,
            res matches Some(f) ==> f == old(self)@.0[0] && final(self)@.0 == old(self)@.0.drop_first(),
            res is None ==> final(self)@.0 == old(self)@.0,
            final(self)@.1 == old(self)@.1,
    {
        self.cache.pop_front()
    }

    /// The oldest frame in flight, taken to be checked or waited for.
    pub fn take_oldest(&mut self) -> (res: Option<InFlight<F, P>>)
        ensures
            old(self)@.1.len() == 0 <==> res is None,
            res matches Some(e) ==> e == old(self)@.1[0] && final(self)@.1 == old(self)@.1.drop_first(),
            res is None ==> final(self)@.1 == old(self)@.1,
            final(self)@.0 == old(self)@.0,
    {
        self.inflight.pop_front()
    }

    /// Records a frame just submitted to the GPU as the newest in flight.
    pub fn push_inflight(&mut self, frame: F, poller: P)
        ensures
            final(self)@.0 == old(self)@.0,
            final(self)@.1 == old(self)@.1.push(InFlight { poller: Some(poller), frame }),
    {
        self.inflight.push_back(InFlight { poller: Some(poller), frame });
    }

    /// Settles the oldest frame in flight after checking it: a frame the GPU
    /// finished and that was presented is cached again; any other goes back
    /// as the oldest in flight, without its poller once finished.
    pub fn settle_checked(&mut self, entry: InFlight<F, P>, completed: bool, presented: bool)
        ensures
            completed && presented ==> final(self)@.0 == old(self)@.0.push(entry.frame)
                && final(self)@.1 == old(self)@.1,
            !(completed && presented) ==> final(self)@.0 == old(self)@.0 && final(self)@.1 == seq![
                InFlight {
                    poller: if completed {
                        None
                    } else {
                        entry.poller
                    },
                    frame: entry.frame,
                },
            ] + old(self)@.1,
    {
        let InFlight { poller, frame } = entry;
        if completed {
            if presented {
                self.cache.push_back(frame);
            } else {
                self.inflight.push_front(InFlight { poller: None, frame });
            }
        } else {
            self.inflight.push_front(InFlight { poller, frame });
        }
    }

    /// Settles the oldest frame in flight after waiting for the GPU to finish
    /// it: a presented frame is handed back to be rendered into; otherwise it
    /// goes back as the oldest in flight, without its poller.
    pub fn settle_waited(&mut self, frame: F, presented: bool) -> (res: Option<F>)
        ensures
            presented ==> res == Some(frame) && final(self)@ == old(self)@,
            !presented ==> res is None && final(self)@.0 == old(self)@.0 && final(self)@.1 == seq![
                InFlight { poller: None::<P>, frame },
            ] + old(self)@.1,
    {
        if presented {
            Some(frame)
        } else {
            self.inflight.push_front(InFlight { poller: None, frame });
            None
        }
    }
}

/// Checking the oldest frame in flight keeps every frame: taking it out and
/// settling it leaves as many frames as before.
pub proof fn law_check_keeps_frames<F, P>(
    before: (Seq<F>, Seq<InFlight<F, P>>),
    taken: (Seq<F>, Seq<InFlight<F, P>>),
    after: (Seq<F>, Seq<InFlight<F, P>>),
    entry: InFlight<F, P>,
    completed: bool,
    presented: bool,
)
    requires
        before.1.len() > 0,
        entry == before.1[0],
        taken == (before.0, before.1.drop_first()),
        completed && presented ==> after == (taken.0.push(entry.frame), taken.1),
        !(completed && presented) ==> after.0 == taken.0 && after.1 == seq![
            InFlight {
                poller: if completed {
                    None
                } else {
                    entry.poller
                },
                frame: entry.frame,
            },
        ] + taken.1,
    ensures
        frame_count(after) == frame_count(before),
{
}

/// A render keeps every frame: the frame it renders into, taken from the
/// cache or waited for, goes back in flight once submitted.
pub proof fn law_render_keeps_frames<F, P>(
    before: (Seq<F>, Seq<InFlight<F, P>>),
    taken: (Seq<F>, Seq<InFlight<F, P>>),
    after: (Seq<F>, Seq<InFlight<F, P>>),
    frame: F,
    poller: P,
)
    requires
        (before.0.len() > 0 && frame == before.0[0] && taken == (before.0.drop_first(), before.1))
            || (before.1.len() > 0 && frame == before.1[0].frame && taken == (
            before.0,
            before.1.drop_first(),
        )),
        after == (taken.0, taken.1.push(InFlight { poller: Some(poller), frame })),
    ensures
        frame_count(after) == frame_count(before),
{
}

} // verus!
