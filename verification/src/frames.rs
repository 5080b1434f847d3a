//! Frame-time statistics of the client: the frames of the last second, and
//! the average frame time over them.

use std::collections::VecDeque;
use vstd::prelude::*;

verus! {

broadcast use vstd::std_specs::vecdeque::axiom_spec_len;

/// One second in nanoseconds.
pub const ONE_SECOND: u64 = 1_000_000_000;

/// The sum of a sequence of frame times.
pub open spec fn sum(times: Seq<u64>) -> int
    decreases times.len(),
{
    if times.len() == 0 {
        0
    } else {
        times[0] + sum(times.drop_first())
    }
}

/// The frames that are kept: the oldest frames are dropped while the total
/// is over one second.
pub open spec fn trim(times: Seq<u64>) -> Seq<u64>
    decreases times.len(),
{
    if times.len() > 0 && sum(times) > ONE_SECOND {
        trim(times.drop_first())
    } else {
        times
    }
}

proof fn lemma_sum_push(times: Seq<u64>, time: u64)
    ensures
        sum(times.push(time)) == sum(times) + time,
    decreases times.len(),
{
    if times.len() > 0 {
        assert(times.push(time).drop_first() == times.drop_first().push(time));
        lemma_sum_push(times.drop_first(), time);
        assert(times.push(time)[0] == times[0]);
        assert(sum(times.push(time)) == times[0] + sum(times.drop_first().push(time)));
    } else {
        assert(times.push(time).drop_first() =~= Seq::<u64>::empty());
        assert(sum(Seq::<u64>::empty()) == 0);
        assert(times.push(time)[0] == time);
        assert(sum(times.push(time)) == time + sum(times.push(time).drop_first()));
    }
}

proof fn lemma_sum_nonnegative(times: Seq<u64>)
    ensures
        sum(times) >= 0,
    decreases times.len(),
{
    if times.len() > 0 {
        lemma_sum_nonnegative(times.drop_first());
    }
}

/// The frame times (in nanoseconds) of the last second, oldest first, and
/// their total.
pub struct FrameTimes {
    times: VecDeque<u64>,
    total: u64,
}

impl FrameTimes {
    /// The frame times kept, oldest first.
    pub closed spec fn window(&self) -> Seq<u64> {
        self.times@
    }

    /// The total is the sum of the frame times kept, and at most one second.
    pub closed spec fn wf(&self) -> bool {
        &&& self.total == sum(self.times@)
        &&& self.total <= ONE_SECOND
    }

    /// No frames yet.
    pub fn new() -> (frames: FrameTimes)
        ensures
            frames.wf(),
            frames.window() == Seq::<u64>::empty(),
    {
        FrameTimes { times: VecDeque::new(), total: 0 }
    }

    /// The number of frames kept.
    pub fn frames(&self) -> (count: usize)
        ensures
            count == self.window().len(),
    {
        self.times.len()
    }

    /// The total time of the frames kept, in nanoseconds.
    pub fn total(&self) -> (total: u64)
        requires
            self.wf(),
        ensures
            total == sum(self.window()),
    {
        self.total
    }

    /// Records a frame that took `frame_time` nanoseconds: it joins the
    /// window, the oldest frames leave it while the total is over one
    /// second, and the new average frame time is returned: the total over
    /// the number of frames, rounded down, or the frame's own time when no
    /// frame is left.
    pub fn record(&mut self, frame_time: u64) -> (average: u64)
        requires
            old(self).wf(),
        ensures
            final(self).wf(),
            final(self).window() == trim(old(self).window().push(frame_time)),
            final(self).window().len() == 0 ==> average == frame_time,
            final(self).window().len() > 0 ==> average == sum(final(self).window()) / (final(self).window().len() as int),
    {
        let ghost pushed = self.times@.push(frame_time);
        proof { lemma_sum_push(self.times@, frame_time); }
        self.times.push_back(frame_time);
        let mut total: u128 = self.total as u128 + frame_time as u128;
        while total > ONE_SECOND as u128
            invariant
                total == sum(self.times@),
                total <= u64::MAX as u128 + ONE_SECOND as u128,
                trim(self.times@) == trim(pushed),
            decreases self.times@.len(),
        {
            assert(self.times@.len() > 0) by {
                if self.times@.len() == 0 {
                    assert(sum(self.times@) == 0);
                }
            }
            let oldest = self.times.pop_front();
            match oldest {
                Some(oldest) => {
                    proof { lemma_sum_nonnegative(self.times@); }
                    total = total - oldest as u128;
                },
                None => {},
            }
        }
        self.total = total as u64;
        let count = self.times.len();
        if count == 0 {
            frame_time
        } else {
            self.total / (count as u64)
        }
    }
}

} // verus!
