//! Receiving frames from the render world: keeping the newest of the frames
//! a poll found, and counting the polls that found any, for the programs'
//! periodic log lines.
use vstd::prelude::*;

verus! {

/// The count after one more frame; the counter wraps around at `u32::MAX`.
pub open spec fn next_count(count: u32) -> u32 {
    if count == u32::MAX {
        0
    } else {
        (count + 1) as u32
    }
}

/// Number of frames received so far.
#[derive(Clone, Copy, Debug, PartialEq, Eq, Structural)]
pub struct FrameCounter {
    pub count: u32,
}

impl FrameCounter {
    /// A counter at zero.
    pub fn new() -> (c: FrameCounter)
        ensures
            c.count == 0,
    {
        FrameCounter { count: 0 }
    }

    /// Counts one frame and returns the new count.
    pub fn increment(&mut self) -> (count: u32)
        ensures
            final(self).count == next_count(old(self).count),
            count == final(self).count,
    {
        self.count = if self.count == u32::MAX { 0 } else { self.count + 1 };
        self.count
    }

    /// Records one poll of the frame channel and returns the count from
    /// before it; the count goes up by one when the poll found a frame.
    pub fn record_poll(&mut self, frame_received: bool) -> (previous: u32)
        ensures
            final(self).count == after_poll(old(self).count, frame_received),
            previous == old(self).count,
    {
        let previous = self.count;
        if frame_received {
            self.count = if self.count == u32::MAX { 0 } else { self.count + 1 };
        }
        previous
    }
}

/// The count after one poll that did or did not find a frame.
pub open spec fn after_poll(count: u32, frame_received: bool) -> u32 {
    if frame_received {
        next_count(count)
    } else {
        count
    }
}

/// The count after a run of polls, starting from `start`; entry `i` of
/// `polls` says whether poll `i` found a frame.
pub open spec fn count_after_polls(start: u32, polls: Seq<bool>) -> u32
    decreases polls.len(),
{
    if polls.len() == 0 {
        start
    } else {
        after_poll(count_after_polls(start, polls.drop_last()), polls.last())
    }
}

/// Number of polls in the run that found a frame.
pub open spec fn polls_with_frames(polls: Seq<bool>) -> nat
    decreases polls.len(),
{
    if polls.len() == 0 {
        0
    } else {
        polls_with_frames(polls.drop_last()) + if polls.last() {
            1nat
        } else {
            0nat
        }
    }
}

/// Over a run started at zero, the count is the number of polls that found
/// a frame, modulo 2^32: one per such poll, however many frames it found.
pub proof fn lemma_count_over_run(polls: Seq<bool>)
    ensures
        count_after_polls(0, polls) as nat == polls_with_frames(polls) % 0x1_0000_0000,
    decreases polls.len(),
{
    if polls.len() > 0 {
        let before = polls.drop_last();
        lemma_count_over_run(before);
        let c = count_after_polls(0, before);
        let n = polls_with_frames(before);
        let modulus: int = 0x1_0000_0000;
        vstd::arithmetic::div_mod::lemma_fundamental_div_mod(n as int, modulus);
        let q = (n as int) / modulus;
        if polls.last() {
            if c == u32::MAX {
                vstd::arithmetic::div_mod::lemma_fundamental_div_mod_converse(
                    (n + 1) as int,
                    modulus,
                    q + 1,
                    0,
                );
            } else {
                vstd::arithmetic::div_mod::lemma_fundamental_div_mod_converse(
                    (n + 1) as int,
                    modulus,
                    q,
                    c + 1,
                );
            }
        }
    }
}

/// The frame to show after a poll that found `frames`, oldest first: the
/// newest one, or none when the poll found nothing.
pub fn latest_frame(frames: Vec<Vec<u8>>) -> (latest: Option<Vec<u8>>)
    ensures
        latest == if frames@.len() == 0 {
            None
        } else {
            Some(frames@.last())
        },
{
    let mut frames = frames;
    frames.pop()
}

} // verus!
