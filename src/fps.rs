//! A frame-rate counter: how many frames arrived within the last second.
use vstd::prelude::*;
use crate::authority::now_millis;

verus! {

/// The arrival times that are still within one second of `now_ms`: those
/// at the front that are older are dropped, up to the first that is not.
pub open spec fn drop_stale(frames: Seq<i64>, now_ms: i64) -> Seq<i64>
    decreases frames.len(),
{
    if frames.len() > 0 && (frames[0] as int) < (now_ms as int) - 1000 {
        drop_stale(frames.drop_first(), now_ms)
    } else {
        frames
    }
}

/// Counts the frames of the last second.
pub struct FPSCounter {
    frames: Vec<i64>,
}

impl View for FPSCounter {
    type V = Seq<i64>;

    /// The arrival times, in milliseconds, oldest first.
    closed spec fn view(&self) -> Seq<i64> {
        self.frames@
    }
}

impl FPSCounter {
    /// A counter that has seen no frame, with room for `limit` arrivals.
    pub fn new(limit: u8) -> (r: FPSCounter)
        ensures
            r@ == Seq::<i64>::empty(),
    {
        FPSCounter { frames: Vec::with_capacity(limit as usize) }
    }

    /// Records a frame that arrived at `now_ms` and returns how many
    /// frames, this one included, arrived within the second before it, as
    /// a byte (the count modulo 256).
    pub fn tick_at(&mut self, now_ms: i64) -> (r: u8)
        ensures
            final(self)@ == drop_stale(old(self)@, now_ms).push(now_ms),
            r == (final(self)@.len() % 256) as u8,
    {
        let mut k: usize = 0;
        assert(old(self)@.subrange(0, old(self)@.len() as int) =~= old(self)@);
        while k < self.frames.len() && (self.frames[k] as i128) < (now_ms as i128) - 1000
            invariant
                0 <= k <= self.frames@.len(),
                self.frames@ == old(self)@,
                drop_stale(old(self)@, now_ms) == drop_stale(old(self)@.subrange(
                    k as int,
                    old(self)@.len() as int,
                ), now_ms),
            decreases self.frames@.len() - k,
        {
            proof {
                let s = old(self)@.subrange(k as int, old(self)@.len() as int);
                assert(s.drop_first() =~= old(self)@.subrange(k + 1, old(self)@.len() as int));
            }
            k = k + 1;
        }
        proof {
            assert(old(self)@.subrange(0, old(self)@.len() as int) =~= old(self)@);
        }
        let mut kept = self.frames.split_off(k);
        kept.push(now_ms);
        self.frames = kept;
        (self.frames.len() % 256) as u8
    }

    /// Records a frame that arrives now, by the wall clock, and returns
    /// how many frames arrived within the last second, as `tick_at` does.
    pub fn tick(&mut self) -> (r: u8)
        ensures
            exists|now_ms: i64|
                final(self)@ == drop_stale(old(self)@, now_ms).push(now_ms)
                    && r == (final(self)@.len() % 256) as u8,
    {
        let now = now_millis();
        self.tick_at(now)
    }
}

} // verus!
