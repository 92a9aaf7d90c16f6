use vstd::prelude::*;

verus! {

/// Timer ticks between two frames: the timer runs at 1000 Hz, so this gives
/// about 60 frames per second.
pub const FRAME_TICKS: usize = 16;

/// Paces frames by the timer tick count.
pub struct TickStream {
    last_tick: usize,
}

impl TickStream {
    pub closed spec fn last(self) -> usize {
        self.last_tick
    }

    /// A stream whose last frame was at tick `current`.
    pub fn new(current: usize) -> (s: Self)
        ensures
            s.last() == current,
    {
        TickStream { last_tick: current }
    }

    /// The tick of the next frame, when `current` is at least `FRAME_TICKS`
    /// past the last one; that tick then becomes the last.
    pub fn poll_tick(&mut self, current: usize) -> (r: Option<usize>)
        ensures
            (current as int) >= (old(self).last() as int) + FRAME_TICKS ==> r == Some(current) && final(self).last() == current,
            (current as int) < (old(self).last() as int) + FRAME_TICKS ==> r is None && final(self).last() == old(self).last(),
    {
        if current >= self.last_tick && current - self.last_tick >= FRAME_TICKS {
            self.last_tick = current;
            Some(current)
        } else {
            None
        }
    }
}

} // verus!
