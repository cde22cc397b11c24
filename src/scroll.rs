//! Turning wheel input into cycling steps.
//!
//! Line-unit events step once per event; pixel-unit events add up across
//! frames until their sum passes `PIXEL_SENSITIVITY`. A line event resets
//! the pixel sum. When both kinds arrive in one frame, a pixel sum that
//! passes the threshold at the end of the frame decides the step.

use vstd::prelude::*;
use crate::geometry::UNIT;

verus! {

/// The pixel distance, in fixed-point steps, that makes one cycling step.
pub const PIXEL_SENSITIVITY: i64 = 16 * UNIT;

/// The granularity of a wheel event.
#[derive(Debug, Clone, Copy, PartialEq, Eq, Structural)]
pub enum ScrollUnit {
    Line,
    Pixel,
}

/// One wheel event. For `Line` only the sign of `y` counts; for `Pixel`,
/// `y` is a fixed-point distance.
#[derive(Debug, Clone, Copy, PartialEq, Eq, Structural)]
pub struct ScrollEvent {
    pub unit: ScrollUnit,
    pub y: i32,
}

/// The pixel sum carried from frame to frame, and the direction chosen so
/// far in this frame, after the events `evs`.
pub open spec fn scan_scroll(acc: int, evs: Seq<ScrollEvent>) -> (int, int)
    decreases evs.len(),
{
    if evs.len() == 0 {
        (acc, 0)
    } else {
        let (a, c) = scan_scroll(acc, evs.drop_last());
        let ev = evs.last();
        match ev.unit {
            ScrollUnit::Line => (0, if ev.y > 0 {
                1
            } else if ev.y < 0 {
                -1
            } else {
                c
            }),
            ScrollUnit::Pixel => (a + ev.y, c),
        }
    }
}

/// The pixel sum after a frame with events `evs`, and the step of the frame.
pub open spec fn scroll_outcome(acc: int, evs: Seq<ScrollEvent>) -> (int, int) {
    let (a, c) = scan_scroll(acc, evs);
    if a > PIXEL_SENSITIVITY {
        (0, 1)
    } else if a < -PIXEL_SENSITIVITY {
        (0, -1)
    } else {
        (a, c)
    }
}

/// The pixel sum carried between frames.
pub struct ScrollAccumulator {
    pixels: i64,
}

impl View for ScrollAccumulator {
    type V = int;

    closed spec fn view(&self) -> int {
        self.pixels as int
    }
}

impl ScrollAccumulator {
    /// The carried sum never passes the threshold.
    pub closed spec fn wf(&self) -> bool {
        -PIXEL_SENSITIVITY <= self.pixels <= PIXEL_SENSITIVITY
    }

    pub fn new() -> (r: ScrollAccumulator)
        ensures
            r.wf(),
            r@ == 0,
    {
        ScrollAccumulator { pixels: 0 }
    }

    /// The carried sum.
    pub fn pixels(&self) -> (r: i64)
        ensures
            r == self@,
    {
        self.pixels
    }

    /// Consumes the wheel events of one frame and returns the step they
    /// make: `1`, `-1`, or `0` for none.
    pub fn step(&mut self, events: &Vec<ScrollEvent>) -> (r: i8)
        requires
            old(self).wf(),
        ensures
            final(self).wf(),
            -1 <= r <= 1,
            (final(self)@, r as int) == scroll_outcome(old(self)@, events@),
    {
        let mut acc: i128 = self.pixels as i128;
        let mut change: i8 = 0;
        let mut i: usize = 0;
        while i < events.len()
            invariant
                i <= events@.len(),
                -1 <= change <= 1,
                -PIXEL_SENSITIVITY - i * 0x8000_0000 <= acc <= PIXEL_SENSITIVITY + i * 0x8000_0000,
                (acc as int, change as int) == scan_scroll(old(self)@, events@.subrange(0, i as int)),
                i <= 0xFFFF_FFFF_FFFF_FFFF,
            decreases events@.len() - i,
        {
            let ev = events[i];
            proof {
                assert(events@.subrange(0, i as int + 1).drop_last() =~= events@.subrange(0, i as int));
            }
            match ev.unit {
                ScrollUnit::Line => {
                    acc = 0;
                    if ev.y > 0 {
                        change = 1;
                    }
                    if ev.y < 0 {
                        change = -1;
                    }
                },
                ScrollUnit::Pixel => {
                    acc = acc + ev.y as i128;
                },
            }
            i = i + 1;
        }
        assert(events@.subrange(0, events@.len() as int) =~= events@);
        if acc > PIXEL_SENSITIVITY as i128 {
            change = 1;
            acc = 0;
        }
        if acc < -PIXEL_SENSITIVITY as i128 {
            change = -1;
            acc = 0;
        }
        self.pixels = acc as i64;
        assert(self.wf());
        change
    }
}

} // verus!
