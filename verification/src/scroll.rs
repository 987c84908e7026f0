//! The marquee: a hint that is wider than its box scrolls to its end and
//! back, resting a moment at each end.

use vstd::prelude::*;

verus! {

/// How long the marquee rests at an end, in milliseconds.
pub const DWELL_MS: u64 = 1000;

/// Where the marquee stands.
#[derive(Clone, Copy, Debug, PartialEq, Eq)]
pub struct ScrollState {
    /// Characters of the hint that are scrolled out to the left.
    pub offset: usize,
    /// Whether the marquee is on its way back.
    pub reversed: bool,
    /// While resting: the moment after which it moves again.
    pub pause_until: Option<u64>,
}

/// The furthest offset: what of the message does not fit the width.
pub open spec fn max_offset(message_len: usize, width: usize) -> usize {
    if message_len > width { (message_len - width) as usize } else { 0 }
}

/// A moment plus the dwell, as far as the clock's numbers go.
pub open spec fn dwell_end(now_ms: u64) -> u64 {
    if now_ms + DWELL_MS > u64::MAX { u64::MAX } else { (now_ms + DWELL_MS) as u64 }
}

/// The marquee at rest at the start.
pub open spec fn fresh() -> ScrollState {
    ScrollState { offset: 0, reversed: false, pause_until: None }
}

/// The marquee one tick later. A message that fits stays at the start. A rest
/// ends once the clock has passed its end, and the tick that finds it so does
/// not move. Otherwise the offset moves one character in its direction; at an
/// end it stays, the direction turns and a rest begins.
pub open spec fn ticked(s: ScrollState, message_len: usize, width: usize, now_ms: u64) -> ScrollState {
    let max = max_offset(message_len, width);
    let offset = if s.offset > max { max } else { s.offset };
    if max == 0 {
        fresh()
    } else {
        match s.pause_until {
            Some(until) => if now_ms > until {
                ScrollState { offset, reversed: s.reversed, pause_until: None }
            } else {
                ScrollState { offset, reversed: s.reversed, pause_until: Some(until) }
            },
            None => if s.reversed {
                if offset > 0 {
                    ScrollState { offset: (offset - 1) as usize, reversed: true, pause_until: None }
                } else {
                    ScrollState {
                        offset: 0,
                        reversed: false,
                        pause_until: Some(dwell_end(now_ms)),
                    }
                }
            } else {
                if offset < max {
                    ScrollState {
                        offset: (offset + 1) as usize,
                        reversed: false,
                        pause_until: None,
                    }
                } else {
                    ScrollState {
                        offset: max,
                        reversed: true,
                        pause_until: Some(dwell_end(now_ms)),
                    }
                }
            },
        }
    }
}

impl ScrollState {
    /// The marquee at rest at the start.
    pub fn new() -> (r: ScrollState)
        ensures
            r == fresh(),
    {
        ScrollState { offset: 0, reversed: false, pause_until: None }
    }

    /// Advances the marquee by one render tick.
    pub fn tick(&mut self, message_len: usize, width: usize, now_ms: u64)
        ensures
            *final(self) == ticked(*old(self), message_len, width, now_ms),
            final(self).offset <= max_offset(message_len, width),
    {
        let max: usize = if message_len > width { message_len - width } else { 0 };
        if max == 0 {
            self.offset = 0;
            self.reversed = false;
            self.pause_until = None;
            return ;
        }
        if self.offset > max {
            self.offset = max;
        }
        let rest_end: u64 = if now_ms > u64::MAX - DWELL_MS { u64::MAX } else { now_ms + DWELL_MS };
        match self.pause_until {
            Some(until) => {
                if now_ms > until {
                    self.pause_until = None;
                }
            },
            None => {
                if self.reversed {
                    if self.offset > 0 {
                        self.offset = self.offset - 1;
                    } else {
                        self.reversed = false;
                        self.pause_until = Some(rest_end);
                    }
                } else {
                    if self.offset < max {
                        self.offset = self.offset + 1;
                    } else {
                        self.reversed = true;
                        self.pause_until = Some(rest_end);
                    }
                }
            },
        }
    }
}

/// A tick moves the offset by one character at most, never against the
/// marquee's direction, never past the furthest offset; and the direction
/// turns only at an end, where a rest begins.
pub proof fn lemma_tick_is_one_step(s: ScrollState, message_len: usize, width: usize, now_ms: u64)
    requires
        s.offset <= max_offset(message_len, width),
    ensures
        ({
            let t = ticked(s, message_len, width, now_ms);
            let max = max_offset(message_len, width);
            &&& t.offset <= max
            &&& !s.reversed ==> s.offset <= t.offset <= s.offset + 1
            &&& s.reversed && max > 0 ==> t.offset <= s.offset <= t.offset + 1
            &&& max > 0 && t.reversed != s.reversed ==> t.offset == s.offset && t.pause_until is Some
                && (s.offset == 0 || s.offset == max)
            &&& max > 0 && s.pause_until is Some ==> t.offset == s.offset
        }),
{
}

} // verus!
