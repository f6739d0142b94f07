//! View navigation state machine: the visible window over a fixed sample
//! timeline, with pan, zoom, and jump operations.
//!
//! All positions and widths are counts of samples, so every transition is
//! exact integer arithmetic; pan fractions and zoom factors are rationals
//! `num / den`.

use vstd::prelude::*;
use crate::math::clamped;
use vstd::arithmetic::div_mod::lemma_div_multiples_vanish;
use vstd::arithmetic::mul::{lemma_mul_is_commutative, lemma_mul_upper_bound};

verus! {

/// Width of the initial window, in seconds.
pub const INITIAL_WIDTH_SECONDS: u64 = 2;

/// The signed number of samples a pan by `num / den` of the width moves the
/// window start; the fractional sample count is truncated toward zero.
pub open spec fn pan_delta(width: int, num: int, den: int) -> int {
    if num >= 0 {
        (width * num) / den
    } else {
        -((width * (-num)) / den)
    }
}

/// Where a pan by `num / den` puts the window start.
pub open spec fn pan_start(start: int, width: int, duration: int, num: int, den: int) -> int {
    clamped(start + pan_delta(width, num, den), 0, duration - width)
}

/// The window width after zooming by the factor `num / den`.
pub open spec fn zoom_width(width: int, num: int, den: int, min_width: int, max_width: int) -> int {
    clamped((width * num) / den, min_width, max_width)
}

/// Where a zoom that changes the width to `new_width` puts the window start:
/// the old window center is preserved (`2 * start + width` is the center in
/// half-sample units), then the start is clamped into the timeline.
pub open spec fn zoom_start(start: int, width: int, new_width: int, duration: int) -> int {
    let c2 = 2 * start + width;
    let raw = if c2 >= new_width {
        (c2 - new_width) / 2
    } else {
        0
    };
    vstd::math::min(raw, duration - new_width)
}

/// The visible window of a fixed sample timeline.
pub struct ViewWindow {
    rate: u32,
    duration: u64,
    min_width: u64,
    max_width: u64,
    start: u64,
    width: u64,
}

impl ViewWindow {
    /// The navigation invariant: the window always lies inside the timeline
    /// and its width always lies inside the configured zoom bounds.
    #[verifier::type_invariant]
    closed spec fn wf(self) -> bool {
        &&& self.min_width <= self.width <= self.max_width
        &&& self.max_width <= self.duration
        &&& self.start + self.width <= self.duration
    }

    /// Sample rate (samples per second).
    pub closed spec fn spec_rate(&self) -> int {
        self.rate as int
    }

    /// Total duration of the timeline, in samples.
    pub closed spec fn spec_duration(&self) -> int {
        self.duration as int
    }

    /// Narrowest window width the zoom allows.
    pub closed spec fn spec_min_width(&self) -> int {
        self.min_width as int
    }

    /// Widest window width the zoom allows.
    pub closed spec fn spec_max_width(&self) -> int {
        self.max_width as int
    }

    /// First visible sample.
    pub closed spec fn spec_start(&self) -> int {
        self.start as int
    }

    /// Number of visible samples.
    pub closed spec fn spec_width(&self) -> int {
        self.width as int
    }

    /// Navigation can never escape the timeline: the window's start is
    /// non-negative, the window ends no later than the duration, and the
    /// width lies inside the configured zoom bounds.  The constructor and
    /// every navigation operation ensure this, so it holds after any
    /// sequence of operations.
    pub open spec fn in_bounds(&self) -> bool {
        &&& 0 <= self.spec_start()
        &&& self.spec_start() + self.spec_width() <= self.spec_duration()
        &&& self.spec_min_width() <= self.spec_width() <= self.spec_max_width()
        &&& self.spec_max_width() <= self.spec_duration()
    }

    /// Build the view over a timeline of `duration` samples: the maximum
    /// width is the configured maximum clamped to the duration, the minimum
    /// width is the configured minimum clamped to the maximum width, and the
    /// initial window starts at zero with a width of two seconds clamped
    /// into those bounds.  A duration of zero leaves a zero-width window on
    /// which every operation is a no-op.
    pub fn new(rate: u32, duration: u64, min_zoom_samples: u64, max_width_samples: u64) -> (v:
        ViewWindow)
        requires
            rate >= 1,
        ensures
            v.spec_rate() == rate,
            v.spec_duration() == duration,
            v.spec_max_width() == vstd::math::min(max_width_samples as int, duration as int),
            v.spec_min_width() == vstd::math::min(min_zoom_samples as int, v.spec_max_width()),
            v.spec_start() == 0,
            v.in_bounds(),
            v.spec_width() == clamped(
                INITIAL_WIDTH_SECONDS * rate,
                v.spec_min_width(),
                v.spec_max_width(),
            ),
    {
        let max_width = if max_width_samples < duration {
            max_width_samples
        } else {
            duration
        };
        let min_width = if min_zoom_samples < max_width {
            min_zoom_samples
        } else {
            max_width
        };
        let initial = INITIAL_WIDTH_SECONDS * (rate as u64);
        let width = if initial < min_width {
            min_width
        } else if initial > max_width {
            max_width
        } else {
            initial
        };
        ViewWindow { rate, duration, min_width, max_width, start: 0, width }
    }

    /// Sample rate the view was built with.
    pub fn rate(&self) -> (r: u32)
        ensures
            r == self.spec_rate(),
    {
        self.rate
    }

    /// Total duration of the timeline, in samples.
    pub fn duration_samples(&self) -> (r: u64)
        ensures
            r == self.spec_duration(),
    {
        self.duration
    }

    /// Narrowest window width the zoom allows.
    pub fn min_width(&self) -> (r: u64)
        ensures
            r == self.spec_min_width(),
    {
        self.min_width
    }

    /// Widest window width the zoom allows.
    pub fn max_width(&self) -> (r: u64)
        ensures
            r == self.spec_max_width(),
    {
        self.max_width
    }

    /// First visible sample.
    pub fn start(&self) -> (r: u64)
        ensures
            r == self.spec_start(),
    {
        self.start
    }

    /// Number of visible samples.
    pub fn width(&self) -> (r: u64)
        ensures
            r == self.spec_width(),
    {
        self.width
    }

    /// The visible sample range `[start, start + width)`.
    pub fn sample_range(&self) -> (r: (u64, u64))
        ensures
            r.0 == self.spec_start(),
            r.1 == self.spec_start() + self.spec_width(),
            r.0 <= r.1 <= self.spec_duration(),
    {
        proof {
            use_type_invariant(&*self);
        }
        (self.start, self.start + self.width)
    }

    /// The largest start position the current width allows.
    pub fn max_start(&self) -> (r: u64)
        ensures
            r == self.spec_duration() - self.spec_width(),
    {
        proof {
            use_type_invariant(&*self);
        }
        self.duration - self.width
    }

    /// Move the window by the fraction `num / den` of its width: positive
    /// toward the end, negative toward the start.  The start is clamped so
    /// the window stays inside the timeline; the width never changes.
    pub fn pan(&mut self, num: i64, den: u64)
        requires
            den >= 1,
        ensures
            final(self).spec_start() == pan_start(
                old(self).spec_start(),
                old(self).spec_width(),
                old(self).spec_duration(),
                num as int,
                den as int,
            ),
            final(self).spec_width() == old(self).spec_width(),
            final(self).spec_duration() == old(self).spec_duration(),
            final(self).spec_min_width() == old(self).spec_min_width(),
            final(self).spec_max_width() == old(self).spec_max_width(),
            final(self).spec_rate() == old(self).spec_rate(),
            final(self).in_bounds(),
        no_unwind
    {
        proof {
            use_type_invariant(&*self);
        }
        let max_start = self.duration - self.width;
        let new_start: u64;
        if num >= 0 {
            proof {
                lemma_mul_upper_bound(
                    self.width as int,
                    0xffff_ffff_ffff_ffffint,
                    num as int,
                    0x7fff_ffff_ffff_ffffint,
                );
            }
            let delta = ((self.width as u128) * (num as u128)) / (den as u128);
            let cand = (self.start as u128) + delta;
            new_start = if cand > (max_start as u128) {
                max_start
            } else {
                cand as u64
            };
        } else {
            let mag_num = (-(num as i128)) as u128;
            proof {
                lemma_mul_upper_bound(
                    self.width as int,
                    0xffff_ffff_ffff_ffffint,
                    mag_num as int,
                    0x8000_0000_0000_0000int,
                );
            }
            let mag = ((self.width as u128) * mag_num) / (den as u128);
            if mag >= (self.start as u128) {
                new_start = 0;
            } else {
                new_start = self.start - (mag as u64);
            }
        }
        self.start = new_start;
        proof {
            use_type_invariant(&*self);
        }
    }

    /// Zoom by the factor `num / den`: the width is scaled and clamped into
    /// the zoom bounds, and the window is re-centered on its old center,
    /// then clamped into the timeline.  Width and start change together, so
    /// the window never ends up partially outside the timeline.
    pub fn zoom(&mut self, num: u64, den: u64)
        requires
            den >= 1,
        ensures
            final(self).spec_width() == zoom_width(
                old(self).spec_width(),
                num as int,
                den as int,
                old(self).spec_min_width(),
                old(self).spec_max_width(),
            ),
            final(self).spec_start() == zoom_start(
                old(self).spec_start(),
                old(self).spec_width(),
                final(self).spec_width(),
                old(self).spec_duration(),
            ),
            final(self).spec_duration() == old(self).spec_duration(),
            final(self).spec_min_width() == old(self).spec_min_width(),
            final(self).spec_max_width() == old(self).spec_max_width(),
            final(self).spec_rate() == old(self).spec_rate(),
            final(self).in_bounds(),
        no_unwind
    {
        proof {
            use_type_invariant(&*self);
            lemma_mul_upper_bound(
                self.width as int,
                0xffff_ffff_ffff_ffffint,
                num as int,
                0xffff_ffff_ffff_ffffint,
            );
        }
        let scaled = ((self.width as u128) * (num as u128)) / (den as u128);
        let new_width: u64 = if scaled < (self.min_width as u128) {
            self.min_width
        } else if scaled > (self.max_width as u128) {
            self.max_width
        } else {
            scaled as u64
        };
        let c2 = (self.start as u128) * 2 + (self.width as u128);
        let raw = if c2 >= (new_width as u128) {
            (c2 - (new_width as u128)) / 2
        } else {
            0
        };
        let max_start = self.duration - new_width;
        let new_start: u64 = if raw > (max_start as u128) {
            max_start
        } else {
            raw as u64
        };
        *self = ViewWindow {
            rate: self.rate,
            duration: self.duration,
            min_width: self.min_width,
            max_width: self.max_width,
            start: new_start,
            width: new_width,
        };
        proof {
            use_type_invariant(&*self);
        }
    }

    /// Jump to the start of the timeline.
    pub fn jump_start(&mut self)
        ensures
            final(self).spec_start() == 0,
            final(self).spec_width() == old(self).spec_width(),
            final(self).spec_duration() == old(self).spec_duration(),
            final(self).spec_min_width() == old(self).spec_min_width(),
            final(self).spec_max_width() == old(self).spec_max_width(),
            final(self).spec_rate() == old(self).spec_rate(),
            final(self).in_bounds(),
        no_unwind
    {
        proof {
            use_type_invariant(&*self);
        }
        self.start = 0;
        proof {
            use_type_invariant(&*self);
        }
    }

    /// Jump so that the window ends at the end of the timeline.
    pub fn jump_end(&mut self)
        ensures
            final(self).spec_start() == old(self).spec_duration() - old(self).spec_width(),
            final(self).spec_width() == old(self).spec_width(),
            final(self).spec_duration() == old(self).spec_duration(),
            final(self).spec_min_width() == old(self).spec_min_width(),
            final(self).spec_max_width() == old(self).spec_max_width(),
            final(self).spec_rate() == old(self).spec_rate(),
            final(self).in_bounds(),
        no_unwind
    {
        proof {
            use_type_invariant(&*self);
        }
        self.start = self.duration - self.width;
        proof {
            use_type_invariant(&*self);
        }
    }
}

/// Zooming by a unit factor is a no-op: the clamped width equals the old
/// width, and re-centering returns exactly the old start, so the window
/// center is preserved.
pub proof fn lemma_zoom_unit(
    start: int,
    width: int,
    min_width: int,
    max_width: int,
    duration: int,
    den: int,
)
    requires
        den >= 1,
        0 <= start,
        min_width <= width <= max_width,
        max_width <= duration,
        start + width <= duration,
    ensures
        zoom_width(width, den, den, min_width, max_width) == width,
        zoom_start(start, width, width, duration) == start,
{
    lemma_mul_is_commutative(width, den);
    lemma_div_multiples_vanish(width, den);
    lemma_div_multiples_vanish(start, 2);
}

} // verus!
