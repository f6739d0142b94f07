//! Multi-track coordinator: several sample stores sharing one view window
//! and sample rate.

use vstd::prelude::*;
use crate::math::{autoscale_spec, autoscale_symmetric};
use crate::raw::RawAudioFile;
use crate::view::{pan_start, zoom_start, zoom_width, ViewWindow};
use crate::waveform::{bucket_min_max_i32, bucket_spec, range_min_max_i32, range_spec, MinMax};

verus! {

/// Why a multi-track set cannot be built.
#[derive(Clone, Copy, Debug, PartialEq, Eq, Structural)]
pub enum SetupError {
    /// A sample rate of zero admits no time/sample conversion.
    InvalidRate,
    /// No track is available; there is nothing to navigate or render.
    NoTracks,
}

/// The sample count of the longest track.
pub open spec fn max_len(views: Seq<Seq<i32>>) -> int
    decreases views.len(),
{
    if views.len() == 0 {
        0
    } else {
        vstd::math::max(max_len(views.drop_last()), views.last().len() as int)
    }
}

/// The amplitude extent visible across a group of tracks: the per-track
/// extents of the shared range, folded with min/max; a track with no visible
/// data is skipped, and `None` means no track has visible data.
pub open spec fn tracks_range_spec(views: Seq<Seq<i32>>, start: int, end: int) -> Option<
    (i32, i32),
>
    decreases views.len(),
{
    if views.len() == 0 {
        None
    } else {
        let rest = tracks_range_spec(views.drop_last(), start, end);
        let last = range_spec(views.last(), start, end);
        match (rest, last) {
            (Option::None, l) => l,
            (r, Option::None) => r,
            (Option::Some(a), Option::Some(b)) => Option::Some(
                (
                    if a.0 <= b.0 {
                        a.0
                    } else {
                        b.0
                    },
                    if a.1 >= b.1 {
                        a.1
                    } else {
                        b.1
                    },
                ),
            ),
        }
    }
}

/// Several tracks sharing one view window.
pub struct MultiTrackSet {
    tracks: Vec<RawAudioFile>,
    view: ViewWindow,
}

impl MultiTrackSet {
    /// There is at least one track, the rate is positive, and the shared
    /// view runs over the longest track's duration.
    #[verifier::type_invariant]
    closed spec fn wf(self) -> bool {
        &&& self.tracks@.len() >= 1
        &&& self.view.spec_rate() >= 1
        &&& self.view.spec_duration() == max_len(self.track_views())
        &&& self.view.spec_duration() <= usize::MAX
    }

    /// The sample sequences of all tracks, in input order.
    pub closed spec fn track_views(&self) -> Seq<Seq<i32>> {
        self.tracks@.map_values(|t: RawAudioFile| t@)
    }

    /// The tracks themselves, in input order.
    pub closed spec fn spec_tracks(&self) -> Seq<RawAudioFile> {
        self.tracks@
    }

    /// The shared view window.
    pub closed spec fn spec_view(&self) -> ViewWindow {
        self.view
    }

    /// Build a set over the given tracks.  A rate of zero is rejected, as is
    /// an empty track list; otherwise the shared view is built over the
    /// longest track's duration, in samples.
    pub fn new(
        tracks: Vec<RawAudioFile>,
        rate: u32,
        min_zoom_samples: u64,
        max_width_samples: u64,
    ) -> (r: Result<MultiTrackSet, SetupError>)
        ensures
            r is Ok <==> (rate >= 1 && tracks@.len() >= 1),
            rate == 0 ==> r == Result::<MultiTrackSet, SetupError>::Err(SetupError::InvalidRate),
            rate >= 1 && tracks@.len() == 0 ==> r == Result::<MultiTrackSet, SetupError>::Err(
                SetupError::NoTracks,
            ),
            match r {
                Ok(s) => {
                    &&& s.spec_tracks() == tracks@
                    &&& s.track_views() == tracks@.map_values(|t: RawAudioFile| t@)
                    &&& s.spec_view().spec_rate() == rate
                    &&& s.spec_view().spec_duration() == max_len(s.track_views())
                    &&& s.spec_view().spec_max_width() == vstd::math::min(
                        max_width_samples as int,
                        s.spec_view().spec_duration(),
                    )
                    &&& s.spec_view().spec_min_width() == vstd::math::min(
                        min_zoom_samples as int,
                        s.spec_view().spec_max_width(),
                    )
                    &&& s.spec_view().spec_start() == 0
                    &&& s.spec_view().spec_width() == crate::math::clamped(
                        crate::view::INITIAL_WIDTH_SECONDS * rate,
                        s.spec_view().spec_min_width(),
                        s.spec_view().spec_max_width(),
                    )
                },
                Err(_) => true,
            },
    {
        if rate == 0 {
            return Err(SetupError::InvalidRate);
        }
        if tracks.len() == 0 {
            return Err(SetupError::NoTracks);
        }
        let ghost views = tracks@.map_values(|t: RawAudioFile| t@);
        let mut max_samples: usize = 0;
        let mut i: usize = 0;
        while i < tracks.len()
            invariant
                i <= tracks@.len(),
                views == tracks@.map_values(|t: RawAudioFile| t@),
                max_samples == max_len(views.take(i as int)),
            decreases tracks@.len() - i,
        {
            let n = tracks[i].len_samples();
            proof {
                assert(views.take(i + 1).drop_last() =~= views.take(i as int));
                assert(views.take(i + 1).last() == views[i as int]);
            }
            if n > max_samples {
                max_samples = n;
            }
            i = i + 1;
        }
        proof {
            assert(views.take(tracks@.len() as int) =~= views);
        }
        let view = ViewWindow::new(rate, max_samples as u64, min_zoom_samples, max_width_samples);
        Ok(MultiTrackSet { tracks, view })
    }

    /// Number of tracks.
    pub fn track_count(&self) -> (n: usize)
        ensures
            n == self.track_views().len(),
            n >= 1,
    {
        proof {
            use_type_invariant(&*self);
        }
        self.tracks.len()
    }

    /// Borrow track `i` (input order).
    pub fn track(&self, i: usize) -> (t: &RawAudioFile)
        requires
            i < self.track_views().len(),
        ensures
            t == self.spec_tracks()[i as int],
            t@ == self.track_views()[i as int],
    {
        &self.tracks[i]
    }

    /// Borrow the shared view window.
    pub fn view(&self) -> (v: &ViewWindow)
        ensures
            v == self.spec_view(),
    {
        &self.view
    }

    /// Pan the shared window by the fraction `num / den` of its width.
    pub fn pan(&mut self, num: i64, den: u64)
        requires
            den >= 1,
        ensures
            final(self).track_views() == old(self).track_views(),
            final(self).spec_tracks() == old(self).spec_tracks(),
            final(self).spec_view().spec_start() == pan_start(
                old(self).spec_view().spec_start(),
                old(self).spec_view().spec_width(),
                old(self).spec_view().spec_duration(),
                num as int,
                den as int,
            ),
            final(self).spec_view().spec_width() == old(self).spec_view().spec_width(),
            final(self).spec_view().spec_duration() == old(self).spec_view().spec_duration(),
            final(self).spec_view().spec_min_width() == old(self).spec_view().spec_min_width(),
            final(self).spec_view().spec_max_width() == old(self).spec_view().spec_max_width(),
            final(self).spec_view().spec_rate() == old(self).spec_view().spec_rate(),
    {
        proof {
            use_type_invariant(&*self);
        }
        self.view.pan(num, den);
    }

    /// Zoom the shared window by the factor `num / den`.
    pub fn zoom(&mut self, num: u64, den: u64)
        requires
            den >= 1,
        ensures
            final(self).track_views() == old(self).track_views(),
            final(self).spec_tracks() == old(self).spec_tracks(),
            final(self).spec_view().spec_width() == zoom_width(
                old(self).spec_view().spec_width(),
                num as int,
                den as int,
                old(self).spec_view().spec_min_width(),
                old(self).spec_view().spec_max_width(),
            ),
            final(self).spec_view().spec_start() == zoom_start(
                old(self).spec_view().spec_start(),
                old(self).spec_view().spec_width(),
                final(self).spec_view().spec_width(),
                old(self).spec_view().spec_duration(),
            ),
            final(self).spec_view().spec_duration() == old(self).spec_view().spec_duration(),
            final(self).spec_view().spec_min_width() == old(self).spec_view().spec_min_width(),
            final(self).spec_view().spec_max_width() == old(self).spec_view().spec_max_width(),
            final(self).spec_view().spec_rate() == old(self).spec_view().spec_rate(),
    {
        proof {
            use_type_invariant(&*self);
        }
        self.view.zoom(num, den);
    }

    /// Jump the shared window to the start of the timeline.
    pub fn jump_start(&mut self)
        ensures
            final(self).track_views() == old(self).track_views(),
            final(self).spec_tracks() == old(self).spec_tracks(),
            final(self).spec_view().spec_start() == 0,
            final(self).spec_view().spec_width() == old(self).spec_view().spec_width(),
            final(self).spec_view().spec_duration() == old(self).spec_view().spec_duration(),
            final(self).spec_view().spec_min_width() == old(self).spec_view().spec_min_width(),
            final(self).spec_view().spec_max_width() == old(self).spec_view().spec_max_width(),
            final(self).spec_view().spec_rate() == old(self).spec_view().spec_rate(),
    {
        proof {
            use_type_invariant(&*self);
        }
        self.view.jump_start();
    }

    /// Jump the shared window to the end of the timeline.
    pub fn jump_end(&mut self)
        ensures
            final(self).track_views() == old(self).track_views(),
            final(self).spec_tracks() == old(self).spec_tracks(),
            final(self).spec_view().spec_start() == old(self).spec_view().spec_duration() - old(
                self,
            ).spec_view().spec_width(),
            final(self).spec_view().spec_width() == old(self).spec_view().spec_width(),
            final(self).spec_view().spec_duration() == old(self).spec_view().spec_duration(),
            final(self).spec_view().spec_min_width() == old(self).spec_view().spec_min_width(),
            final(self).spec_view().spec_max_width() == old(self).spec_view().spec_max_width(),
            final(self).spec_view().spec_rate() == old(self).spec_view().spec_rate(),
    {
        proof {
            use_type_invariant(&*self);
        }
        self.view.jump_end();
    }

    /// The (min, max) amplitude extent visible across all tracks, or `None`
    /// when no track has samples inside the current window.
    #[verifier::loop_isolation(false)]
    pub fn visible_amplitude_range(&self) -> (r: Option<(i32, i32)>)
        ensures
            r == tracks_range_spec(
                self.track_views(),
                self.spec_view().spec_start(),
                self.spec_view().spec_start() + self.spec_view().spec_width(),
            ),
    {
        proof {
            use_type_invariant(&*self);
        }
        let (start64, end64) = self.view.sample_range();
        assert(end64 <= usize::MAX);
        let start = start64 as usize;
        let end = end64 as usize;
        let mut acc: Option<(i32, i32)> = None;
        let mut i: usize = 0;
        while i < self.tracks.len()
            invariant
                i <= self.tracks@.len(),
                acc == tracks_range_spec(
                    self.track_views().take(i as int),
                    start as int,
                    end as int,
                ),
            decreases self.tracks@.len() - i,
        {
            let cur = range_min_max_i32(self.tracks[i].samples(), start, end);
            proof {
                assert(self.track_views().take(i + 1).drop_last() =~= self.track_views().take(
                    i as int,
                ));
                assert(self.track_views().take(i + 1).last() == self.track_views()[i as int]);
            }
            match cur {
                Some((mn2, mx2)) => {
                    match acc {
                        Some((mn1, mx1)) => {
                            acc = Some(
                                (
                                    if mn1 <= mn2 {
                                        mn1
                                    } else {
                                        mn2
                                    },
                                    if mx1 >= mx2 {
                                        mx1
                                    } else {
                                        mx2
                                    },
                                ),
                            );
                        },
                        None => {
                            acc = Some((mn2, mx2));
                        },
                    }
                },
                None => {},
            }
            i = i + 1;
        }
        proof {
            assert(self.track_views().take(self.tracks@.len() as int) =~= self.track_views());
        }
        acc
    }

    /// The symmetric vertical display bounds for the current window, as a
    /// rational `(num, den)`: full scale when no track has visible data,
    /// otherwise the autoscaled visible extent.
    pub fn y_bounds(&self) -> (r: (u64, u64))
        ensures
            ({
                let ext = tracks_range_spec(
                    self.track_views(),
                    self.spec_view().spec_start(),
                    self.spec_view().spec_start() + self.spec_view().spec_width(),
                );
                match ext {
                    Option::None => r == (1u64, 1u64),
                    Option::Some(p) => (r.0 as int, r.1 as int) == autoscale_spec(
                        p.0 as int,
                        p.1 as int,
                    ),
                }
            }),
    {
        match self.visible_amplitude_range() {
            None => (1, 1),
            Some((mn, mx)) => autoscale_symmetric(mn as i64, mx as i64),
        }
    }

    /// The bucket row of track `i` for the current window, one bucket per
    /// display column; a track that ends before the window start yields an
    /// all-empty row.
    pub fn visible_buckets(&self, i: usize, columns: usize) -> (out: Vec<MinMax>)
        requires
            i < self.track_views().len(),
        ensures
            out@.len() == columns,
            forall|j: int|
                0 <= j < columns ==> out@[j] == bucket_spec(
                    self.track_views()[i as int],
                    self.spec_view().spec_start(),
                    self.spec_view().spec_start() + self.spec_view().spec_width(),
                    columns as int,
                    j,
                ),
    {
        proof {
            use_type_invariant(&*self);
        }
        let (start64, end64) = self.view.sample_range();
        assert(end64 <= usize::MAX);
        bucket_min_max_i32(self.tracks[i].samples(), start64 as usize, end64 as usize, columns)
    }
}

} // verus!
