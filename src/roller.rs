//! The segment roller: decides, packet by packet, when the current segment
//! is cut and the next one begins.
//!
//! A segment starts at its first video packet. A video packet whose
//! timestamp lies `max_chunk_seconds` or more after that start cuts the
//! segment: the old one is finished and reported, and the packet becomes the
//! first of the next segment. Audio never cuts a segment.

use vstd::prelude::*;

use crate::chunk::{join_path, segment_name, segment_name_spec, FileChunkWriterFactory};
use crate::timebase::{reaches_seconds, rescale_spec, rescale_ts, should_roll, Rational};

verus! {

/// Where the roller is in its life.
#[derive(Clone, Copy, Debug, PartialEq, Eq, Structural)]
pub enum RollerPhase {
    /// No segment yet.
    Idle,
    /// The first segment is open and has no video yet.
    Begun,
    /// A segment is open and has video.
    Writing,
    /// The last segment is closed.
    Ended,
}

/// A segment that was cut: where its file is, its id as the index keeps it
/// (the file name), when it started and how long it lasts.
#[derive(Clone, Debug)]
pub struct FinishedSegment {
    pub path: String,
    pub name: String,
    pub start_ms: i64,
    pub duration_ms: u64,
}

/// Whether a video packet at `pts` cuts a segment whose first video packet
/// was at `start` (none yet: it does not).
pub open spec fn video_rolls(start: Option<i64>, pts: i64, tb: Rational, max_seconds: u32) -> bool {
    match start {
        Some(s) => reaches_seconds(pts - s, tb, max_seconds as int),
        None => false,
    }
}

/// The first video timestamp of the open segment after a video packet at
/// `pts`: the packet's own when it opens a segment, else unchanged.
pub open spec fn next_start(start: Option<i64>, pts: i64, tb: Rational, max_seconds: u32) -> Option<
    i64,
> {
    if start is None || video_rolls(start, pts, tb, max_seconds) {
        Some(pts)
    } else {
        start
    }
}

/// The first video timestamp of the open segment after video packets at
/// `pts`, in order, starting from `start`.
pub open spec fn start_after(start: Option<i64>, pts: Seq<i64>, tb: Rational, max_seconds: u32) -> Option<
    i64,
>
    decreases pts.len(),
{
    if pts.len() == 0 {
        start
    } else {
        next_start(start_after(start, pts.drop_last(), tb, max_seconds), pts.last(), tb, max_seconds)
    }
}

/// A segment's duration in milliseconds: from its first video timestamp to
/// the first timestamp of the next segment, rounded to the millisecond; the
/// configured length when that cannot be measured.
pub open spec fn measured_duration_ms(start: i64, next: i64, tb: Rational, max_seconds: u32) -> nat {
    let delta = next - start;
    if i64::MIN <= delta <= i64::MAX {
        match rescale_spec(delta, tb, Rational { num: 1, den: 1000 }) {
            Some(ms) => if ms >= 0 {
                ms as nat
            } else {
                (max_seconds * 1000) as nat
            },
            None => (max_seconds * 1000) as nat,
        }
    } else {
        (max_seconds * 1000) as nat
    }
}

/// Cuts a run of segments by time.
pub struct TimeBasedRollingChunkWriter {
    max_chunk_seconds: u32,
    chunks: FileChunkWriterFactory,
    phase: RollerPhase,
    start_pts: Option<i64>,
    active_path: String,
    chunk_start_ms: i64,
}

impl TimeBasedRollingChunkWriter {
    pub closed spec fn max_seconds_spec(&self) -> u32 {
        self.max_chunk_seconds
    }

    pub closed spec fn phase_spec(&self) -> RollerPhase {
        self.phase
    }

    /// The first video timestamp of the open segment, if it has video.
    pub closed spec fn start_pts_spec(&self) -> Option<i64> {
        self.start_pts
    }

    /// The path of the open segment.
    pub closed spec fn active_path_spec(&self) -> Seq<char> {
        self.active_path@
    }

    /// When the open segment started (milliseconds since the Unix epoch).
    pub closed spec fn chunk_start_spec(&self) -> i64 {
        self.chunk_start_ms
    }

    /// The id of the open segment.
    pub closed spec fn chunk_id_spec(&self) -> nat {
        self.chunks.seq_num_spec()
    }

    pub closed spec fn directory_spec(&self) -> Seq<char> {
        self.chunks.directory_spec()
    }

    /// The open segment's file is named after its id, in the directory.
    pub open spec fn active_path_named(&self) -> bool {
        self.active_path_spec() == join_path(self.directory_spec(), segment_name_spec(self.chunk_id_spec()))
    }

    /// A roller that takes its segment ids from `chunks` and cuts segments
    /// every `max_chunk_seconds` seconds of video.
    pub fn new(chunks: FileChunkWriterFactory, max_chunk_seconds: u32) -> (r:
        TimeBasedRollingChunkWriter)
        ensures
            r.max_seconds_spec() == max_chunk_seconds,
            r.phase_spec() == RollerPhase::Idle,
            r.start_pts_spec() is None,
            r.chunk_id_spec() == chunks.seq_num_spec(),
            r.directory_spec() == chunks.directory_spec(),
    {
        TimeBasedRollingChunkWriter {
            max_chunk_seconds,
            chunks,
            phase: RollerPhase::Idle,
            start_pts: None,
            active_path: String::new(),
            chunk_start_ms: 0,
        }
    }

    /// Opens the first segment, which started at `now_ms`, and returns its
    /// path.
    pub fn begin(&mut self, now_ms: i64) -> (r: String)
        requires
            old(self).phase_spec() == RollerPhase::Idle,
            old(self).chunk_id_spec() < u64::MAX,
        ensures
            final(self).phase_spec() == RollerPhase::Begun,
            final(self).active_path_named(),
            final(self).max_seconds_spec() == old(self).max_seconds_spec(),
            final(self).directory_spec() == old(self).directory_spec(),
            final(self).chunk_id_spec() == old(self).chunk_id_spec() + 1,
            final(self).start_pts_spec() is None,
            final(self).chunk_start_spec() == now_ms,
            final(self).active_path_spec() == join_path(
                old(self).directory_spec(),
                segment_name_spec(final(self).chunk_id_spec()),
            ),
            r@ == final(self).active_path_spec(),
    {
        self.active_path = self.chunks.next();
        self.phase = RollerPhase::Begun;
        self.start_pts = None;
        self.chunk_start_ms = now_ms;
        self.active_path.clone()
    }

    /// Takes a video packet at `pts` (ticks of `src_timebase`) that arrived
    /// at `now_ms`. When it cuts the open segment, returns that segment,
    /// finished, and opens the next one, which the packet then belongs to.
    /// A counter with no id left keeps the open segment.
    pub fn write_video(&mut self, pts: i64, src_timebase: Rational, now_ms: i64) -> (r: Option<
        FinishedSegment,
    >)
        requires
            old(self).phase_spec() == RollerPhase::Begun || old(self).phase_spec()
                == RollerPhase::Writing,
            old(self).active_path_named(),
        ensures
            final(self).phase_spec() == RollerPhase::Writing,
            final(self).active_path_named(),
            r matches Some(done) ==> done.path@ == join_path(final(self).directory_spec(), done.name@),
            final(self).max_seconds_spec() == old(self).max_seconds_spec(),
            final(self).directory_spec() == old(self).directory_spec(),
            ({
                let rolls = video_rolls(
                    old(self).start_pts_spec(),
                    pts,
                    src_timebase,
                    old(self).max_seconds_spec(),
                ) && old(self).chunk_id_spec() < u64::MAX;
                if rolls {
                    let s = old(self).start_pts_spec()->Some_0;
                    &&& r is Some
                    &&& r->Some_0.path@ == old(self).active_path_spec()
                    &&& r->Some_0.name@ == segment_name_spec(old(self).chunk_id_spec())
                    &&& r->Some_0.start_ms == old(self).chunk_start_spec()
                    &&& r->Some_0.duration_ms == measured_duration_ms(
                        s,
                        pts,
                        src_timebase,
                        old(self).max_seconds_spec(),
                    )
                    &&& final(self).chunk_id_spec() == old(self).chunk_id_spec() + 1
                    &&& final(self).active_path_spec() == join_path(
                        old(self).directory_spec(),
                        segment_name_spec(final(self).chunk_id_spec()),
                    )
                    &&& final(self).start_pts_spec() == Some(pts)
                    &&& final(self).chunk_start_spec() == now_ms
                } else {
                    &&& r is None
                    &&& final(self).chunk_id_spec() == old(self).chunk_id_spec()
                    &&& final(self).active_path_spec() == old(self).active_path_spec()
                    &&& final(self).chunk_start_spec() == old(self).chunk_start_spec()
                    &&& final(self).start_pts_spec() == if old(self).start_pts_spec() is None {
                        Some(pts)
                    } else {
                        old(self).start_pts_spec()
                    }
                }
            }),
    {
        self.phase = RollerPhase::Writing;
        let start = match self.start_pts {
            None => {
                self.start_pts = Some(pts);
                return None;
            },
            Some(s) => s,
        };
        if !should_roll(start, pts, src_timebase, self.max_chunk_seconds) || self.chunks.seq_num()
            == u64::MAX {
            return None;
        }
        let duration_ms = self.measure(start, pts, src_timebase);
        let name = segment_name(self.chunks.seq_num());
        let path = self.active_path.clone();
        let finished = FinishedSegment { path, name, start_ms: self.chunk_start_ms, duration_ms };
        self.active_path = self.chunks.next();
        self.start_pts = Some(pts);
        self.chunk_start_ms = now_ms;
        Some(finished)
    }

    /// The duration of a segment from `start` to `next`, in milliseconds.
    fn measure(&self, start: i64, next: i64, tb: Rational) -> (r: u64)
        ensures
            r == measured_duration_ms(start, next, tb, self.max_chunk_seconds),
    {
        let fallback: u64 = self.max_chunk_seconds as u64 * 1000;
        let delta: i128 = next as i128 - start as i128;
        if delta < i64::MIN as i128 || delta > i64::MAX as i128 {
            return fallback;
        }
        match rescale_ts(Some(delta as i64), tb, Rational { num: 1, den: 1000 }) {
            Some(ms) => if ms >= 0 {
                ms as u64
            } else {
                fallback
            },
            None => fallback,
        }
    }

    /// Closes the last segment and returns its path. It is neither indexed
    /// nor uploaded.
    pub fn end(&mut self) -> (r: String)
        requires
            old(self).phase_spec() == RollerPhase::Begun || old(self).phase_spec()
                == RollerPhase::Writing,
        ensures
            final(self).phase_spec() == RollerPhase::Ended,
            final(self).chunk_id_spec() == old(self).chunk_id_spec(),
            final(self).active_path_spec() == old(self).active_path_spec(),
            r@ == old(self).active_path_spec(),
    {
        self.phase = RollerPhase::Ended;
        self.active_path.clone()
    }

    pub fn phase(&self) -> (r: RollerPhase)
        ensures
            r == self.phase_spec(),
    {
        self.phase
    }

    /// The id of the open segment.
    pub fn current_chunk_id(&self) -> (r: u64)
        ensures
            r == self.chunk_id_spec(),
    {
        self.chunks.seq_num()
    }

    /// The path of the open segment.
    pub fn active_path(&self) -> (r: &str)
        ensures
            r@ == self.active_path_spec(),
    {
        self.active_path.as_str()
    }
}

/// A segment holds the longest run of video packets that stay within the
/// roll length of its first one: from a fresh segment, as long as no later
/// packet reaches `max_seconds` past the first, the segment keeps the first
/// packet's start, and the first packet that reaches it cuts the segment.
pub proof fn lemma_segment_is_longest_prefix(pts: Seq<i64>, tb: Rational, max_seconds: u32, k: int)
    requires
        1 <= k < pts.len(),
        forall|i: int| 1 <= i < k ==> !reaches_seconds(#[trigger] pts[i] - pts[0], tb, max_seconds as int),
    ensures
        start_after(None, pts.subrange(0, k), tb, max_seconds) == Some(pts[0]),
        video_rolls(start_after(None, pts.subrange(0, k), tb, max_seconds), pts[k], tb, max_seconds)
            <==> reaches_seconds(pts[k] - pts[0], tb, max_seconds as int),
    decreases k,
{
    let prefix = pts.subrange(0, k);
    assert(prefix.drop_last() =~= pts.subrange(0, k - 1));
    assert(prefix.last() == pts[k - 1]);
    if k == 1 {
        assert(pts.subrange(0, 0) =~= Seq::<i64>::empty());
    } else {
        lemma_segment_is_longest_prefix(pts, tb, max_seconds, k - 1);
        assert(!reaches_seconds(pts[k - 1] - pts[0], tb, max_seconds as int));
    }
}

} // verus!
