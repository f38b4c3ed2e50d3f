//! The ingest pipeline's decisions, and the playlists served from the index.
//!
//! A source has any number of streams. The best video stream goes to output
//! stream 0 and the best audio stream, if any, to output stream 1; packets
//! of every other stream are counted and dropped.

use vstd::prelude::*;

use crate::db::{select_files, Database};
use crate::decimal::{decimal, push_decimal};
use crate::playlist::{playlist_text, utc_millis_of, OnDemandTimeRange, Playlist, PlaylistKind};

verus! {

/// The output index of a source stream that reaches no segment.
pub const DROP_STREAM: usize = usize::MAX;

/// How long a segment lasts unless configured otherwise, in seconds.
pub const DEFAULT_ROLL_SECONDS: u32 = 10;

/// Where a packet goes.
#[derive(Clone, Copy, Debug, PartialEq, Eq, Structural)]
pub enum Route {
    /// To output stream 0.
    Video,
    /// To output stream 1.
    Audio,
    /// Nowhere: counted as unknown.
    Drop,
}

/// The output stream of source stream `i`: 1 for the audio stream, 0 for the
/// video stream, none for any other.
pub open spec fn output_index(i: int, video_index: usize, audio_index: Option<usize>) -> usize {
    if audio_index == Some(i as usize) {
        1
    } else if i == video_index {
        0
    } else {
        DROP_STREAM
    }
}

/// Where a packet of source stream `i` goes under `mapping`.
pub open spec fn route_spec(mapping: Seq<usize>, has_audio: bool, i: int) -> Route {
    let out = if 0 <= i < mapping.len() {
        mapping[i]
    } else {
        DROP_STREAM
    };
    if out == 0 {
        Route::Video
    } else if out == 1 && has_audio {
        Route::Audio
    } else {
        Route::Drop
    }
}

/// A packet counter one higher, wrapping at the top as an atomic add does.
pub open spec fn count_up(c: u64) -> u64 {
    if c == u64::MAX {
        0
    } else {
        (c + 1) as u64
    }
}

fn counted(c: u64) -> (r: u64)
    ensures
        r == count_up(c),
{
    if c == u64::MAX {
        0
    } else {
        c + 1
    }
}

/// The routing of a source's streams and the packet counts of a run.
pub struct Pipeline {
    audio_index: Option<usize>,
    index_mapping: Vec<usize>,
    roll_seconds: u32,
    video_packets: u64,
    audio_packets: u64,
    unknown_packets: u64,
}

impl Pipeline {
    /// The output index of each source stream.
    pub closed spec fn mapping_spec(&self) -> Seq<usize> {
        self.index_mapping@
    }

    pub closed spec fn has_audio_spec(&self) -> bool {
        self.audio_index is Some
    }

    pub closed spec fn roll_seconds_spec(&self) -> u32 {
        self.roll_seconds
    }

    /// Packets sent to video, to audio, and dropped, so far.
    pub closed spec fn counts_spec(&self) -> (u64, u64, u64) {
        (self.video_packets, self.audio_packets, self.unknown_packets)
    }

    /// The routing for a source of `stream_count` streams whose best video
    /// stream is `video_index` and whose best audio stream, if any, is
    /// `audio_index`. Segments last ten seconds.
    pub fn from(stream_count: usize, video_index: usize, audio_index: Option<usize>) -> (r: Pipeline)
        requires
            video_index < stream_count,
            audio_index matches Some(a) ==> a < stream_count,
        ensures
            r.mapping_spec().len() == stream_count,
            forall|i: int|
                0 <= i < stream_count ==> #[trigger] r.mapping_spec()[i] == output_index(
                    i,
                    video_index,
                    audio_index,
                ),
            r.has_audio_spec() == audio_index is Some,
            r.roll_seconds_spec() == DEFAULT_ROLL_SECONDS,
            r.counts_spec() == (0u64, 0u64, 0u64),
    {
        let mut index_mapping: Vec<usize> = Vec::new();
        let mut i: usize = 0;
        while i < stream_count
            invariant
                i <= stream_count,
                index_mapping@.len() == i,
                forall|j: int|
                    0 <= j < i ==> #[trigger] index_mapping@[j] == output_index(j, video_index, audio_index),
            decreases stream_count - i,
        {
            let out = match audio_index {
                Some(a) if a == i => 1,
                _ => if i == video_index {
                    0
                } else {
                    DROP_STREAM
                },
            };
            index_mapping.push(out);
            i = i + 1;
        }
        Pipeline {
            audio_index,
            index_mapping,
            roll_seconds: DEFAULT_ROLL_SECONDS,
            video_packets: 0,
            audio_packets: 0,
            unknown_packets: 0,
        }
    }

    /// The same routing with segments of `new_roll_seconds` seconds.
    pub fn with_roll_seconds(self, new_roll_seconds: u32) -> (r: Pipeline)
        ensures
            r.mapping_spec() == self.mapping_spec(),
            r.has_audio_spec() == self.has_audio_spec(),
            r.counts_spec() == self.counts_spec(),
            r.roll_seconds_spec() == new_roll_seconds,
    {
        let mut p = self;
        p.roll_seconds = new_roll_seconds;
        p
    }

    /// How long a segment lasts, in seconds.
    pub fn roll_seconds(&self) -> (r: u32)
        ensures
            r == self.roll_seconds_spec(),
    {
        self.roll_seconds
    }

    /// Routes a packet of source stream `stream_index` and counts it. A stream
    /// the mapping does not know is dropped.
    pub fn route(&mut self, stream_index: usize) -> (r: Route)
        ensures
            r == route_spec(old(self).mapping_spec(), old(self).has_audio_spec(), stream_index as int),
            final(self).mapping_spec() == old(self).mapping_spec(),
            final(self).has_audio_spec() == old(self).has_audio_spec(),
            final(self).roll_seconds_spec() == old(self).roll_seconds_spec(),
            final(self).counts_spec() == match r {
                Route::Video => (
                    count_up(old(self).counts_spec().0),
                    old(self).counts_spec().1,
                    old(self).counts_spec().2,
                ),
                Route::Audio => (
                    old(self).counts_spec().0,
                    count_up(old(self).counts_spec().1),
                    old(self).counts_spec().2,
                ),
                Route::Drop => (
                    old(self).counts_spec().0,
                    old(self).counts_spec().1,
                    count_up(old(self).counts_spec().2),
                ),
            },
    {
        let out = if stream_index < self.index_mapping.len() {
            self.index_mapping[stream_index]
        } else {
            DROP_STREAM
        };
        if out == 0 {
            self.video_packets = counted(self.video_packets);
            Route::Video
        } else if out == 1 && self.audio_index.is_some() {
            self.audio_packets = counted(self.audio_packets);
            Route::Audio
        } else {
            self.unknown_packets = counted(self.unknown_packets);
            Route::Drop
        }
    }

    /// Packets sent to the video stream so far.
    pub fn video_packets(&self) -> (r: u64)
        ensures
            r == self.counts_spec().0,
    {
        self.video_packets
    }

    /// Packets sent to the audio stream so far.
    pub fn audio_packets(&self) -> (r: u64)
        ensures
            r == self.counts_spec().1,
    {
        self.audio_packets
    }

    /// Packets dropped so far.
    pub fn unknown_packets(&self) -> (r: u64)
        ensures
            r == self.counts_spec().2,
    {
        self.unknown_packets
    }

    /// The line that reports the counts at the end of a run.
    pub fn statistics(&self) -> (r: String)
        ensures
            r@ == "Processing Statistics: video="@ + decimal(self.counts_spec().0 as nat) + " audio="@
                + decimal(self.counts_spec().1 as nat) + " other="@ + decimal(
                self.counts_spec().2 as nat,
            ),
    {
        let mut s = String::new();
        s.append("Processing Statistics: video=");
        push_decimal(&mut s, self.video_packets);
        s.append(" audio=");
        push_decimal(&mut s, self.audio_packets);
        s.append(" other=");
        push_decimal(&mut s, self.unknown_packets);
        s
    }
}

/// With the best video stream at `video_index` and the best audio stream at a
/// different `audio_index`, video packets go to output stream 0, audio
/// packets to output stream 1, and packets of any other stream are dropped.
pub proof fn lemma_stream_routing(stream_count: usize, video_index: usize, audio_index: usize, i: int)
    requires
        video_index < stream_count,
        audio_index < stream_count,
        video_index != audio_index,
    ensures
        ({
            let mapping = Seq::new(
                stream_count as nat,
                |j: int| output_index(j, video_index, Some(audio_index)),
            );
            &&& route_spec(mapping, true, video_index as int) == Route::Video
            &&& route_spec(mapping, true, audio_index as int) == Route::Audio
            &&& (i != video_index && i != audio_index) ==> route_spec(mapping, true, i) == Route::Drop
        }),
{
}

/// The VOD playlist of the segments that started within `time_range`, in
/// index order.
pub fn build_on_demand(db: &Database, time_range: OnDemandTimeRange) -> (r: Playlist)
    ensures
        r.kind == PlaylistKind::VOD,
        r.files_view() == select_files(db.rows_view(), time_range.start as int, time_range.end as int),
{
    let files = db.query_files(Some(time_range.start), Some(time_range.end));
    Playlist { kind: PlaylistKind::VOD, files }
}

/// The text of the VOD playlist between two timestamp texts, or `None` when
/// either does not parse.
pub fn vod_playlist(db: &Database, start_time: &str, end_time: &str) -> (r: Option<String>)
    ensures
        r is Some <==> (utc_millis_of(start_time@) is Some && utc_millis_of(end_time@) is Some),
        r matches Some(text) ==> text@ == playlist_text(
            PlaylistKind::VOD,
            select_files(
                db.rows_view(),
                utc_millis_of(start_time@)->Some_0 as int,
                utc_millis_of(end_time@)->Some_0 as int,
            ),
        ),
{
    match OnDemandTimeRange::parse(start_time, end_time) {
        Some(range) => {
            let playlist = build_on_demand(db, range);
            Some(playlist.render())
        },
        None => None,
    }
}

} // verus!
