//! HLS playlists: the files they list and their exact text.

use vstd::prelude::*;

use crate::decimal::{decimal, padded_decimal, push_decimal, push_padded_decimal};

verus! {

/// Whether a playlist is complete (video on demand) or still growing.
#[derive(Clone, Copy, Debug, PartialEq, Eq, Structural)]
pub enum PlaylistKind {
    VOD,
    LIVE,
}

/// One segment as a playlist lists it: its file id and its duration in
/// milliseconds.
#[derive(Clone, Debug, PartialEq)]
pub struct PlaylistFile {
    pub duration_ms: u64,
    pub id: String,
}

/// A playlist: its kind and its segments in order.
#[derive(Clone, Debug, PartialEq)]
pub struct Playlist {
    pub kind: PlaylistKind,
    pub files: Vec<PlaylistFile>,
}

/// A closed range of wall-clock instants, in milliseconds since the Unix
/// epoch (UTC).
#[derive(Clone, Copy, Debug, PartialEq, Eq, Structural)]
pub struct OnDemandTimeRange {
    pub start: i64,
    pub end: i64,
}

/// What a playlist file stands for: its id and its duration.
pub open spec fn file_view(f: PlaylistFile) -> (Seq<char>, u64) {
    (f.id@, f.duration_ms)
}

/// The milliseconds of a second after the decimal point, without trailing
/// zeros (`frac` is below 1000 and not 0).
pub open spec fn fraction_text(frac: nat) -> Seq<char> {
    if frac % 100 == 0 {
        padded_decimal(frac / 100, 1)
    } else if frac % 10 == 0 {
        padded_decimal(frac / 10, 2)
    } else {
        padded_decimal(frac, 3)
    }
}

/// A duration in milliseconds written in seconds, in the shortest decimal
/// form: `15160` is `15.16`, `10000` is `10`, `500` is `0.5`.
pub open spec fn seconds_text(ms: nat) -> Seq<char> {
    if ms % 1000 == 0 {
        decimal(ms / 1000)
    } else {
        decimal(ms / 1000) + seq!['.'] + fraction_text(ms % 1000)
    }
}

/// The lines that open a playlist of `kind`, up to the blank line.
pub open spec fn header_text(kind: PlaylistKind) -> Seq<char> {
    "#EXTM3U\r\n"@ + (if kind == PlaylistKind::VOD {
        "#EXT-X-PLAYLIST-TYPE:VOD\r\n"@
    } else {
        Seq::empty()
    }) + "#EXT-X-TARGETDURATION:15\r\n"@ + "#EXT-X-VERSION:4\r\n"@ + "#EXT-X-MEDIA-SEQUENCE:1\r\n"@
        + "\r\n"@
}

/// The two lines that list one segment.
pub open spec fn entry_text(id: Seq<char>, duration_ms: nat) -> Seq<char> {
    "#EXTINF:"@ + seconds_text(duration_ms) + "\r\n"@ + "files/"@ + id + "\r\n"@
}

/// The lines that list `files`, in order.
pub open spec fn entries_text(files: Seq<(Seq<char>, u64)>) -> Seq<char>
    decreases files.len(),
{
    if files.len() == 0 {
        Seq::empty()
    } else {
        entries_text(files.drop_last()) + entry_text(files.last().0, files.last().1 as nat)
    }
}

/// The whole text of a playlist of `kind` listing `files`.
pub open spec fn playlist_text(kind: PlaylistKind, files: Seq<(Seq<char>, u64)>) -> Seq<char> {
    header_text(kind) + entries_text(files) + (if kind == PlaylistKind::VOD {
        "#EXT-X-ENDLIST\r\n"@
    } else {
        Seq::empty()
    })
}

/// Appends a duration in milliseconds, written in seconds.
pub fn push_seconds(s: &mut String, ms: u64)
    ensures
        final(s)@ == old(s)@ + seconds_text(ms as nat),
{
    push_decimal(s, ms / 1000);
    let frac = ms % 1000;
    if frac != 0 {
        proof {
            reveal_strlit(".");
        }
        s.append(".");
        if frac % 100 == 0 {
            push_padded_decimal(s, frac / 100, 1);
        } else if frac % 10 == 0 {
            push_padded_decimal(s, frac / 10, 2);
        } else {
            push_padded_decimal(s, frac, 3);
        }
    }
    assert(s@ =~= old(s)@ + seconds_text(ms as nat));
}

impl Playlist {
    /// The files this playlist lists, as ids and durations.
    pub open spec fn files_view(&self) -> Seq<(Seq<char>, u64)> {
        self.files@.map_values(|f: PlaylistFile| file_view(f))
    }

    /// The playlist's text, CRLF line endings throughout. A VOD playlist
    /// declares its type and ends with `#EXT-X-ENDLIST`.
    pub fn render(&self) -> (r: String)
        ensures
            r@ == playlist_text(self.kind, self.files_view()),
    {
        let mut body = String::new();
        body.append("#EXTM3U\r\n");
        if self.kind == PlaylistKind::VOD {
            body.append("#EXT-X-PLAYLIST-TYPE:VOD\r\n");
        }
        body.append("#EXT-X-TARGETDURATION:15\r\n");
        body.append("#EXT-X-VERSION:4\r\n");
        body.append("#EXT-X-MEDIA-SEQUENCE:1\r\n");
        body.append("\r\n");
        assert(body@ =~= header_text(self.kind));
        let ghost files = self.files_view();
        let mut i: usize = 0;
        while i < self.files.len()
            invariant
                i <= self.files@.len(),
                files == self.files_view(),
                body@ == header_text(self.kind) + entries_text(files.subrange(0, i as int)),
            decreases self.files@.len() - i,
        {
            let file = &self.files[i];
            let ghost before = body@;
            body.append("#EXTINF:");
            push_seconds(&mut body, file.duration_ms);
            body.append("\r\n");
            body.append("files/");
            body.append(file.id.as_str());
            body.append("\r\n");
            proof {
                let prefix = files.subrange(0, i + 1);
                assert(prefix.drop_last() =~= files.subrange(0, i as int));
                assert(prefix.last() == file_view(*file));
                assert(body@ =~= before + entry_text(file.id@, file.duration_ms as nat));
            }
            i = i + 1;
        }
        assert(files.subrange(0, self.files@.len() as int) =~= files);
        if self.kind == PlaylistKind::VOD {
            body.append("#EXT-X-ENDLIST\r\n");
        }
        assert(body@ =~= playlist_text(self.kind, files));
        body
    }
}

/// The instant a timestamp text names, in milliseconds since the Unix epoch,
/// as chrono reads it.
pub uninterp spec fn utc_millis_of(text: Seq<char>) -> Option<i64>;

/// Relies on chrono's `FromStr` for `DateTime<Utc>` (RFC 3339, with a space
/// or `T` between date and time) and on `DateTime::timestamp_millis`: the
/// result depends on the text alone.
#[verifier::external_body]
fn parse_utc_millis(text: &str) -> (r: Option<i64>)
    ensures
        r == utc_millis_of(text@),
{
    text.parse::<chrono::DateTime<chrono::Utc>>().ok().map(|t| t.timestamp_millis())
}

impl OnDemandTimeRange {
    pub fn new(start: i64, end: i64) -> (r: OnDemandTimeRange)
        ensures
            r.start == start,
            r.end == end,
    {
        OnDemandTimeRange { start, end }
    }

    /// The range between two timestamp texts, or `None` when either does not
    /// parse.
    pub fn parse(start: &str, end: &str) -> (r: Option<OnDemandTimeRange>)
        ensures
            r is Some <==> (utc_millis_of(start@) is Some && utc_millis_of(end@) is Some),
            r matches Some(range) ==> Some(range.start) == utc_millis_of(start@) && Some(range.end)
                == utc_millis_of(end@),
    {
        match (parse_utc_millis(start), parse_utc_millis(end)) {
            (Some(s), Some(e)) => Some(OnDemandTimeRange { start: s, end: e }),
            _ => None,
        }
    }
}

} // verus!
