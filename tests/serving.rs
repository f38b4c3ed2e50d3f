use std::cell::Cell;

use camerars::db::Database;
use camerars::execution::{build_on_demand, vod_playlist};
use camerars::playlist::{OnDemandTimeRange, Playlist, PlaylistFile, PlaylistKind};
use camerars::upload::{backoff_ms, UploadRetry, UploadStatus, UploadStep};

fn file(id: &str, duration_ms: u64) -> PlaylistFile {
    PlaylistFile {
        duration_ms,
        id: id.to_string(),
    }
}

#[test]
fn vod_playlist_text_is_exact() {
    let playlist = Playlist {
        kind: PlaylistKind::VOD,
        files: vec![file("A.ts", 15160), file("B.ts", 15160)],
    };
    assert_eq!(
        playlist.render(),
        "#EXTM3U\r\n#EXT-X-PLAYLIST-TYPE:VOD\r\n#EXT-X-TARGETDURATION:15\r\n#EXT-X-VERSION:4\r\n#EXT-X-MEDIA-SEQUENCE:1\r\n\r\n#EXTINF:15.16\r\nfiles/A.ts\r\n#EXTINF:15.16\r\nfiles/B.ts\r\n#EXT-X-ENDLIST\r\n"
    );
}

#[test]
fn live_playlist_has_no_type_and_no_end() {
    let playlist = Playlist {
        kind: PlaylistKind::LIVE,
        files: vec![file("x.ts", 10000)],
    };
    assert_eq!(
        playlist.render(),
        "#EXTM3U\r\n#EXT-X-TARGETDURATION:15\r\n#EXT-X-VERSION:4\r\n#EXT-X-MEDIA-SEQUENCE:1\r\n\r\n#EXTINF:10\r\nfiles/x.ts\r\n"
    );
}

#[test]
fn durations_print_in_shortest_seconds() {
    for (ms, text) in [
        (0u64, "0"),
        (500, "0.5"),
        (50, "0.05"),
        (5, "0.005"),
        (10000, "10"),
        (15160, "15.16"),
        (12345, "12.345"),
        (100100, "100.1"),
    ] {
        let playlist = Playlist {
            kind: PlaylistKind::LIVE,
            files: vec![file("s.ts", ms)],
        };
        let body = playlist.render();
        let expected = format!("#EXTINF:{text}\r\n");
        assert!(body.contains(&expected), "{ms}: {body:?}");
        assert_eq!(format!("{}", ms as f64 / 1000.0), text);
    }
}

#[test]
fn empty_vod_playlist() {
    let db = Database::memory();
    let playlist = build_on_demand(&db, OnDemandTimeRange::new(0, 10));
    assert_eq!(playlist.kind, PlaylistKind::VOD);
    assert!(playlist.files.is_empty());
    assert_eq!(
        playlist.render(),
        "#EXTM3U\r\n#EXT-X-PLAYLIST-TYPE:VOD\r\n#EXT-X-TARGETDURATION:15\r\n#EXT-X-VERSION:4\r\n#EXT-X-MEDIA-SEQUENCE:1\r\n\r\n#EXT-X-ENDLIST\r\n"
    );
}

#[test]
fn time_ranges_parse_rfc3339() {
    let range = OnDemandTimeRange::parse("2000-01-01T00:00:00Z", "2000-01-01 00:01:00.5+01:00").unwrap();
    assert_eq!(range.start, 946_684_800_000);
    assert_eq!(range.end, 946_684_800_000 + 60_500 - 3_600_000);
    assert_eq!(OnDemandTimeRange::parse("yesterday", "2000-01-01T00:00:00Z"), None);
    assert_eq!(OnDemandTimeRange::parse("2000-01-01T00:00:00Z", ""), None);
}

#[test]
fn vod_playlist_lists_the_range() {
    let mut db = Database::memory();
    let t1 = 946_684_800_000;
    db.append_file(t1, file("0001.ts", 15160));
    db.append_file(t1 + 30_000, file("0002.ts", 15160));
    db.append_file(t1 + 60_000, file("0003.ts", 15160));
    let text = vod_playlist(&db, "2000-01-01T00:00:30Z", "2000-01-01T00:01:00Z").unwrap();
    assert_eq!(
        text,
        "#EXTM3U\r\n#EXT-X-PLAYLIST-TYPE:VOD\r\n#EXT-X-TARGETDURATION:15\r\n#EXT-X-VERSION:4\r\n#EXT-X-MEDIA-SEQUENCE:1\r\n\r\n#EXTINF:15.16\r\nfiles/0002.ts\r\n#EXTINF:15.16\r\nfiles/0003.ts\r\n#EXT-X-ENDLIST\r\n"
    );
    assert_eq!(vod_playlist(&db, "not a time", "2000-01-01T00:01:00Z"), None);
}

/// An object store that fails a set number of times, then accepts.
struct FlakyStore {
    failures_left: Cell<u32>,
    delivered: Cell<u32>,
}

impl FlakyStore {
    fn new(failures: u32) -> Self {
        FlakyStore {
            failures_left: Cell::new(failures),
            delivered: Cell::new(0),
        }
    }

    fn put(&self, _payload: &[u8]) -> bool {
        if self.failures_left.get() > 0 {
            self.failures_left.set(self.failures_left.get() - 1);
            false
        } else {
            self.delivered.set(self.delivered.get() + 1);
            true
        }
    }
}

fn upload(store: &FlakyStore) -> (UploadStep, Vec<u64>, UploadRetry) {
    let mut retry = UploadRetry::new();
    let mut waits = Vec::new();
    loop {
        match retry.record(store.put(b"segment")) {
            UploadStep::RetryAfter { delay_ms } => waits.push(delay_ms),
            done => return (done, waits, retry),
        }
    }
}

#[test]
fn nine_failures_then_success_delivers_once() {
    let store = FlakyStore::new(9);
    let (step, waits, retry) = upload(&store);
    assert_eq!(step, UploadStep::Delivered);
    assert_eq!(store.delivered.get(), 1);
    assert_eq!(retry.attempts, 10);
    assert_eq!(retry.status, UploadStatus::Delivered);
    assert_eq!(
        waits,
        vec![1000, 2000, 4000, 8000, 16000, 30000, 30000, 30000, 30000]
    );
}

#[test]
fn ten_failures_drop_the_segment() {
    let store = FlakyStore::new(10);
    let (step, waits, retry) = upload(&store);
    assert_eq!(step, UploadStep::Dropped);
    assert_eq!(store.delivered.get(), 0);
    assert_eq!(retry.attempts, 10);
    assert_eq!(retry.status, UploadStatus::Dropped);
    assert_eq!(waits.len(), 9);
}

#[test]
fn first_success_stops_at_once() {
    let store = FlakyStore::new(0);
    let (step, waits, retry) = upload(&store);
    assert_eq!(step, UploadStep::Delivered);
    assert_eq!(store.delivered.get(), 1);
    assert_eq!(retry.attempts, 1);
    assert!(waits.is_empty());
}

#[test]
fn backoff_doubles_up_to_thirty_seconds() {
    assert_eq!(backoff_ms(0), 1000);
    assert_eq!(backoff_ms(1), 1000);
    assert_eq!(backoff_ms(2), 2000);
    assert_eq!(backoff_ms(5), 16000);
    assert_eq!(backoff_ms(6), 30000);
    assert_eq!(backoff_ms(u32::MAX), 30000);
}
