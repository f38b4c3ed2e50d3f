use camerars::chunk::{segment_name, FileChunkWriterFactory};
use camerars::db::Database;
use camerars::execution::{Pipeline, Route};
use camerars::playlist::PlaylistFile;
use camerars::roller::{RollerPhase, TimeBasedRollingChunkWriter};
use camerars::timebase::{rescale_ts, should_roll, Rational};

const MPEG_TS: Rational = Rational { num: 1, den: 90000 };

#[test]
fn rescales_milliseconds_to_mpeg_ts_ticks() {
    let ms = Rational::new(1, 1000);
    assert_eq!(rescale_ts(Some(5000), ms, MPEG_TS), Some(450000));
    assert_eq!(rescale_ts(Some(450000), MPEG_TS, ms), Some(5000));
    assert_eq!(rescale_ts(None, ms, MPEG_TS), None);
}

#[test]
fn rescale_rounds_halves_away_from_zero() {
    let half = Rational::new(1, 2);
    let one = Rational::new(1, 1);
    assert_eq!(rescale_ts(Some(1), half, one), Some(1));
    assert_eq!(rescale_ts(Some(-1), half, one), Some(-1));
    assert_eq!(rescale_ts(Some(3), half, one), Some(2));
    assert_eq!(rescale_ts(Some(-3), half, one), Some(-2));
    let third = Rational::new(1, 3);
    assert_eq!(rescale_ts(Some(1), third, half), Some(1));
    assert_eq!(rescale_ts(Some(4), third, one), Some(1));
}

#[test]
fn rescale_rejects_unusable_time_bases_and_overflow() {
    let one = Rational::new(1, 1);
    assert_eq!(rescale_ts(Some(7), Rational::new(1, 0), one), None);
    assert_eq!(rescale_ts(Some(7), one, Rational::new(0, 1)), None);
    assert_eq!(rescale_ts(Some(7), Rational::new(-1, 1), one), None);
    assert_eq!(rescale_ts(Some(i64::MAX), one, Rational::new(1, 2)), None);
    assert_eq!(rescale_ts(Some(i64::MIN), one, one), Some(i64::MIN));
}

#[test]
fn roll_test_uses_at_least() {
    assert!(!should_roll(0, 899_999, MPEG_TS, 10));
    assert!(should_roll(0, 900_000, MPEG_TS, 10));
    assert!(should_roll(100, 900_100, MPEG_TS, 10));
    assert!(!should_roll(0, i64::MAX, Rational::new(1, 0), 10));
    assert!(should_roll(0, -900_000, Rational::new(1, -90000), 10));
    assert!(should_roll(i64::MIN, i64::MAX, Rational::new(1, 1), u32::MAX));
    assert!(should_roll(5, 5, MPEG_TS, 0));
}

fn begun_roller(seconds: u32) -> TimeBasedRollingChunkWriter {
    let mut roller = TimeBasedRollingChunkWriter::new(FileChunkWriterFactory::new("rec"), seconds);
    assert_eq!(roller.phase(), RollerPhase::Idle);
    assert_eq!(roller.begin(1_000), "rec/000000001.ts");
    assert_eq!(roller.phase(), RollerPhase::Begun);
    roller
}

#[test]
fn first_segment_holds_three_hundred_frames_at_thirty_fps() {
    let mut roller = begun_roller(10);
    let mut in_first = 0;
    let mut finished = None;
    let mut pts: i64 = 0;
    while finished.is_none() {
        finished = roller.write_video(pts, MPEG_TS, 2_000);
        if finished.is_none() {
            in_first += 1;
            pts += 3000;
        }
    }
    assert_eq!(in_first, 300);
    assert_eq!(pts, 900_000);
    let segment = finished.unwrap();
    assert_eq!(segment.path, "rec/000000001.ts");
    assert_eq!(segment.name, "000000001.ts");
    assert_eq!(segment.start_ms, 1_000);
    assert_eq!(segment.duration_ms, 10_000);
    assert_eq!(roller.active_path(), "rec/000000002.ts");
    assert_eq!(roller.current_chunk_id(), 2);
    // The packet that cut the first segment opened the second one.
    let mut in_second = 1;
    loop {
        pts += 3000;
        if roller.write_video(pts, MPEG_TS, 3_000).is_some() {
            break;
        }
        in_second += 1;
    }
    assert_eq!(in_second, 300);
    assert_eq!(pts, 1_800_000);
    assert_eq!(roller.end(), "rec/000000003.ts");
    assert_eq!(roller.phase(), RollerPhase::Ended);
}

#[test]
fn duration_is_measured_to_the_millisecond() {
    let mut roller = begun_roller(2);
    let ms = Rational::new(1, 1000);
    assert!(roller.write_video(10_000, ms, 0).is_none());
    assert!(roller.write_video(11_999, ms, 0).is_none());
    let segment = roller.write_video(12_345, ms, 0).unwrap();
    assert_eq!(segment.duration_ms, 2_345);
}

#[test]
fn ids_are_exhausted_gracefully() {
    let mut factory = FileChunkWriterFactory::new("rec");
    factory.init(&vec![segment_name(u64::MAX - 1)]);
    let mut roller = TimeBasedRollingChunkWriter::new(factory, 1);
    assert_eq!(roller.begin(0), "rec/18446744073709551615.ts");
    assert!(roller.write_video(0, MPEG_TS, 0).is_none());
    assert!(roller.write_video(900_000, MPEG_TS, 0).is_none());
    assert_eq!(roller.current_chunk_id(), u64::MAX);
}

#[test]
fn stream_routing_sends_video_to_zero_audio_to_one_and_drops_the_rest() {
    let mut pipeline = Pipeline::from(3, 2, Some(0));
    assert_eq!(pipeline.route(0), Route::Audio);
    assert_eq!(pipeline.route(2), Route::Video);
    assert_eq!(pipeline.route(1), Route::Drop);
    assert_eq!(pipeline.route(2), Route::Video);
    assert_eq!(pipeline.route(9), Route::Drop);
    assert_eq!(pipeline.video_packets(), 2);
    assert_eq!(pipeline.audio_packets(), 1);
    assert_eq!(pipeline.unknown_packets(), 2);
    assert_eq!(
        pipeline.statistics(),
        "Processing Statistics: video=2 audio=1 other=2"
    );
}

#[test]
fn without_audio_only_video_passes() {
    let mut pipeline = Pipeline::from(2, 1, None).with_roll_seconds(15);
    assert_eq!(pipeline.roll_seconds(), 15);
    assert_eq!(pipeline.route(0), Route::Drop);
    assert_eq!(pipeline.route(1), Route::Video);
    assert_eq!(Pipeline::from(1, 0, None).roll_seconds(), 10);
}

#[test]
fn indexed_segments_are_the_emitted_files() {
    let mut roller = begun_roller(1);
    let mut db = Database::memory();
    let mut emitted = Vec::new();
    for i in 0..40i64 {
        if let Some(segment) = roller.write_video(i * 22_500, MPEG_TS, 5_000 + i) {
            let base = segment.path.rsplit('/').next().unwrap().to_string();
            assert_eq!(base, segment.name);
            db.append_file(
                segment.start_ms,
                PlaylistFile {
                    duration_ms: segment.duration_ms,
                    id: segment.name.clone(),
                },
            );
            emitted.push(base);
        }
    }
    assert_eq!(emitted.len(), 9);
    let listed: Vec<String> = db.query_files(None, None).into_iter().map(|f| f.id).collect();
    assert_eq!(listed, emitted);
    let mut sorted = emitted.clone();
    sorted.sort();
    assert_eq!(sorted, emitted);
}
