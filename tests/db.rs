use std::ops::Add;
use std::str::FromStr;

use chrono::{DateTime, TimeDelta, Utc};

use camerars::db::{Database, EARLIEST_MS, LATEST_MS};
use camerars::playlist::PlaylistFile;

fn file(name: &'static str) -> PlaylistFile {
    PlaylistFile {
        id: name.to_string(),
        duration_ms: 15160,
    }
}

#[test]
pub fn test_init() {
    let db = Database::memory();
    assert_eq!(db.len(), 0);
    assert_eq!(db.query_files(None, None), vec![]);
}

#[test]
pub fn test_rw() {
    let mut db = Database::memory();

    let t1 = DateTime::<Utc>::from_str("2000-01-01 00:00:00Z").unwrap();
    let t2 = t1.add(TimeDelta::seconds(30));
    let t3 = t1.add(TimeDelta::seconds(60));

    db.append_file(t1.timestamp_millis(), file("0001.ts"));
    db.append_file(t2.timestamp_millis(), file("0002.ts"));
    db.append_file(t3.timestamp_millis(), file("0003.ts"));

    let t1 = t1.timestamp_millis();
    let t2 = t2.timestamp_millis();

    assert_eq!(db.query_files(Some(t1), Some(t1)), vec![file("0001.ts")]);

    assert_eq!(
        db.query_files(Some(t2), None),
        vec![file("0002.ts"), file("0003.ts")]
    );

    assert_eq!(
        db.query_files(None, None,),
        vec![file("0001.ts"), file("0002.ts"), file("0003.ts")]
    );
}

#[test]
fn query_range_is_inclusive_at_both_ends() {
    let mut db = Database::memory();
    db.append_file(1000, file("a.ts"));
    db.append_file(2000, file("b.ts"));
    db.append_file(3000, file("c.ts"));
    assert_eq!(
        db.query_files(Some(1000), Some(2000)),
        vec![file("a.ts"), file("b.ts")]
    );
    assert_eq!(db.query_files(Some(1001), Some(1999)), vec![]);
    assert_eq!(db.query_files(None, Some(1000)), vec![file("a.ts")]);
    assert_eq!(db.query_files(Some(3000), Some(1000)), vec![]);
}

#[test]
fn query_keeps_insertion_order() {
    let mut db = Database::memory();
    db.append_file(5000, file("late.ts"));
    db.append_file(1000, file("early.ts"));
    assert_eq!(
        db.query_files(None, None),
        vec![file("late.ts"), file("early.ts")]
    );
}

#[test]
fn unbounded_query_stops_at_the_sentinels() {
    let mut db = Database::memory();
    db.append_file(EARLIEST_MS, file("first.ts"));
    db.append_file(LATEST_MS, file("last.ts"));
    db.append_file(EARLIEST_MS - 1, file("before.ts"));
    db.append_file(LATEST_MS + 1, file("after.ts"));
    assert_eq!(
        db.query_files(None, None),
        vec![file("first.ts"), file("last.ts")]
    );
    let year_one = DateTime::<Utc>::from_str("0001-01-01T00:00:00Z").unwrap();
    assert_eq!(year_one.timestamp_millis(), EARLIEST_MS);
    let year_9999 = DateTime::<Utc>::from_str("9999-12-31T23:59:59.999Z").unwrap();
    assert_eq!(year_9999.timestamp_millis(), LATEST_MS);
}
