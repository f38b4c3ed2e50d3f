use camerars::chunk::{parse_segment_id, segment_name, FileChunkWriterFactory};
use camerars::decimal::parse_u64;

#[test]
fn segment_names_are_nine_digits_and_ts() {
    assert_eq!(segment_name(1), "000000001.ts");
    assert_eq!(segment_name(0), "000000000.ts");
    assert_eq!(segment_name(43), "000000043.ts");
    assert_eq!(segment_name(999_999_999), "999999999.ts");
    assert_eq!(segment_name(1_234_567_890), "1234567890.ts");
    assert_eq!(segment_name(u64::MAX), "18446744073709551615.ts");
}

#[test]
fn segment_ids_parse_back() {
    assert_eq!(parse_segment_id("000000042.ts"), Some(42));
    assert_eq!(parse_segment_id("7.ts"), Some(7));
    assert_eq!(parse_segment_id("+5.ts"), Some(5));
    assert_eq!(parse_segment_id("18446744073709551615.ts"), Some(u64::MAX));
    assert_eq!(parse_segment_id("18446744073709551616.ts"), None);
    assert_eq!(parse_segment_id(".ts"), None);
    assert_eq!(parse_segment_id("ts"), None);
    assert_eq!(parse_segment_id("12.mp4"), None);
    assert_eq!(parse_segment_id("1a.ts"), None);
    assert_eq!(parse_segment_id("-1.ts"), None);
    assert_eq!(parse_segment_id("+.ts"), None);
    for id in [0u64, 1, 42, 999_999_999, 1_000_000_000, u64::MAX] {
        assert_eq!(parse_segment_id(&segment_name(id)), Some(id));
    }
}

#[test]
fn parse_u64_matches_std() {
    for text in ["0", "00", "+0", "123", "+123", "", "+", "-0", " 1", "1 ", "18446744073709551615", "18446744073709551616", "99999999999999999999"] {
        assert_eq!(parse_u64(text), text.parse::<u64>().ok(), "{text:?}");
    }
}

#[test]
fn restart_continues_after_existing_segments() {
    let mut names: Vec<String> = (1..=42).map(segment_name).collect();
    names.push("notes.txt".to_string());
    names.push("broken.ts".to_string());
    let mut factory = FileChunkWriterFactory::new("recordings");
    factory.init(&names);
    assert_eq!(factory.seq_num(), 42);
    assert_eq!(factory.next(), "recordings/000000043.ts");
}

#[test]
fn fresh_directory_starts_at_one() {
    let mut factory = FileChunkWriterFactory::new("recordings/");
    factory.init(&vec!["readme.md".to_string()]);
    assert_eq!(factory.seq_num(), 0);
    assert_eq!(factory.next(), "recordings/000000001.ts");
    let mut bare = FileChunkWriterFactory::new("");
    assert_eq!(bare.next(), "000000001.ts");
    assert_eq!(bare.directory(), "");
}

#[test]
fn ids_increase_and_names_sort_in_id_order() {
    let mut factory = FileChunkWriterFactory::new("out");
    factory.init(&vec![segment_name(7), segment_name(3)]);
    let mut paths = Vec::new();
    let mut ids = Vec::new();
    for _ in 0..12 {
        paths.push(factory.next());
        ids.push(factory.seq_num());
    }
    assert_eq!(ids, (8..20).collect::<Vec<u64>>());
    let mut sorted = paths.clone();
    sorted.sort();
    assert_eq!(sorted, paths);
}
