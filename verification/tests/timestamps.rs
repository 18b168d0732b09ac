use safe_helpers::timestamp::{
    gen_timestamp_nanos, gen_timestamp_secs, timestamp_text, SecondsFormat, UnixTime,
};

#[test]
fn given_time_is_written_to_the_second() {
    let time = UnixTime { secs: 1_516_991_409, nanos: 453_829_000 };
    assert_eq!(timestamp_text(time, SecondsFormat::Secs), Some("2018-01-26T18:30:09Z".to_string()));
}

#[test]
fn given_time_is_written_to_the_nanosecond() {
    let time = UnixTime { secs: 1_516_991_409, nanos: 453_829_000 };
    assert_eq!(
        timestamp_text(time, SecondsFormat::Nanos),
        Some("2018-01-26T18:30:09.453829000Z".to_string())
    );
}

#[test]
fn epoch_is_written() {
    let time = UnixTime { secs: 0, nanos: 0 };
    assert_eq!(timestamp_text(time, SecondsFormat::Secs), Some("1970-01-01T00:00:00Z".to_string()));
    assert_eq!(
        timestamp_text(time, SecondsFormat::Nanos),
        Some("1970-01-01T00:00:00.000000000Z".to_string())
    );
}

#[test]
fn time_outside_the_calendar_is_not_written() {
    let time = UnixTime { secs: i64::MAX, nanos: 0 };
    assert_eq!(timestamp_text(time, SecondsFormat::Secs), None);
    let time = UnixTime { secs: 0, nanos: 2_000_000_000 };
    assert_eq!(timestamp_text(time, SecondsFormat::Nanos), None);
}

#[test]
fn current_time_to_the_second() {
    let text = gen_timestamp_secs();
    assert_eq!(text.len(), 20);
    assert!(text.ends_with('Z'));
    assert_eq!(&text[4..5], "-");
    assert_eq!(&text[10..11], "T");
    assert!(!text.contains('.'));
}

#[test]
fn current_time_to_the_nanosecond() {
    let text = gen_timestamp_nanos();
    assert_eq!(text.len(), 30);
    assert!(text.ends_with('Z'));
    assert_eq!(&text[19..20], ".");
    assert!(text[20..29].chars().all(|c| c.is_ascii_digit()));
}
