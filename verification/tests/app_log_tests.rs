use driftlet::app_log::{
    accepts_record, buffered_level, clear, entries, push, LogBuffer, LogLevel, RecordLevel, MAX_ENTRIES,
    MAX_MESSAGE_CHARS,
};

#[test]
fn ring_buffer_evicts_oldest_and_truncates() {
    let mut buf = LogBuffer::new();
    clear(&mut buf);

    for i in 0..(MAX_ENTRIES + 10) {
        push(&mut buf, LogLevel::Info, "backend".to_string(), format!("msg-{}", i), i as u64);
    }
    let list = entries(&buf);
    assert_eq!(list.len(), MAX_ENTRIES);
    assert_eq!(list.first().unwrap().message, "msg-10");
    assert_eq!(list.last().unwrap().message, format!("msg-{}", MAX_ENTRIES + 9));
    assert!(list.windows(2).all(|w| w[0].seq < w[1].seq));

    clear(&mut buf);
    assert!(entries(&buf).is_empty());

    let long = "x".repeat(MAX_MESSAGE_CHARS + 500);
    push(&mut buf, LogLevel::Warn, "backend".to_string(), long, 0);
    assert_eq!(entries(&buf).last().unwrap().message.chars().count(), MAX_MESSAGE_CHARS);

    assert_eq!(LogLevel::from_level_str(Some("warn")), LogLevel::Warn);
    assert_eq!(LogLevel::from_level_str(Some("error")), LogLevel::Error);
    assert_eq!(LogLevel::from_level_str(Some("info")), LogLevel::Info);
    assert_eq!(LogLevel::from_level_str(Some("debug")), LogLevel::Info);
    assert_eq!(LogLevel::from_level_str(None), LogLevel::Info);

    clear(&mut buf);
}

#[test]
fn sequence_numbers_continue_after_clear() {
    let mut buf = LogBuffer::new();
    push(&mut buf, LogLevel::Info, "backend".to_string(), "a".to_string(), 5);
    let first = entries(&buf)[0].seq;
    clear(&mut buf);
    push(&mut buf, LogLevel::Error, "skin:clock".to_string(), "b".to_string(), 6);
    let e = entries(&buf);
    assert_eq!(e.len(), 1);
    assert!(e[0].seq > first);
    assert_eq!(e[0].source, "skin:clock");
    assert_eq!(e[0].ts_ms, 6);
}

#[test]
fn only_app_records_at_info_or_above_are_taken() {
    assert!(accepts_record(RecordLevel::Info, "driftlet::hotreload"));
    assert!(!accepts_record(RecordLevel::Debug, "driftlet::hotreload"));
    assert!(!accepts_record(RecordLevel::Warn, "tao::window"));
    assert_eq!(buffered_level(RecordLevel::Warn), Some(LogLevel::Warn));
    assert_eq!(buffered_level(RecordLevel::Error), Some(LogLevel::Error));
    assert_eq!(buffered_level(RecordLevel::Info), None);
}

#[test]
fn numbering_counts_pushes() {
    let mut buf = LogBuffer::new();
    assert_eq!(buf.upcoming_seq(), 0);
    push(&mut buf, LogLevel::Warn, "backend".to_string(), "a".to_string(), 1);
    push(&mut buf, LogLevel::Warn, "backend".to_string(), "b".to_string(), 2);
    assert_eq!(buf.upcoming_seq(), 2);
    let e = entries(&buf);
    assert_eq!((e[0].seq, e[1].seq), (0, 1));
    clear(&mut buf);
    assert_eq!(buf.upcoming_seq(), 2);
}
