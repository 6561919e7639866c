use std::collections::VecDeque;
use vmux_desktop::log_forward::{
    enqueue_drop_oldest, forward_threshold, is_forwarded, now_ms, LogLevel, LogRecord,
    MessageVisitor,
};

fn rec(n: u64) -> LogRecord {
    LogRecord {
        ts_ms: n,
        level: 3,
        target: "t".into(),
        message: format!("m{n}"),
    }
}

#[test]
fn enqueue_drops_oldest_at_capacity() {
    let mut buf = VecDeque::new();
    enqueue_drop_oldest(&mut buf, 2, rec(1));
    enqueue_drop_oldest(&mut buf, 2, rec(2));
    enqueue_drop_oldest(&mut buf, 2, rec(3));
    assert_eq!(buf.len(), 2);
    assert_eq!(buf.front().unwrap().ts_ms, 2);
    assert_eq!(buf.back().unwrap().ts_ms, 3);
}

#[test]
fn visitor_joins_message_and_extra_fields() {
    let v = MessageVisitor {
        message: "hello".into(),
        extra: " k=1".into(),
    };
    assert_eq!(v.into_message(), "hello k=1");
}

#[test]
fn visitor_message_only_when_no_extra() {
    let v = MessageVisitor {
        message: "just msg".into(),
        extra: String::new(),
    };
    assert_eq!(v.into_message(), "just msg");
}

#[test]
fn visitor_records_message_field_and_appends_others() {
    let mut v = MessageVisitor {
        message: String::new(),
        extra: String::new(),
    };
    v.record_field("message", "hello");
    v.record_field("k", "1");
    v.record_field("path", "\"/tmp\"");
    assert_eq!(v.into_message(), "hello k=1 path=\"/tmp\"");
}

#[test]
fn forward_threshold_defaults_to_info() {
    assert_eq!(forward_threshold(None), LogLevel::Info);
}

#[test]
fn forward_threshold_parses_levels_case_insensitively() {
    assert_eq!(forward_threshold(Some("  DEBUG ")), LogLevel::Debug);
    assert_eq!(forward_threshold(Some("warn")), LogLevel::Warn);
    assert_eq!(forward_threshold(Some("Error")), LogLevel::Error);
    assert_eq!(forward_threshold(Some("trace")), LogLevel::Trace);
    assert_eq!(forward_threshold(Some("info")), LogLevel::Info);
    assert_eq!(forward_threshold(Some("loud")), LogLevel::Info);
}

#[test]
fn now_ms_is_after_2020() {
    assert!(now_ms() > 1_577_836_800_000);
}

#[test]
fn events_forwarded_up_to_threshold_verbosity() {
    assert!(is_forwarded(LogLevel::Error, LogLevel::Info));
    assert!(is_forwarded(LogLevel::Info, LogLevel::Info));
    assert!(!is_forwarded(LogLevel::Debug, LogLevel::Info));
    assert!(is_forwarded(LogLevel::Trace, LogLevel::Trace));
    assert!(!is_forwarded(LogLevel::Warn, LogLevel::Error));
}

#[test]
fn record_timestamp_is_whole_milliseconds_cut_to_64_bits() {
    assert_eq!(vmux_desktop::log_forward::epoch_ms(Some(1_700_000_000_123)), 1_700_000_000_123);
    assert_eq!(vmux_desktop::log_forward::epoch_ms(Some((1u128 << 64) + 7)), 7);
    assert_eq!(vmux_desktop::log_forward::epoch_ms(None), 0);
    assert!(vmux_desktop::log_forward::now_ms() > 1_600_000_000_000);
}
