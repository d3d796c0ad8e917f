use hoarder::error::HoarderError;
use hoarder::logger::{Consumer, FmtBuf, LogLevel, Logger, MAX_LOG_LINE};

/// Hands what `consume` takes, if anything, to `cb`, as the log thread does.
fn deliver(consumer: &Consumer, mut cb: impl FnMut(&[u8])) {
    if let Some(data) = consumer.consume() {
        cb(&data);
    }
}

/// Formats one log line the way the logging macros do: level prefix, text,
/// newline, cut at `MAX_LOG_LINE` bytes.
fn log_line(level: LogLevel, text: &str) -> Vec<u8> {
    let mut raw = [0u8; MAX_LOG_LINE];
    let mut fmt = FmtBuf::new(&mut raw);
    fmt.write_line(level, text);
    fmt.as_bytes().to_vec()
}

#[test]
fn test_sanity() {
    let (producer, consumer) = Logger::new(0x1000).unwrap();
    producer.push("hello world".as_bytes()).unwrap();
    deliver(&consumer, |buf| {
        assert_eq!(buf, "hello world".as_bytes());
    });
}

#[test]
fn test_log_roundtrip() {
    let (producer, consumer) = Logger::new(0x1000).unwrap();

    let line = log_line(LogLevel::Info, &format!("count = {}, name = {}", 42u32, "alice"));
    producer.push(&line).unwrap();

    let mut output = [0u8; 1024];
    let mut output_len = 0;
    deliver(&consumer, |buf| {
        output[..buf.len()].copy_from_slice(buf);
        output_len = buf.len();
    });

    let text = core::str::from_utf8(&output[..output_len]).unwrap();
    assert_eq!(text, "[INFO] count = 42, name = alice\n");
}

#[test]
fn test_consume_empty() {
    let (_producer, consumer) = Logger::new(0x1000).unwrap();
    let mut called = false;
    deliver(&consumer, |_| {
        called = true;
    });
    assert!(!called);
}

#[test]
fn test_multiple_logs() {
    let (producer, consumer) = Logger::new(0x1000).unwrap();

    producer.push(&log_line(LogLevel::Info, &format!("first = {}", 1u32))).unwrap();
    producer.push(&log_line(LogLevel::Warn, &format!("second = {}", 2u32))).unwrap();
    producer.push(&log_line(LogLevel::Error, "third")).unwrap();

    let mut output = [0u8; 4096];
    let mut output_len = 0;
    deliver(&consumer, |buf| {
        output[..buf.len()].copy_from_slice(buf);
        output_len = buf.len();
    });

    let text = core::str::from_utf8(&output[..output_len]).unwrap();
    assert!(text.contains("[INFO] first = 1\n"));
    assert!(text.contains("[WARN] second = 2\n"));
    assert!(text.contains("[ERROR] third\n"));
}

#[test]
fn test_debug_format() {
    let (producer, consumer) = Logger::new(0x1000).unwrap();

    #[derive(Debug)]
    struct Point {
        x: i32,
        y: i32,
    }

    let p = Point { x: 10, y: 20 };
    producer.push(&log_line(LogLevel::Debug, &format!("point = {:?}", p))).unwrap();

    let mut output = [0u8; 1024];
    let mut output_len = 0;
    deliver(&consumer, |buf| {
        output[..buf.len()].copy_from_slice(buf);
        output_len = buf.len();
    });

    let text = core::str::from_utf8(&output[..output_len]).unwrap();
    assert_eq!(text, "[DEBUG] point = Point { x: 10, y: 20 }\n");
}

#[test]
fn prefixes_of_each_level() {
    assert_eq!(LogLevel::Print.prefix(), "");
    assert_eq!(LogLevel::Debug.prefix(), "[DEBUG] ");
    assert_eq!(LogLevel::Info.prefix(), "[INFO] ");
    assert_eq!(LogLevel::Warn.prefix(), "[WARN] ");
    assert_eq!(LogLevel::Error.prefix(), "[ERROR] ");
}

#[test]
fn fmt_buf_cuts_what_does_not_fit() {
    let mut raw = [0u8; 8];
    let mut fmt = FmtBuf::new(&mut raw);
    fmt.write_str("hello");
    fmt.write_str(" world");
    assert_eq!(fmt.len(), 8);
    assert_eq!(fmt.as_bytes(), b"hello wo");
    fmt.write_str("more");
    assert_eq!(fmt.as_bytes(), b"hello wo");
    fmt.clear();
    assert_eq!(fmt.len(), 0);
    fmt.write_str("ab");
    assert_eq!(fmt.as_bytes(), b"ab");
}

#[test]
fn push_that_does_not_fit_is_refused() {
    let (producer, consumer) = Logger::new(0x1000).unwrap();
    let big = vec![b'x'; 0x1000];
    producer.push(&big).unwrap();
    assert!(matches!(producer.push(b"y"), Err(HoarderError::PushError)));
    let too_big = vec![b'z'; 0x1001];
    assert!(matches!(producer.push(&too_big), Err(HoarderError::PushError)));
    let mut got = Vec::new();
    deliver(&consumer, |buf| got.extend_from_slice(buf));
    assert_eq!(got, big);
    // after a drain there is room again
    producer.push(b"y").unwrap();
}

#[test]
fn consume_delivers_pushes_in_order_and_only_once() {
    let (producer, consumer) = Logger::new(0x1000).unwrap();
    producer.push(b"ab").unwrap();
    producer.push(b"cd").unwrap();
    let mut got = Vec::new();
    deliver(&consumer, |buf| got.extend_from_slice(buf));
    assert_eq!(got, b"abcd");
    let mut again = Vec::new();
    deliver(&consumer, |buf| again.extend_from_slice(buf));
    assert!(again.is_empty());
    producer.push(b"ef").unwrap();
    let mut third = Vec::new();
    deliver(&consumer, |buf| third.extend_from_slice(buf));
    assert_eq!(third, b"ef");
}

#[test]
fn panic_flush_shows_what_waits() {
    let (producer, consumer) = Logger::new(0x1000).unwrap();
    producer.push(b"pending").unwrap();
    let mut seen = Vec::new();
    for piece in producer.panic_flush() {
        seen.push(piece);
    }
    assert_eq!(seen, vec![b"pending".to_vec()]);
    deliver(&consumer, |_| {});
    let mut after = Vec::new();
    for piece in producer.panic_flush() {
        after.push(piece);
    }
    assert!(after.is_empty());
}

#[test]
fn log_line_is_cut_at_the_room_left() {
    let mut raw = [0u8; 10];
    let mut fmt = FmtBuf::new(&mut raw);
    fmt.write_line(LogLevel::Info, "hello");
    assert_eq!(fmt.as_bytes(), b"[INFO] hel");
    let mut wide = [0u8; 64];
    let mut fmt = FmtBuf::new(&mut wide);
    fmt.write_line(LogLevel::Warn, "disk");
    assert_eq!(fmt.as_bytes(), b"[WARN] disk\n");
}
