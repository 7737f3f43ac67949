use net_combiner::display::{
    epoch_timestamp, format_bytes, format_duration, local_timestamp, trim_middle, LocalTime,
};
use net_combiner::logs::{
    ensure_utf8_bom, log_file_message, log_path_parts, rotate_log_if_large, rotated_extension,
    LogBuffer, MAX_LOG_LINES,
};

#[test]
fn durations() {
    assert_eq!(format_duration(0), "0s");
    assert_eq!(format_duration(59), "59s");
    assert_eq!(format_duration(60), "1m 0s");
    assert_eq!(format_duration(3_599), "59m 59s");
    assert_eq!(format_duration(3_600), "1h 0m");
    assert_eq!(format_duration(90_061), "25h 1m");
}

#[test]
fn amounts_of_data() {
    assert_eq!(format_bytes(0), "0 B");
    assert_eq!(format_bytes(1023), "1023 B");
    assert_eq!(format_bytes(1024), "1.0 KiB");
    assert_eq!(format_bytes(1536), "1.5 KiB");
    assert_eq!(format_bytes(1_048_575), "1024.0 KiB");
    assert_eq!(format_bytes(1_048_576), "1.0 MiB");
    assert_eq!(format_bytes(5 * 1_073_741_824), "5.0 GiB");
    assert_eq!(format_bytes(u64::MAX), "17179869184.0 GiB");
}

fn with_floats(bytes: u64) -> String {
    const KIB: f64 = 1024.0;
    const MIB: f64 = KIB * 1024.0;
    const GIB: f64 = MIB * 1024.0;
    let value = bytes as f64;
    if value < KIB {
        format!("{bytes} B")
    } else if value < MIB {
        format!("{:.1} KiB", value / KIB)
    } else if value < GIB {
        format!("{:.1} MiB", value / MIB)
    } else {
        format!("{:.1} GiB", value / GIB)
    }
}

#[test]
fn amounts_agree_with_floating_point() {
    let mut bytes: u64 = 1;
    let mut state: u64 = 0x9e37_79b9_7f4a_7c15;
    for round in 0..20_000u64 {
        state = state.wrapping_mul(6_364_136_223_846_793_005).wrapping_add(1_442_695_040_888_963_407);
        bytes = state >> (round % 64);
        assert_eq!(format_bytes(bytes), with_floats(bytes), "{bytes}");
    }
    for shift in 10..64 {
        for offset in [0u64, 1, 51, 52, 1u64 << (shift - 5), 3u64 << (shift - 5)] {
            bytes = (1u64 << shift) + offset;
            assert_eq!(format_bytes(bytes), with_floats(bytes), "{bytes}");
            let below = (1u64 << shift) - 1;
            assert_eq!(format_bytes(below), with_floats(below), "{below}");
        }
    }
}

#[test]
fn names_lose_their_middle() {
    assert_eq!(trim_middle("short", 5), "short");
    assert_eq!(trim_middle("abcdefghij", 4), "abcdefghij");
    assert_eq!(trim_middle("abcdefghij", 5), "ab...ij");
    assert_eq!(trim_middle("abcdefghij", 6), "ab...hij");
    assert_eq!(trim_middle("abcdefghij", 9), "abcd...ghij");
}

#[test]
fn moments() {
    let time = LocalTime {
        year: 2024,
        month: 3,
        day: 9,
        hour: 4,
        minute: 5,
        second: 6,
        milliseconds: 7,
    };
    assert_eq!(local_timestamp(time), "2024-03-09 04:05:06.007");
    assert_eq!(epoch_timestamp(Some((1_700_000_000, 45))), "1700000000.045");
    assert_eq!(epoch_timestamp(None), "0.000");
}

#[test]
fn log_keeps_its_newest_lines() {
    let mut log = LogBuffer::new();
    assert_eq!(log.push_log("10:00", "hello"), "[10:00] hello");
    for i in 0..MAX_LOG_LINES {
        log.push_log("t", &format!("line {i}"));
    }
    assert_eq!(log.lines.len(), 800);
    assert_eq!(log.lines[0], "[t] line 0");
    assert_eq!(log.lines[799], "[t] line 799");
    log.clear();
    assert!(log.lines.is_empty());
}

#[test]
fn log_file_is_marked_once() {
    assert_eq!(ensure_utf8_bom(None), Some(vec![0xef, 0xbb, 0xbf]));
    let marked = ensure_utf8_bom(Some(b"old")).unwrap();
    assert_eq!(marked, vec![0xef, 0xbb, 0xbf, b'o', b'l', b'd']);
    assert_eq!(ensure_utf8_bom(Some(&marked)), None);
    assert_eq!(ensure_utf8_bom(Some(&[0xef, 0xbb])), Some(vec![0xef, 0xbb, 0xbf, 0xef, 0xbb]));
}

#[test]
fn log_file_is_put_aside() {
    assert!(!rotate_log_if_large(None));
    assert!(!rotate_log_if_large(Some(10 * 1024 * 1024)));
    assert!(rotate_log_if_large(Some(10 * 1024 * 1024 + 1)));
    assert_eq!(rotated_extension(), "log.1");
    assert_eq!(log_path_parts(), vec!["logs", "net-combiner.log"]);
    assert_eq!(log_file_message("x/y.log", None), "logging to x/y.log");
    assert_eq!(
        log_file_message("x/y.log", Some("denied")),
        "failed to open log file x/y.log: denied"
    );
}
