use rust_in_action::clock::{
    adjustment_ms, decimal_text, set_time_instant, time_format, time_text, TimeFormat, NTPMessage, NTPResult, NTPTimestamp, UtcTime, NTP_TO_UNIX_SECONDS,
};

fn t(secs: i64, nanos: u32) -> UtcTime {
    UtcTime { secs, nanos }
}

#[test]
fn new_message_is_zero() {
    assert_eq!(NTPMessage::new().data, [0u8; 48]);
}

#[test]
fn client_message_header() {
    let msg = NTPMessage::client();
    assert_eq!(msg.data[0], 0x1b);
    assert_eq!((msg.data[0] >> 3) & 7, 3);
    assert_eq!(msg.data[0] & 7, 3);
    assert!(msg.data[1..].iter().all(|b| *b == 0));
}

#[test]
fn timestamps_are_big_endian() {
    let mut msg = NTPMessage::new();
    msg.data[32..40].copy_from_slice(&[0xe8, 0x5f, 0x1a, 0x2b, 0x80, 0x00, 0x00, 0x01]);
    msg.data[40..48].copy_from_slice(&[0x00, 0x00, 0x01, 0x0b, 0xff, 0xff, 0xff, 0xff]);
    let rx = msg.rx_time().unwrap();
    assert_eq!(rx, NTPTimestamp { seconds: 0xe85f1a2b, fraction: 0x80000001 });
    let tx = msg.tx_time().unwrap();
    assert_eq!(tx, NTPTimestamp { seconds: 267, fraction: u32::MAX });
    let first = msg.parse_timestamp(0).unwrap();
    assert_eq!(first, NTPTimestamp { seconds: 0, fraction: 0 });
}

#[test]
fn unix_seconds_conversion() {
    let ts = NTPTimestamp { seconds: 3_913_056_000, fraction: 0 };
    assert_eq!(ts.unix_seconds(), 3_913_056_000 - NTP_TO_UNIX_SECONDS);
    let back = NTPTimestamp::from_unix_seconds(1_704_067_200, 7);
    assert_eq!(back, NTPTimestamp { seconds: 3_913_056_000, fraction: 7 });
    let wrapped = NTPTimestamp::from_unix_seconds(2_085_978_496, 0);
    assert_eq!(wrapped.seconds, 0);
}

#[test]
fn offset_and_delay() {
    let r = NTPResult { t1: t(100, 0), t2: t(100, 600_000_000), t3: t(100, 700_000_000), t4: t(101, 0) };
    assert_eq!(r.offset(), 450);
    assert_eq!(r.delay(), 900);
}

#[test]
fn negative_offset_rounds_toward_zero() {
    let r = NTPResult { t1: t(50, 0), t2: t(49, 999_999_000), t3: t(49, 999_999_000), t4: t(50, 2_500_000) };
    // (t2 - t1) + (t4 - t3) = -0.001 ms + 3.501 ms = 3.5 ms -> 3 ms -> 1
    assert_eq!(r.offset(), 1);
    let r = NTPResult { t1: t(50, 0), t2: t(49, 996_000_000), t3: t(49, 996_000_000), t4: t(50, 999_000) };
    // -4 ms + 4.999 ms -> 0.999 ms -> 0
    assert_eq!(r.offset(), 0);
    let r = NTPResult { t1: t(10, 0), t2: t(7, 0), t3: t(7, 1), t4: t(10, 3_000_000) };
    // -3000 ms + (3003 ms - 1 ns) = 2.999999 ms -> 2 -> 1
    assert_eq!(r.offset(), 1);
    let r = NTPResult { t1: t(10, 0), t2: t(7, 0), t3: t(8, 0), t4: t(10, 0) };
    // -3000 + 2000 = -1000 -> -500
    assert_eq!(r.offset(), -500);
    let r = NTPResult { t1: t(0, 0), t2: t(0, 0), t3: t(0, 0), t4: t(0, 0) };
    assert_eq!(r.delay(), 0);
    assert_eq!(r.offset(), 0);
}

#[test]
fn balanced_exchange_has_zero_offset() {
    let r = NTPResult { t1: t(10, 0), t2: t(8, 0), t3: t(9, 0), t4: t(11, 0) };
    assert_eq!(r.offset(), 0);
    assert_eq!(r.delay(), 0);
    assert!(r.delay() >= 0);
}

#[test]
fn adjustment() {
    assert_eq!(adjustment_ms(0), 0);
    assert_eq!(adjustment_ms(100), 20);
    assert_eq!(adjustment_ms(-100), -20);
    assert_eq!(adjustment_ms(1000), 40);
    assert_eq!(adjustment_ms(-1000), -40);
    assert_eq!(adjustment_ms(7), 1);
    assert_eq!(adjustment_ms(-7), -1);
    assert_eq!(adjustment_ms(4), 0);
}

fn chrono_time(t: &UtcTime) -> chrono::DateTime<chrono::Utc> {
    chrono::DateTime::from_timestamp(t.secs, t.nanos).unwrap()
}

fn chrono_offset_delay(r: &NTPResult) -> (i64, i64) {
    let (t1, t2, t3, t4) = (chrono_time(&r.t1), chrono_time(&r.t2), chrono_time(&r.t3), chrono_time(&r.t4));
    let offset = ((t2 - t1) + (t4 - t3)).num_milliseconds() / 2;
    let delay = ((t4 - t1) - (t3 - t2)).num_milliseconds();
    (offset, delay)
}

#[test]
fn leap_seconds_count_as_chrono_counts_them() {
    let leap = t(86_399, 1_500_000_000);
    let cases = [
        NTPResult { t1: t(86_400, 0), t2: leap, t3: leap, t4: t(86_400, 0) },
        NTPResult { t1: t(86_300, 0), t2: leap, t3: t(86_401, 250_000_000), t4: t(86_402, 0) },
        NTPResult { t1: t(86_399, 0), t2: t(86_399, 1_999_999_999), t3: t(86_398, 5), t4: leap },
        NTPResult { t1: t(-86_401, 1_200_000_000), t2: t(-5, 7), t3: t(-86_400, 0), t4: t(3, 999_999_999) },
    ];
    for r in cases {
        assert_eq!((r.offset(), r.delay()), chrono_offset_delay(&r), "{:?}", r);
    }
}

#[test]
fn offsets_match_chrono() {
    let cases = [
        NTPResult { t1: t(100, 0), t2: t(100, 600_000_000), t3: t(100, 700_000_000), t4: t(101, 0) },
        NTPResult { t1: t(50, 0), t2: t(49, 999_999_000), t3: t(49, 999_999_000), t4: t(50, 2_500_000) },
        NTPResult { t1: t(10, 0), t2: t(7, 0), t3: t(7, 1), t4: t(10, 3_000_000) },
        NTPResult { t1: t(-1_000_000, 3), t2: t(1_700_000_000, 999_999_999), t3: t(1_700_000_001, 0), t4: t(-999_999, 0) },
    ];
    for r in cases {
        assert_eq!((r.offset(), r.delay()), chrono_offset_delay(&r), "{:?}", r);
    }
}

#[test]
fn format_names() {
    assert_eq!(time_format("timestamp"), Some(TimeFormat::Timestamp));
    assert_eq!(time_format("rfc2822"), Some(TimeFormat::Rfc2822));
    assert_eq!(time_format("rfc3339"), Some(TimeFormat::Rfc3339));
    assert_eq!(time_format("RFC3339"), None);
    assert_eq!(time_format(""), None);
}

#[test]
fn instants_read_from_text() {
    let t = set_time_instant(TimeFormat::Rfc3339, "1996-12-19T16:39:57-08:00").unwrap();
    assert_eq!((t.secs, t.nanos), (851_042_397, 0));
    let t = set_time_instant(TimeFormat::Rfc3339, "2024-01-01T00:00:00.25Z").unwrap();
    assert_eq!((t.secs, t.nanos), (1_704_067_200, 250_000_000));
    let t = set_time_instant(TimeFormat::Rfc2822, "Wed, 18 Feb 2015 23:16:09 GMT").unwrap();
    assert_eq!((t.secs, t.nanos), (1_424_301_369, 0));
    let t = set_time_instant(TimeFormat::Rfc2822, "Wed, 18 Feb 2015 23:16:09 +0200").unwrap();
    assert_eq!((t.secs, t.nanos), (1_424_294_169, 0));
}

#[test]
fn unreadable_text_gives_nothing() {
    assert!(set_time_instant(TimeFormat::Rfc3339, "not a date").is_none());
    assert!(set_time_instant(TimeFormat::Rfc2822, "1996-12-19T16:39:57-08:00").is_none());
    assert!(set_time_instant(TimeFormat::Rfc3339, "Wed, 18 Feb 2015 23:16:09 GMT").is_none());
}

#[test]
fn decimal_text_of_integers() {
    assert_eq!(decimal_text(0), "0");
    assert_eq!(decimal_text(7), "7");
    assert_eq!(decimal_text(1_704_067_200), "1704067200");
    assert_eq!(decimal_text(-305), "-305");
    assert_eq!(decimal_text(i64::MAX), i64::MAX.to_string());
    assert_eq!(decimal_text(i64::MIN), i64::MIN.to_string());
}

#[test]
fn time_text_in_each_format() {
    let epoch = t(0, 0);
    assert_eq!(time_text(TimeFormat::Timestamp, epoch, 3600), "0");
    assert_eq!(time_text(TimeFormat::Rfc3339, epoch, 3600), "1970-01-01T01:00:00+01:00");
    assert_eq!(time_text(TimeFormat::Rfc2822, epoch, 3600), "Thu, 1 Jan 1970 01:00:00 +0100");
    let later = t(851_042_397, 0);
    assert_eq!(time_text(TimeFormat::Rfc3339, later, -8 * 3600), "1996-12-19T16:39:57-08:00");
    assert_eq!(time_text(TimeFormat::Timestamp, later, -8 * 3600), "851042397");
    let fraction = t(1_704_067_200, 250_000_000);
    assert_eq!(time_text(TimeFormat::Rfc3339, fraction, 0), "2024-01-01T00:00:00.250+00:00");
    assert_eq!(time_text(TimeFormat::Rfc2822, fraction, 0), "Mon, 1 Jan 2024 00:00:00 +0000");
}

#[test]
fn written_text_reads_back() {
    let instant = t(1_424_301_369, 0);
    let text = time_text(TimeFormat::Rfc2822, instant, 7200);
    let back = set_time_instant(TimeFormat::Rfc2822, &text).unwrap();
    assert_eq!(back, instant);
    let instant = t(1_704_067_200, 125_000_000);
    let text = time_text(TimeFormat::Rfc3339, instant, -3600);
    assert_eq!(set_time_instant(TimeFormat::Rfc3339, &text).unwrap(), instant);
}
