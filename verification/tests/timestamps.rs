use siodb::results::ColumnDataType;
use siodb::results::Value;
use siodb::row::decode_cell;
use siodb::row::decode_timestamp;
use siodb::timestamp::DatePart;
use siodb::timestamp::TimePart;
use siodb::timestamp::Timestamp;
use siodb::ErrorKind;

fn date_bytes(has_time: bool, day_of_week: u32, day: u32, month: u32, year: u32) -> [u8; 4] {
    let packed: u32 = (has_time as u32)
        | (day_of_week << 1)
        | ((day - 1) << 4)
        | ((month - 1) << 9)
        | (year << 13);
    packed.to_le_bytes()
}

fn time_bytes(hours: u64, minutes: u64, seconds: u64, nanos: u64) -> [u8; 6] {
    let packed: u64 = (nanos << 1) | (seconds << 31) | (minutes << 37) | (hours << 43);
    let b = packed.to_le_bytes();
    [b[0], b[1], b[2], b[3], b[4], b[5]]
}

fn instant(y: i32, mo: u32, d: u32, h: u32, mi: u32, s: u32, n: u32) -> Timestamp {
    let moment = chrono::NaiveDate::from_ymd_opt(y, mo, d)
        .unwrap()
        .and_hms_nano_opt(h, mi, s, n)
        .unwrap()
        .and_utc();
    Timestamp { seconds: moment.timestamp(), nanoseconds: moment.timestamp_subsec_nanos() }
}

#[test]
fn timestamp_with_time_part() {
    let input = [0xeb, 0x0a, 0xfd, 0x00, 0xf0, 0xc0, 0x03, 0x80, 0xd6, 0x63];
    assert_eq!(&input[..4], &date_bytes(true, 5, 15, 6, 2024));
    assert_eq!(&input[4..], &time_bytes(12, 30, 45, 123_000));
    let (moment, consumed) = decode_timestamp(&input).unwrap().unwrap();
    assert_eq!(consumed, 10);
    assert_eq!(moment, Timestamp { seconds: 1_718_454_645, nanoseconds: 123_000 });
    assert_eq!(moment, instant(2024, 6, 15, 12, 30, 45, 123_000));
    let expected: chrono::DateTime<chrono::Utc> = "2024-06-15T12:30:45.000123000Z".parse().unwrap();
    assert_eq!(chrono::DateTime::from_timestamp(moment.seconds, moment.nanoseconds), Some(expected));
    assert_eq!(
        decode_cell(ColumnDataType::Timestamp, &input).unwrap(),
        Some((Value::Timestamp(moment), 10))
    );
}

#[test]
fn timestamp_without_time_part_is_midnight() {
    let mut input = date_bytes(false, 1, 1, 1, 1970).to_vec();
    input.extend_from_slice(&[0xff; 6]);
    let (moment, consumed) = decode_timestamp(&input).unwrap().unwrap();
    assert_eq!(consumed, 4);
    assert_eq!(moment, Timestamp { seconds: 0, nanoseconds: 0 });
    let input = date_bytes(false, 0, 31, 12, 1999);
    let (moment, consumed) = decode_timestamp(&input).unwrap().unwrap();
    assert_eq!(consumed, 4);
    assert_eq!(moment, instant(1999, 12, 31, 0, 0, 0, 0));
}

#[test]
fn date_part_fields() {
    let d = DatePart::decode(0xeb, 0x0a, 0xfd, 0x00);
    assert_eq!(
        d,
        DatePart { has_time_part: true, day_of_week: 5, day_of_month: 15, month: 6, year: 2024 }
    );
    let d = DatePart::decode(0x00, 0x00, 0x00, 0x00);
    assert_eq!(
        d,
        DatePart { has_time_part: false, day_of_week: 0, day_of_month: 1, month: 1, year: 0 }
    );
    let d = DatePart::decode(0xff, 0xff, 0xff, 0xff);
    assert_eq!(
        d,
        DatePart { has_time_part: true, day_of_week: 7, day_of_month: 32, month: 16, year: 524287 }
    );
}

#[test]
fn date_part_bits() {
    assert!(DatePart::decode(0x01, 0, 0, 0).has_time_part);
    assert_eq!(DatePart::decode(0x0e, 0, 0, 0).day_of_week, 7);
    assert_eq!(DatePart::decode(0xf0, 0, 0, 0).day_of_month, 16);
    assert_eq!(DatePart::decode(0, 0x01, 0, 0).day_of_month, 17);
    assert_eq!(DatePart::decode(0, 0x1e, 0, 0).month, 16);
    assert_eq!(DatePart::decode(0, 0xe0, 0, 0).year, 7);
    assert_eq!(DatePart::decode(0, 0, 0x01, 0).year, 8);
    assert_eq!(DatePart::decode(0, 0, 0xff, 0).year, 2040);
    assert_eq!(DatePart::decode(0, 0, 0, 0x01).year, 2048);
    assert_eq!(DatePart::decode(0, 0, 0, 0x80).year, 262144);
}

#[test]
fn time_part_fields() {
    let t = TimePart::decode(0xf0, 0xc0, 0x03, 0x80, 0xd6, 0x63);
    assert_eq!(t, TimePart { hours: 12, minutes: 30, seconds: 45, nanoseconds: 123_000 });
    let t = TimePart::decode(0, 0, 0, 0, 0, 0);
    assert_eq!(t, TimePart::midnight());
    let t = TimePart::decode(0xff, 0xff, 0xff, 0xff, 0xff, 0xff);
    assert_eq!(t, TimePart { hours: 31, minutes: 63, seconds: 63, nanoseconds: 0x3fff_ffff });
}

#[test]
fn time_part_bits() {
    assert_eq!(TimePart::decode(0x01, 0, 0, 0, 0, 0), TimePart::midnight());
    assert_eq!(TimePart::decode(0x02, 0, 0, 0, 0, 0).nanoseconds, 1);
    assert_eq!(TimePart::decode(0, 0x01, 0, 0, 0, 0).nanoseconds, 128);
    assert_eq!(TimePart::decode(0, 0, 0x01, 0, 0, 0).nanoseconds, 32768);
    assert_eq!(TimePart::decode(0, 0, 0, 0x01, 0, 0).nanoseconds, 8388608);
    assert_eq!(TimePart::decode(0, 0, 0, 0x40, 0, 0).nanoseconds, 1 << 29);
    assert_eq!(TimePart::decode(0, 0, 0, 0x80, 0, 0).seconds, 1);
    assert_eq!(TimePart::decode(0, 0, 0, 0, 0x1f, 0).seconds, 62);
    assert_eq!(TimePart::decode(0, 0, 0, 0, 0xe0, 0).minutes, 7);
    assert_eq!(TimePart::decode(0, 0, 0, 0, 0, 0x07).minutes, 56);
    assert_eq!(TimePart::decode(0, 0, 0, 0, 0, 0xf8).hours, 31);
}

#[test]
fn largest_nanosecond() {
    let mut input = date_bytes(true, 3, 29, 2, 2024).to_vec();
    input.extend_from_slice(&time_bytes(23, 59, 58, 999_999_999));
    let (moment, consumed) = decode_timestamp(&input).unwrap().unwrap();
    assert_eq!(consumed, 10);
    assert_eq!(moment, instant(2024, 2, 29, 23, 59, 58, 999_999_999));
    assert_eq!(moment.nanoseconds, 999_999_999);
}

#[test]
fn a_date_that_the_calendar_lacks_is_a_protocol_error() {
    for (day, month, year) in [(30, 2, 2024), (29, 2, 2023), (31, 4, 2024), (1, 13, 2024), (32, 1, 2024)] {
        let e = decode_timestamp(&date_bytes(false, 0, day, month, year)).unwrap_err();
        assert_eq!(e.kind(), ErrorKind::Protocol);
    }
    let e = decode_timestamp(&date_bytes(false, 0, 1, 1, 300_000)).unwrap_err();
    assert_eq!(e.kind(), ErrorKind::Protocol);
}

#[test]
fn a_time_that_the_clock_lacks_is_a_protocol_error() {
    for (h, m, s, n) in [(24, 0, 0, 0), (0, 60, 0, 0), (0, 0, 60, 0), (0, 0, 0, 1_000_000_000)] {
        let mut input = date_bytes(true, 0, 15, 6, 2024).to_vec();
        input.extend_from_slice(&time_bytes(h, m, s, n));
        let e = decode_timestamp(&input).unwrap_err();
        assert_eq!(e.kind(), ErrorKind::Protocol);
    }
}

#[test]
fn a_timestamp_cut_short_waits_for_more() {
    let mut input = date_bytes(true, 5, 15, 6, 2024).to_vec();
    input.extend_from_slice(&time_bytes(12, 30, 45, 0));
    for cut in 0..input.len() {
        assert_eq!(decode_timestamp(&input[..cut]).unwrap(), None, "cut at {}", cut);
    }
    // The time part is waited for before the date is looked up.
    let mut input = date_bytes(true, 0, 30, 2, 2024).to_vec();
    input.extend_from_slice(&[0; 5]);
    assert_eq!(decode_timestamp(&input).unwrap(), None);
}

#[test]
fn from_instant_takes_what_the_calendar_gave() {
    assert_eq!(
        Timestamp::from_instant(Some((12, 34))).unwrap(),
        Timestamp { seconds: 12, nanoseconds: 34 }
    );
    assert_eq!(Timestamp::from_instant(None).unwrap_err().kind(), ErrorKind::Protocol);
}

#[test]
fn from_parts_asks_the_calendar() {
    let date = DatePart { has_time_part: true, day_of_week: 5, day_of_month: 15, month: 6, year: 2024 };
    let time = TimePart { hours: 12, minutes: 30, seconds: 45, nanoseconds: 123_000 };
    assert_eq!(
        Timestamp::from_parts(date, time).unwrap(),
        Timestamp { seconds: 1_718_454_645, nanoseconds: 123_000 }
    );
    let date = DatePart { has_time_part: false, day_of_week: 0, day_of_month: 31, month: 6, year: 2024 };
    assert_eq!(
        Timestamp::from_parts(date, TimePart::midnight()).unwrap_err().kind(),
        ErrorKind::Protocol
    );
}

#[test]
fn timestamp_as_text() {
    let moment = Timestamp { seconds: 1_718_454_645, nanoseconds: 123_000 };
    assert_eq!(moment.to_text(), Some("2024-06-15 12:30:45.000123 UTC".to_string()));
    let epoch = Timestamp { seconds: 0, nanoseconds: 0 };
    assert_eq!(epoch.to_text(), Some("1970-01-01 00:00:00 UTC".to_string()));
    let beyond = Timestamp { seconds: i64::MAX, nanoseconds: 0 };
    assert_eq!(beyond.to_text(), None);
}

#[test]
fn a_leap_second_is_kept() {
    let mut input = date_bytes(true, 5, 30, 6, 2012).to_vec();
    input.extend_from_slice(&time_bytes(23, 59, 59, 1_000_000_000));
    let (moment, consumed) = decode_timestamp(&input).unwrap().unwrap();
    assert_eq!(consumed, 10);
    assert_eq!(moment, instant(2012, 6, 30, 23, 59, 59, 1_000_000_000));
    assert_eq!(moment.nanoseconds, 1_000_000_000);
    assert_eq!(moment.to_text(), Some("2012-06-30 23:59:60 UTC".to_string()));
}
