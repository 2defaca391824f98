use stampname::timestamp::LocalTimeParts;
use stampname::timestamp::format_timestamp;
use stampname::timestamp::has_timestamp_prefix;

fn parts(year: i32, month: u32, day: u32, hour: u32, minute: u32, second: u32) -> LocalTimeParts {
    LocalTimeParts { year, month, day, hour, minute, second }
}

#[test]
fn format_timestamp_exact() {
    let t = parts(2023, 1, 1, 12, 0, 0);
    assert_eq!(format_timestamp(&t).unwrap(), "20230101_120000_");
    let t = parts(1999, 12, 31, 23, 59, 59);
    assert_eq!(format_timestamp(&t).unwrap(), "19991231_235959_");
    let t = parts(7, 2, 3, 4, 5, 6);
    assert_eq!(format_timestamp(&t).unwrap(), "00070203_040506_");
}

#[test]
fn format_timestamp_rejects_out_of_range() {
    assert!(format_timestamp(&parts(10000, 1, 1, 0, 0, 0)).is_none());
    assert!(format_timestamp(&parts(-1, 1, 1, 0, 0, 0)).is_none());
    assert!(format_timestamp(&parts(2023, 13, 1, 0, 0, 0)).is_none());
    assert!(format_timestamp(&parts(2023, 1, 32, 0, 0, 0)).is_none());
    assert!(format_timestamp(&parts(2023, 1, 1, 24, 0, 0)).is_none());
    assert!(format_timestamp(&parts(2023, 1, 1, 0, 60, 0)).is_none());
    assert!(format_timestamp(&parts(2023, 1, 1, 0, 0, 60)).is_none());
}

#[test]
fn timestamp_prefix_detection() {
    assert!(has_timestamp_prefix("20230101_120000_c.txt"));
    assert!(has_timestamp_prefix("00000000_000000_"));
    assert!(!has_timestamp_prefix("c.txt"));
    assert!(!has_timestamp_prefix(""));
    assert!(!has_timestamp_prefix("2023010_1200000_c.txt"));
    assert!(!has_timestamp_prefix("20230101-120000_c.txt"));
    assert!(!has_timestamp_prefix("20230101_120000c.txt"));
    assert!(!has_timestamp_prefix("20230101_12000"));
}

