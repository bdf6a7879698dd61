use bark_timeline::codec::{decode, encode, CodecError, Timestamp};

fn ts(year: u16, month: u8, day: u8, hour: u8, minute: u8, second: u8) -> Timestamp {
    Timestamp::new(year, month, day, hour, minute, second).expect("valid timestamp")
}

#[test]
fn encode_uses_twelve_hour_clock_with_marker() {
    let name = encode(&ts(2024, 1, 1, 15, 30, 5));
    assert_eq!(name, b"bark_20240101_03_30_05_pm.wav".to_vec());
    let morning = encode(&ts(2024, 1, 1, 9, 7, 0));
    assert_eq!(morning, b"bark_20240101_09_07_00_am.wav".to_vec());
}

#[test]
fn encode_handles_midnight_and_noon() {
    assert_eq!(encode(&ts(2023, 12, 31, 0, 0, 0)), b"bark_20231231_12_00_00_am.wav".to_vec());
    assert_eq!(encode(&ts(2023, 12, 31, 12, 0, 0)), b"bark_20231231_12_00_00_pm.wav".to_vec());
}

#[test]
fn round_trip_all_hours() {
    for hour in 0..24u8 {
        let t = ts(2024, 2, 29, hour, 59, 58);
        assert_eq!(decode(&encode(&t)), Ok(t));
    }
}

#[test]
fn round_trip_edge_dates() {
    for t in [
        ts(0, 1, 1, 0, 0, 0),
        ts(9999, 12, 31, 23, 59, 59),
        ts(2024, 2, 29, 1, 2, 3),
        ts(1900, 2, 28, 12, 0, 1),
        ts(2000, 2, 29, 11, 59, 59),
    ] {
        assert_eq!(decode(&encode(&t)), Ok(t));
    }
}

#[test]
fn malformed_names_are_invalid_format() {
    assert_eq!(decode(&b"bark_not_a_date.wav".to_vec()), Err(CodecError::InvalidFormat));
    assert_eq!(
        decode(&b"notabark_20240101_1_00_00_am.wav".to_vec()),
        Err(CodecError::InvalidFormat)
    );
    assert_eq!(decode(&b"".to_vec()), Err(CodecError::InvalidFormat));
    assert_eq!(decode(&b"bark_2024010a_03_30_05_pm.wav".to_vec()), Err(CodecError::InvalidFormat));
    assert_eq!(decode(&b"bark_20240101_03_30_05_pm.txt".to_vec()), Err(CodecError::InvalidFormat));
    assert_eq!(decode(&b"bark_20240101-03_30_05_pm.wav".to_vec()), Err(CodecError::InvalidFormat));
}

#[test]
fn invalid_fields_are_invalid_timestamp() {
    // hour 0 and hour 13 do not exist on the 12-hour clock
    assert_eq!(
        decode(&b"bark_20240101_00_30_05_pm.wav".to_vec()),
        Err(CodecError::InvalidTimestamp)
    );
    assert_eq!(
        decode(&b"bark_20240101_13_30_05_pm.wav".to_vec()),
        Err(CodecError::InvalidTimestamp)
    );
    // non-existent calendar dates
    assert_eq!(
        decode(&b"bark_20230229_03_30_05_pm.wav".to_vec()),
        Err(CodecError::InvalidTimestamp)
    );
    assert_eq!(
        decode(&b"bark_20240431_03_30_05_pm.wav".to_vec()),
        Err(CodecError::InvalidTimestamp)
    );
    assert_eq!(
        decode(&b"bark_20240001_03_30_05_pm.wav".to_vec()),
        Err(CodecError::InvalidTimestamp)
    );
    // unknown meridiem marker
    assert_eq!(
        decode(&b"bark_20240101_03_30_05_xm.wav".to_vec()),
        Err(CodecError::InvalidTimestamp)
    );
    // out-of-range minute and second
    assert_eq!(
        decode(&b"bark_20240101_03_60_05_pm.wav".to_vec()),
        Err(CodecError::InvalidTimestamp)
    );
    assert_eq!(
        decode(&b"bark_20240101_03_30_60_pm.wav".to_vec()),
        Err(CodecError::InvalidTimestamp)
    );
}

#[test]
fn timestamp_new_rejects_invalid_fields() {
    assert!(Timestamp::new(2024, 2, 30, 0, 0, 0).is_none());
    assert!(Timestamp::new(2024, 13, 1, 0, 0, 0).is_none());
    assert!(Timestamp::new(2024, 0, 1, 0, 0, 0).is_none());
    assert!(Timestamp::new(2024, 1, 1, 24, 0, 0).is_none());
    assert!(Timestamp::new(10000, 1, 1, 0, 0, 0).is_none());
    assert!(Timestamp::new(2023, 2, 29, 0, 0, 0).is_none());
    assert!(Timestamp::new(2024, 2, 29, 23, 59, 59).is_some());
}

#[test]
fn keys_order_chronologically() {
    let a = ts(2024, 1, 1, 23, 59, 59);
    let b = ts(2024, 1, 2, 0, 0, 0);
    let c = ts(2024, 2, 1, 0, 0, 0);
    assert!(a.key() < b.key());
    assert!(b.key() < c.key());
}
