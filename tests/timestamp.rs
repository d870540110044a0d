use line_protocol::{Error, Precision, Timestamp};

#[test]
fn timestamp_as_nanos_test() {
    assert_eq!(Timestamp::Secs(1).timestamp_nanos(), Some(10i64.pow(9)));
    assert_eq!(
        Timestamp::Milli(10).timestamp_nanos(),
        Some(10 * 10i64.pow(6))
    );
    assert_eq!(
        Timestamp::Micro(10).timestamp_nanos(),
        Some(10 * 10i64.pow(3))
    );
    assert_eq!(
        Timestamp::Nanos(10).timestamp_nanos(),
        Some(10 * 10i64.pow(0))
    );
}

#[test]
fn secons_as_nanos() {
    assert_eq!(
        Timestamp::Secs(1).to_nanos(),
        Ok(Timestamp::Nanos(10i64.pow(9)))
    );
}

#[test]
fn seconds_to_nanoseconds_is_exact() {
    assert_eq!(
        Timestamp::Secs(1).timestamp_precision_lossy(Precision::Nanos),
        Ok(Timestamp::Nanos(1_000_000_000))
    );
}

#[test]
fn lossy_conversion_truncates() {
    assert_eq!(
        Timestamp::Nanos(1_500).to_micro_lossy(),
        Ok(Timestamp::Micro(1))
    );
    assert_eq!(Timestamp::Nanos(-1_500).to_micro_lossy(), Ok(Timestamp::Micro(-1)));
    assert_eq!(Timestamp::Milli(1_999).to_secs_lossy(), Timestamp::Secs(1));
    assert_eq!(Timestamp::Micro(2_500_000).to_secs_lossy(), Timestamp::Secs(2));
    assert_eq!(Timestamp::Nanos(7_654_321).to_milli_lossy(), Ok(Timestamp::Milli(7)));
    assert_eq!(Timestamp::Micro(7_654).to_milli_lossy(), Ok(Timestamp::Milli(7)));
}

#[test]
fn finer_conversion_scales_up() {
    assert_eq!(Timestamp::Secs(3).to_milli_lossy(), Ok(Timestamp::Milli(3_000)));
    assert_eq!(Timestamp::Secs(3).to_micro_lossy(), Ok(Timestamp::Micro(3_000_000)));
    assert_eq!(Timestamp::Milli(-4).to_micro_lossy(), Ok(Timestamp::Micro(-4_000)));
    assert_eq!(Timestamp::Micro(5).to_nanos(), Ok(Timestamp::Nanos(5_000)));
    assert_eq!(Timestamp::Milli(5).to_nanos(), Ok(Timestamp::Nanos(5_000_000)));
}

#[test]
fn same_unit_keeps_value() {
    assert_eq!(Timestamp::Secs(9).to_secs_lossy(), Timestamp::Secs(9));
    assert_eq!(Timestamp::Milli(9).to_milli_lossy(), Ok(Timestamp::Milli(9)));
    assert_eq!(Timestamp::Micro(9).to_micro_lossy(), Ok(Timestamp::Micro(9)));
    assert_eq!(Timestamp::Nanos(9).to_nanos(), Ok(Timestamp::Nanos(9)));
}

#[test]
fn now_stays_now() {
    assert_eq!(Timestamp::Now.to_nanos(), Ok(Timestamp::Now));
    assert_eq!(Timestamp::Now.to_secs_lossy(), Timestamp::Now);
    assert_eq!(Timestamp::Now.timestamp_nanos(), None);
    assert_eq!(Timestamp::Now.precision(), None);
    assert_eq!(Timestamp::Now.value(), None);
}

#[test]
fn overflow_is_an_error() {
    assert_eq!(Timestamp::Secs(i64::MAX).to_nanos(), Err(Error::TimestampOverflow));
    assert_eq!(Timestamp::Secs(i64::MIN).to_milli_lossy(), Err(Error::TimestampOverflow));
    assert_eq!(Timestamp::Milli(i64::MAX).to_micro_lossy(), Err(Error::TimestampOverflow));
    assert_eq!(Timestamp::Secs(10_000_000_000).timestamp_nanos(), None);
    assert_eq!(
        Timestamp::Secs(9_223_372_036).to_nanos(),
        Ok(Timestamp::Nanos(9_223_372_036_000_000_000))
    );
    assert_eq!(Timestamp::Secs(9_223_372_037).to_nanos(), Err(Error::TimestampOverflow));
}

#[test]
fn extreme_values_divide_without_overflow() {
    assert_eq!(
        Timestamp::Nanos(i64::MIN).to_secs_lossy(),
        Timestamp::Secs(-9_223_372_036)
    );
    assert_eq!(Timestamp::Nanos(i64::MAX).to_nanos(), Ok(Timestamp::Nanos(i64::MAX)));
}

#[test]
fn precision_of_timestamps() {
    assert_eq!(Timestamp::Secs(1).precision(), Some(Precision::Secs));
    assert_eq!(Timestamp::Milli(1).precision(), Some(Precision::Milli));
    assert_eq!(Timestamp::Micro(1).precision(), Some(Precision::Micro));
    assert_eq!(Timestamp::Nanos(1).precision(), Some(Precision::Nanos));
    assert_eq!(Timestamp::Milli(42).value(), Some(42));
}
