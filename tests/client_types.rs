use k8s_structural_schema::duration::{
    convert_duration_from_ffi_c_int_seconds, convert_duration_to_ffi_u64_millis, ConversionError,
    Duration,
};
use k8s_structural_schema::result_code::ResultCode;

#[test]
fn err_or_success_gives_value() {
    assert_eq!(ResultCode::Success.err_or(7), Ok(7));
}

#[test]
fn err_or_failure_gives_code() {
    assert_eq!(ResultCode::Timeout.err_or(7), Err(ResultCode::Timeout));
}

#[test]
fn err_or_else_calls_only_on_success() {
    assert_eq!(ResultCode::Success.err_or_else(|| 3 + 4), Ok(7));
    let mut called = false;
    let r: Result<i32, ResultCode> = ResultCode::ProducerBusy.err_or_else(|| {
        called = true;
        1
    });
    assert_eq!(r, Err(ResultCode::ProducerBusy));
    assert!(!called);
}

#[test]
fn seconds_from_native() {
    assert_eq!(convert_duration_from_ffi_c_int_seconds(0), Ok(Duration { secs: 0, nanos: 0 }));
    assert_eq!(convert_duration_from_ffi_c_int_seconds(30), Ok(Duration { secs: 30, nanos: 0 }));
    assert_eq!(
        convert_duration_from_ffi_c_int_seconds(i32::MAX),
        Ok(Duration { secs: i32::MAX as u64, nanos: 0 })
    );
}

#[test]
fn negative_seconds_from_native() {
    assert_eq!(
        convert_duration_from_ffi_c_int_seconds(-1),
        Err(ConversionError::InvalidNumber { number: -1 })
    );
}

#[test]
fn millis_to_native() {
    assert_eq!(convert_duration_to_ffi_u64_millis(Duration { secs: 2, nanos: 345_678_901 }), Ok(2345));
    assert_eq!(convert_duration_to_ffi_u64_millis(Duration { secs: 0, nanos: 999_999 }), Ok(0));
}

#[test]
fn millis_to_native_out_of_range() {
    let d = Duration { secs: u64::MAX, nanos: 0 };
    assert_eq!(convert_duration_to_ffi_u64_millis(d), Err(ConversionError::InvalidDuration { duration: d }));
    let largest = Duration { secs: u64::MAX / 1000, nanos: 615_000_000 };
    assert_eq!(convert_duration_to_ffi_u64_millis(largest), Ok(u64::MAX));
}
