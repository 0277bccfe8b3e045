use avm::query::{compact, default_after_ms, default_before_ms, default_console_before_ms, default_frame_limit, ms_to_ns};

#[test]
fn compact_keeps_endpoints_and_requested_limit() {
    assert_eq!(compact((0..20).collect::<Vec<u64>>(), 3), vec![0, 9, 19]);
    assert_eq!(compact(vec![1, 2], 3), vec![1, 2]);
    assert_eq!(compact(vec![1, 2], 1), vec![2]);
}

#[test]
fn compact_to_nothing_is_empty() {
    assert_eq!(compact(vec![1, 2, 3], 0), Vec::<u64>::new());
}

#[test]
fn query_windows_have_documented_defaults() {
    assert_eq!(default_before_ms(), 500);
    assert_eq!(default_after_ms(), 2_000);
    assert_eq!(default_console_before_ms(), 2_000);
    assert_eq!(default_frame_limit(), 12);
}

#[test]
fn milliseconds_convert_without_overflow() {
    assert_eq!(ms_to_ns(3), Some(3_000_000));
    assert_eq!(ms_to_ns(u64::MAX / 1_000_000 + 1), None);
}
