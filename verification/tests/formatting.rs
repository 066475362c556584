use dev_tracker_core::report::minutes_to_str;
use dev_tracker_core::text::u64_to_string;

#[test]
fn decimal_rendering_is_exact() {
    assert_eq!(u64_to_string(0), "0");
    assert_eq!(u64_to_string(7), "7");
    assert_eq!(u64_to_string(10), "10");
    assert_eq!(u64_to_string(42), "42");
    assert_eq!(u64_to_string(12345), "12345");
    assert_eq!(u64_to_string(18446744073709551615), "18446744073709551615");
}

#[test]
fn minutes_phrases_are_exact() {
    assert_eq!(minutes_to_str(0), "zero hours zero minutes");
    assert_eq!(minutes_to_str(1), "zero hours 1 minute");
    assert_eq!(minutes_to_str(59), "zero hours 59 minutes");
    assert_eq!(minutes_to_str(60), "1 hour zero minutes");
    assert_eq!(minutes_to_str(61), "1 hour 1 minute");
    assert_eq!(minutes_to_str(121), "2 hours 1 minute");
    assert_eq!(minutes_to_str(125), "2 hours 5 minutes");
    assert_eq!(minutes_to_str(1440), "24 hours zero minutes");
}
