use video_transcoder::text::{decimal_string, signed_decimal_string};

#[test]
fn decimal_matches_display() {
    for n in [0u64, 1, 9, 10, 11, 99, 100, 1080, 48000, 4294967295, u64::MAX] {
        assert_eq!(decimal_string(n), n.to_string());
    }
}

#[test]
fn signed_decimal_matches_display() {
    for i in [0i32, 5, -5, 10, -10, 123456, i32::MIN, i32::MAX] {
        assert_eq!(signed_decimal_string(i), i.to_string());
    }
}
