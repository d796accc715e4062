use lifelog_compression::{format_decimal, format_hex, format_zero_padded, frame_id};

#[test]
fn decimal_matches_std_formatting() {
    for n in [0u128, 1, 9, 10, 99, 100, 1920, 4294967295, u128::MAX] {
        assert_eq!(format_decimal(n), format!("{}", n));
    }
}

#[test]
fn hex_matches_std_formatting() {
    for n in [0u128, 9, 10, 15, 16, 255, 0x18e2a3b4c5d, u128::MAX] {
        assert_eq!(format_hex(n), format!("{:x}", n));
    }
}

#[test]
fn zero_padding_matches_std_formatting() {
    assert_eq!(format_zero_padded(7, 3), "007");
    assert_eq!(format_zero_padded(12345, 3), "12345");
    assert_eq!(format_zero_padded(0, 0), "0");
    for n in [0u128, 1, 12, 99999999, 100000000] {
        assert_eq!(format_zero_padded(n, 8), format!("{:08}", n));
    }
}

#[test]
fn frame_ids_count_from_one() {
    assert_eq!(frame_id(0), "frame_000001");
    assert_eq!(frame_id(41), "frame_000042");
    assert_eq!(frame_id(999_998), "frame_999999");
    assert_eq!(frame_id(999_999), "frame_1000000");
}

#[test]
fn frame_ids_match_six_digit_formatting() {
    for k in [1usize, 9, 10, 123456, 7654321] {
        assert_eq!(frame_id(k - 1), format!("frame_{:06}", k));
    }
}

#[test]
fn frame_ids_are_distinct() {
    let ids: Vec<String> = (0..2000).map(frame_id).collect();
    let mut sorted = ids.clone();
    sorted.sort();
    sorted.dedup();
    assert_eq!(sorted.len(), ids.len());
}
