use pcf85263a::{offset_value_for_ppb_offset, OffsetMode};

#[test]
fn test_offsets() {
    let table = [
        // a selection of cases to make sure rounding is working correctly
        (0, 0, OffsetMode::Normal),
        (0, 0, OffsetMode::Fast),
        (2, 5_000, OffsetMode::Normal),
        (0, 600, OffsetMode::Fast),
        (1, 1_100, OffsetMode::Fast),
        (0, -500, OffsetMode::Normal),
        (-1, -2_000, OffsetMode::Normal),
        (126, 256_000, OffsetMode::Fast),
        (127, 300_000, OffsetMode::Normal),
        (-127, -275_600, OffsetMode::Normal),
        (-128, -300_000, OffsetMode::Normal),
    ];

    for test in table {
        let offset = offset_value_for_ppb_offset(test.1, test.2);
        assert_eq!(
            offset, test.0,
            "Offset in ppb: {}, offset: {}, expected: {}, mode: {:?}",
            test.1, offset, test.0, test.2
        );
    }
}

#[test]
fn offsets_saturate_at_the_extremes() {
    assert_eq!(offset_value_for_ppb_offset(i32::MAX, OffsetMode::Normal), 127);
    assert_eq!(offset_value_for_ppb_offset(i32::MIN, OffsetMode::Normal), -128);
    assert_eq!(offset_value_for_ppb_offset(i32::MAX, OffsetMode::Fast), 127);
    assert_eq!(offset_value_for_ppb_offset(i32::MIN, OffsetMode::Fast), -128);
}

#[test]
fn offsets_round_half_away_from_zero() {
    // 1085 ppb is exactly half a normal step
    assert_eq!(offset_value_for_ppb_offset(1085, OffsetMode::Normal), 1);
    assert_eq!(offset_value_for_ppb_offset(-1085, OffsetMode::Normal), -1);
    assert_eq!(offset_value_for_ppb_offset(1084, OffsetMode::Normal), 0);
    assert_eq!(offset_value_for_ppb_offset(-1084, OffsetMode::Normal), 0);
    // 3 * 2170 ppb
    assert_eq!(offset_value_for_ppb_offset(6510, OffsetMode::Normal), 3);
}

#[test]
fn offset_per_step_values() {
    assert_eq!(OffsetMode::Normal.offset_per_step(), 21700);
    assert_eq!(OffsetMode::Fast.offset_per_step(), 20345);
}
