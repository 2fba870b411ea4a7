use trackpad_core::report::{clamp_axis, encode, MouseReport, TRACKPAD_REPORT_ID};

#[test]
fn button_packing() {
    assert_eq!(encode(true, false, 0, 0).buttons, 0b0000_0001);
    assert_eq!(encode(false, true, 0, 0).buttons, 0b0000_0010);
    assert_eq!(encode(true, true, 0, 0).buttons, 0b0000_0011);
    assert_eq!(encode(false, false, 0, 0).buttons, 0b0000_0000);
}

#[test]
fn axes_saturate_at_signed_byte_range() {
    let r = encode(false, false, 200, -500);
    assert_eq!(r.x, 127);
    assert_eq!(r.y, -128);
    assert_eq!(clamp_axis(128), 127);
    assert_eq!(clamp_axis(-129), -128);
    assert_eq!(clamp_axis(i64::MAX), 127);
    assert_eq!(clamp_axis(i64::MIN), -128);
}

#[test]
fn in_range_axes_are_left_unchanged() {
    let r = encode(true, false, 64, -100);
    assert_eq!(r.x, 64);
    assert_eq!(r.y, -100);
    // re-encoding already clamped axes changes nothing
    let again = encode(true, false, r.x as i64, r.y as i64);
    assert_eq!(again, r);
    let edge = encode(false, true, 127, -128);
    assert_eq!(edge.x, 127);
    assert_eq!(edge.y, -128);
}

#[test]
fn wheel_is_always_zero() {
    assert_eq!(encode(true, true, 500, -500).wheel, 0);
    assert_eq!(encode(false, false, 0, 0).wheel, 0);
}

#[test]
fn wire_image_is_four_bytes_in_order() {
    let r = MouseReport { buttons: 0x03, x: 40, y: -1, wheel: 0 };
    assert_eq!(r.to_bytes(), vec![0x03, 0x28, 0xff, 0x00]);
    let plain = encode(true, false, 5, -6);
    assert_eq!(plain.to_bytes(), vec![0x01, 0x05, 0xfa, 0x00]);
    assert_eq!(TRACKPAD_REPORT_ID, 0x01);
}
