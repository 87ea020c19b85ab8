use thunderborg::frame::{Frame, I2C_MAX_LEN};

#[test]
fn frame_is_opcode_then_arguments() {
    assert_eq!(Frame::encode(0x01, &[10, 20, 30]).as_slice(), &[0x01, 10, 20, 30]);
    assert_eq!(Frame::encode(0x0E, &[0]).as_slice(), &[0x0E, 0]);
}

#[test]
fn frame_without_arguments_is_the_opcode() {
    assert_eq!(Frame::encode(0x99, &[]).as_slice(), &[0x99]);
}

#[test]
fn frame_holds_a_full_transfer() {
    let frame = Frame::encode(7, &[1, 2, 3, 4, 5]);
    assert_eq!(frame.as_slice().len(), I2C_MAX_LEN);
    assert_eq!(frame.as_slice(), &[7, 1, 2, 3, 4, 5]);
}

#[test]
fn frames_with_the_same_bytes_are_equal() {
    assert_eq!(Frame::encode(1, &[2, 3]), Frame::encode(1, &[2, 3]));
    assert_ne!(Frame::encode(1, &[2, 3]), Frame::encode(1, &[2]));
}
