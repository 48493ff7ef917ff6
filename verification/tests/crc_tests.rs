use modbus_impl::crc16_modbus;

#[test]
fn crc_of_read_holding_request() {
    assert_eq!(crc16_modbus(&[0x01, 0x03, 0x00, 0x00, 0x00, 0x0A]), 0xCDC5);
}

#[test]
fn crc_of_empty_input_is_initial_value() {
    assert_eq!(crc16_modbus(&[]), 0xFFFF);
}

#[test]
fn crc_check_value_of_digits() {
    assert_eq!(crc16_modbus(b"123456789"), 0x4B37);
}

#[test]
fn crc_of_exception_body() {
    // 01 83 02 -> C0 F1 on the wire
    assert_eq!(crc16_modbus(&[0x01, 0x83, 0x02]), 0xF1C0);
}

#[test]
fn crc_over_frame_with_its_crc_is_zero() {
    assert_eq!(crc16_modbus(&[0x01, 0x03, 0x00, 0x00, 0x00, 0x0A, 0xC5, 0xCD]), 0);
    assert_eq!(crc16_modbus(&[0x01, 0x83, 0x02, 0xC0, 0xF1]), 0);
}
