use modbus_impl::{BitRead, Coil, Hreg, Ireg, Ists, ModbusCtx, RegisterRead};

struct Stores {
    h: Hreg<4>,
    i: Ireg<4>,
    c: Coil<20>,
    d: Ists<4>,
}

fn stores() -> Stores {
    let mut h: Hreg<4> = Hreg::new();
    for (a, v) in [10u16, 0x1234, 0xABCD, 7].iter().enumerate() {
        h.set(a as u16, *v);
    }
    let mut i: Ireg<4> = Ireg::new();
    for a in 0..4u16 {
        i.set(a, a + 1);
    }
    let mut c: Coil<20> = Coil::new();
    for a in 0..20u16 {
        if a % 3 == 0 {
            c.set_bit(a, true);
        }
    }
    let mut d: Ists<4> = Ists::new();
    d.set_bit(0, true);
    d.set_bit(2, true);
    d.set_bit(3, true);
    Stores { h, i, c, d }
}

/// Serves one eight-byte request and returns the bytes sent back.
fn pdu(s: &mut Stores, req: [u8; 8]) -> Vec<u8> {
    let mut ctx = ModbusCtx { holdings: &mut s.h, inputs: &mut s.i, coils: &mut s.c, ists: &mut s.d };
    let mut tx = [0u8; 37];
    let mut ex = [0u8; 5];
    let n = ctx.pharse_pdu::<16>(&req, &mut tx, &mut ex);
    if n == 5 {
        ex.to_vec()
    } else {
        tx[..n].to_vec()
    }
}

/// Serves one request frame of any length and returns the bytes sent back.
fn frame(s: &mut Stores, req: &[u8]) -> Vec<u8> {
    let mut ctx = ModbusCtx { holdings: &mut s.h, inputs: &mut s.i, coils: &mut s.c, ists: &mut s.d };
    let mut tx = [0u8; 37];
    let mut ex = [0u8; 5];
    let n = ctx.pharse_frame::<16>(req, &mut tx, &mut ex);
    if n == 5 {
        ex.to_vec()
    } else {
        tx[..n].to_vec()
    }
}

#[test]
fn read_holding_registers() {
    let mut s = stores();
    let resp = pdu(&mut s, [0x01, 0x03, 0x00, 0x01, 0x00, 0x03, 0x54, 0x0B]);
    assert_eq!(resp, vec![0x01, 0x03, 0x06, 0x12, 0x34, 0xAB, 0xCD, 0x00, 0x07, 0x63, 0xDA]);
}

#[test]
fn read_input_registers() {
    let mut s = stores();
    let resp = pdu(&mut s, [0x01, 0x04, 0x00, 0x00, 0x00, 0x04, 0xF1, 0xC9]);
    assert_eq!(
        resp,
        vec![0x01, 0x04, 0x08, 0x00, 0x01, 0x00, 0x02, 0x00, 0x03, 0x00, 0x04, 0xBC, 0xCE]
    );
}

#[test]
fn read_coils() {
    let mut s = stores();
    let resp = pdu(&mut s, [0x01, 0x01, 0x00, 0x02, 0x00, 0x0A, 0x1D, 0xCD]);
    assert_eq!(resp, vec![0x01, 0x01, 0x02, 0x92, 0x00, 0xD4, 0x9C]);
}

#[test]
fn read_discrete_inputs() {
    let mut s = stores();
    let resp = pdu(&mut s, [0x01, 0x02, 0x00, 0x00, 0x00, 0x04, 0x79, 0xC9]);
    assert_eq!(resp, vec![0x01, 0x02, 0x01, 0x0D, 0x60, 0x4D]);
}

#[test]
fn write_single_coil_on() {
    let mut s = stores();
    assert!(!s.c.get(1));
    let req = [0x01, 0x05, 0x00, 0x01, 0xFF, 0x00, 0xDD, 0xFA];
    let resp = pdu(&mut s, req);
    assert_eq!(resp, req.to_vec());
    assert!(s.c.get(1));
}

#[test]
fn write_single_coil_bad_value() {
    let mut s = stores();
    let resp = pdu(&mut s, [0x01, 0x05, 0x00, 0x01, 0x12, 0x34, 0x91, 0x7D]);
    assert_eq!(resp, vec![0x01, 0x85, 0x03, 0x02, 0x91]);
    assert!(!s.c.get(1));
}

#[test]
fn write_single_coil_bad_address() {
    let mut s = stores();
    let resp = pdu(&mut s, [0x01, 0x05, 0x00, 0x14, 0xFF, 0x00, 0xCC, 0x3E]);
    assert_eq!(resp, vec![0x01, 0x85, 0x02, 0xC3, 0x51]);
}

#[test]
fn write_single_register() {
    let mut s = stores();
    let req = [0x01, 0x06, 0x00, 0x02, 0xBE, 0xEF, 0x18, 0x26];
    let resp = pdu(&mut s, req);
    assert_eq!(resp, req.to_vec());
    assert_eq!(RegisterRead::get(&s.h, 2), 0xBEEF);
}

#[test]
fn quantity_zero_is_illegal_value() {
    let mut s = stores();
    let resp = pdu(&mut s, [0x01, 0x03, 0x00, 0x00, 0x00, 0x00, 0x45, 0xCA]);
    assert_eq!(resp, vec![0x01, 0x83, 0x03, 0x01, 0x31]);
}

#[test]
fn quantity_above_max_is_illegal_value() {
    let mut s = stores();
    let resp = pdu(&mut s, [0x01, 0x03, 0x00, 0x00, 0x00, 0x11, 0x85, 0xC6]);
    assert_eq!(resp, vec![0x01, 0x83, 0x03, 0x01, 0x31]);
}

#[test]
fn range_past_store_is_illegal_address() {
    let mut s = stores();
    let resp = pdu(&mut s, [0x01, 0x03, 0x00, 0x02, 0x00, 0x03, 0xA4, 0x0B]);
    assert_eq!(resp, vec![0x01, 0x83, 0x02, 0xC0, 0xF1]);
}

#[test]
fn unknown_function_is_illegal_function() {
    let mut s = stores();
    let resp = pdu(&mut s, [0x01, 0x07, 0x00, 0x00, 0x00, 0x01, 0x75, 0xCA]);
    assert_eq!(resp, vec![0x01, 0x87, 0x01, 0x82, 0x30]);
}

#[test]
fn bad_crc_is_illegal_value_and_changes_nothing() {
    let mut s = stores();
    let resp = pdu(&mut s, [0x01, 0x06, 0x00, 0x02, 0xBE, 0xEF, 0x00, 0x00]);
    assert_eq!(resp, vec![0x01, 0x86, 0x03, 0x02, 0x61]);
    assert_eq!(RegisterRead::get(&s.h, 2), 0xABCD);
}

#[test]
fn exception_leaves_tx_buffer_alone() {
    let mut s = stores();
    let mut ctx = ModbusCtx { holdings: &mut s.h, inputs: &mut s.i, coils: &mut s.c, ists: &mut s.d };
    let mut tx = [0x55u8; 37];
    let mut ex = [0u8; 5];
    let n = ctx.pharse_pdu::<16>(&[0x01, 0x07, 0x00, 0x00, 0x00, 0x01, 0x75, 0xCA], &mut tx, &mut ex);
    assert_eq!(n, 5);
    assert_eq!(tx, [0x55u8; 37]);
}

#[test]
fn short_frame_is_illegal_value() {
    let mut s = stores();
    assert_eq!(frame(&mut s, &[0x05, 0x03, 0x01]), vec![0x05, 0x80, 0x03, 0x40, 0x00]);
    assert_eq!(frame(&mut s, &[]), vec![0x00, 0x80, 0x03, 0x50, 0x01]);
}

#[test]
fn write_multiple_coils() {
    let mut s = stores();
    let resp = frame(
        &mut s,
        &[0x11, 0x0F, 0x00, 0x03, 0x00, 0x0A, 0x02, 0xCD, 0x01, 0xBD, 0x9B],
    );
    assert_eq!(resp, vec![0x11, 0x0F, 0x00, 0x03, 0x00, 0x0A, 0x27, 0x5C]);
    let expect = [true, false, true, true, false, false, true, true, true, false];
    for j in 0..10u16 {
        assert_eq!(s.c.get(3 + j), expect[j as usize]);
    }
    assert_eq!(s.c.get_qty(), 10);
}

#[test]
fn write_multiple_registers() {
    let mut s = stores();
    let resp = frame(
        &mut s,
        &[0x11, 0x10, 0x00, 0x01, 0x00, 0x02, 0x04, 0x00, 0x0A, 0x01, 0x02, 0xC6, 0xF0],
    );
    assert_eq!(resp, vec![0x11, 0x10, 0x00, 0x01, 0x00, 0x02, 0x12, 0x98]);
    assert_eq!(s.h.as_slice(), &[10, 0x000A, 0x0102, 7]);
    assert_eq!(s.h.get_qty(), 2);
}

#[test]
fn write_multiple_coils_wrong_byte_count() {
    let mut s = stores();
    let resp = frame(&mut s, &[0x11, 0x0F, 0x00, 0x03, 0x00, 0x0A, 0x01, 0xCD, 0xDB, 0xCC]);
    assert_eq!(resp, vec![0x11, 0x8F, 0x03, 0x05, 0xF4]);
}

#[test]
fn write_multiple_registers_wrong_byte_count() {
    let mut s = stores();
    let resp = frame(
        &mut s,
        &[0x11, 0x10, 0x00, 0x01, 0x00, 0x02, 0x03, 0x00, 0x0A, 0x01, 0x43, 0xB3],
    );
    assert_eq!(resp, vec![0x11, 0x90, 0x03, 0x0D, 0xC4]);
    assert_eq!(s.h.as_slice(), &[10, 0x1234, 0xABCD, 7]);
}

#[test]
fn write_multiple_registers_out_of_range() {
    let mut s = stores();
    let resp = frame(
        &mut s,
        &[0x11, 0x10, 0x00, 0x09, 0x00, 0x02, 0x04, 0x00, 0x0A, 0x01, 0x02, 0xC7, 0x56],
    );
    assert_eq!(resp, vec![0x11, 0x90, 0x02, 0xCC, 0x04]);
}

#[test]
fn read_in_nine_bytes_is_illegal_value() {
    let mut s = stores();
    let resp = frame(&mut s, &[0x11, 0x03, 0x00, 0x00, 0x00, 0x01, 0x00, 0x1B, 0xA2]);
    assert_eq!(resp, vec![0x11, 0x83, 0x03, 0x00, 0xF4]);
}

#[test]
fn frame_with_unknown_function() {
    let mut s = stores();
    let resp = frame(&mut s, &[0x11, 0x08, 0x00, 0x03, 0x00, 0x0A, 0x92, 0x9C]);
    assert_eq!(resp, vec![0x11, 0x88, 0x01, 0x86, 0x05]);
}

#[test]
fn frame_with_bad_crc() {
    let mut s = stores();
    let resp = frame(&mut s, &[0x11, 0x0F, 0x00, 0x03, 0x00, 0x0A, 0x02, 0xCD, 0x01, 0x00, 0x00]);
    assert_eq!(resp, vec![0x11, 0x8F, 0x03, 0x05, 0xF4]);
    assert!(s.c.get(3));
}

#[test]
fn eight_byte_frame_goes_through_pdu() {
    let mut s = stores();
    let req = [0x01, 0x03, 0x00, 0x01, 0x00, 0x03, 0x54, 0x0B];
    let via_frame = frame(&mut s, &req);
    let via_pdu = pdu(&mut s, req);
    assert_eq!(via_frame, via_pdu);
}

#[test]
fn response_length_five_only_for_exceptions() {
    let mut s = stores();
    // a one-coil read answers with six bytes
    let resp = pdu(&mut s, [0x01, 0x02, 0x00, 0x00, 0x00, 0x01, 0xB9, 0xCA]);
    assert_eq!(resp.len(), 6);
    assert_eq!(&resp[..4], &[0x01, 0x02, 0x01, 0x01]);
}
