use modbus_impl::{BitRead, Coil, Hreg, Ireg, Ists, ModbusCtx, RegisterRead};

#[test]
fn coil_read_with_large_quantity_bound() {
    let mut h: Hreg<4> = Hreg::new();
    let mut i: Ireg<4> = Ireg::new();
    let mut c: Coil<1200> = Coil::new();
    let mut d: Ists<4> = Ists::new();
    c.set_bit(0, true);
    c.set_bit(999, true);
    let mut ctx = ModbusCtx { holdings: &mut h, inputs: &mut i, coils: &mut c, ists: &mut d };
    let mut tx = vec![0u8; 5 + 2 * 2000];
    let mut ex = [0u8; 5];
    let n = ctx.pharse_pdu::<2000>(&[0x01, 0x01, 0x00, 0x00, 0x03, 0xE8, 0x3C, 0xB4], &mut tx, &mut ex);
    assert_eq!(n, 130);
    assert_eq!(&tx[..4], &[0x01, 0x01, 0x7D, 0x01]);
    assert_eq!(&tx[126..130], &[0x00, 0x80, 0x67, 0x16]);
}

#[test]
fn single_write_with_large_quantity_bound() {
    let mut h: Hreg<4> = Hreg::new();
    let mut i: Ireg<4> = Ireg::new();
    let mut c: Coil<4> = Coil::new();
    let mut d: Ists<4> = Ists::new();
    let mut ctx = ModbusCtx { holdings: &mut h, inputs: &mut i, coils: &mut c, ists: &mut d };
    let mut tx = vec![0u8; 5 + 2 * 2000];
    let mut ex = [0u8; 5];
    let req = [0x01, 0x06, 0x00, 0x01, 0x12, 0x34, 0xD5, 0x7D];
    let n = ctx.pharse_frame::<2000>(&req, &mut tx, &mut ex);
    assert_eq!(n, 8);
    assert_eq!(&tx[..8], &req);
    assert_eq!(RegisterRead::get(&h, 1), 0x1234);
    assert!(!BitRead::get(&c, 1));
}
