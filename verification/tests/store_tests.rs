use modbus_impl::{BitRead, BitWrite, Coil, Hreg, Ireg, Ists, RegisterRead, RegisterWrite};

#[test]
fn coil_new_is_all_off() {
    let c: Coil<8> = Coil::new();
    assert_eq!(c.as_bits(), &[false; 8]);
    for a in 0..8u16 {
        assert!(!BitRead::get(&c, a));
    }
}

#[test]
fn coil_set_then_get() {
    let mut c: Coil<8> = Coil::new();
    c.set_bit(3, true);
    assert!(BitRead::get(&c, 3));
    assert!(!BitRead::get(&c, 2));
    c.set_bit(3, false);
    assert!(!BitRead::get(&c, 3));
}

#[test]
fn coil_write_outside_is_ignored() {
    let mut c: Coil<8> = Coil::new();
    c.set_bit(8, true);
    assert_eq!(c.as_bits(), &[false; 8]);
    assert!(!BitRead::get(&c, 8));
    assert!(!BitRead::is_valid(&c, 8));
    assert!(BitRead::is_valid(&c, 7));
}

#[test]
fn coil_qty_is_recorded_or_clamped() {
    let mut c: Coil<8> = Coil::new();
    assert_eq!(c.get_qty(), 0);
    c.set_qty(5);
    assert_eq!(c.get_qty(), 5);
    c.set_qty(8);
    assert_eq!(c.get_qty(), 7);
    BitWrite::set_qty(&mut c, 300);
    assert_eq!(BitWrite::get_qty(&mut c), 7);
}

#[test]
fn ists_set_then_get() {
    let mut d: Ists<4> = Ists::new();
    d.set_bit(0, true);
    d.set_bit(9, true);
    assert!(d.get(0));
    assert!(!d.get(1));
    assert!(!d.get(9));
    assert!(d.is_valid(3));
    assert!(!d.is_valid(4));
}

#[test]
fn ireg_set_then_get() {
    let mut r: Ireg<4> = Ireg::new();
    assert_eq!(r.get(2), 0);
    r.set(2, 0xBEEF);
    r.set(4, 1);
    assert_eq!(r.get(2), 0xBEEF);
    assert_eq!(r.get(4), 0);
    assert!(r.is_valid(3));
    assert!(!r.is_valid(4));
}

#[test]
fn hreg_set_then_get() {
    let mut h: Hreg<3> = Hreg::new();
    assert_eq!(h.as_slice(), &[0, 0, 0]);
    h.set(1, 500);
    h.set(3, 9);
    assert_eq!(RegisterRead::get(&h, 1), 500);
    assert_eq!(RegisterRead::get(&h, 3), 0);
    assert_eq!(h.as_slice(), &[0, 500, 0]);
    RegisterWrite::set_reg(&mut h, 2, 7);
    assert_eq!(h.as_slice(), &[0, 500, 7]);
}

#[test]
fn hreg_qty_is_recorded_or_clamped() {
    let mut h: Hreg<3> = Hreg::new();
    h.set_qty(2);
    assert_eq!(h.get_qty(), 2);
    RegisterWrite::set_qty(&mut h, 3);
    assert_eq!(RegisterWrite::get_qty(&mut h), 2);
    h.set_qty(0);
    assert_eq!(h.get_qty(), 0);
}
