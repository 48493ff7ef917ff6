use modbus_impl::{build_exception_resp, build_resp_bit_reads, BitRead, Coil};

#[test]
fn exception_response_bytes() {
    let mut out = [0u8; 5];
    let n = build_exception_resp(&mut out, 0x01, 0x83, 0x02);
    assert_eq!(n, 5);
    assert_eq!(out, [0x01, 0x83, 0x02, 0xC0, 0xF1]);
}

#[test]
fn exception_response_keeps_rest_of_buffer() {
    let mut out = [0xAAu8; 8];
    let n = build_exception_resp(&mut out, 0x07, 0x80, 0x03);
    assert_eq!(n, 5);
    assert_eq!(out, [0x07, 0x80, 0x03, 0xE1, 0xC0, 0xAA, 0xAA, 0xAA]);
}

fn every_third() -> Coil<20> {
    let mut c: Coil<20> = Coil::new();
    for a in 0..20u16 {
        if a % 3 == 0 {
            c.set_bit(a, true);
        }
    }
    c
}

#[test]
fn bit_read_packs_lsb_first() {
    let c = every_third();
    let mut out = [0xFFu8; 16];
    let n = build_resp_bit_reads::<16, _>(&mut out, 0x01, 0x01, 2, 10, &c);
    assert_eq!(n, 7);
    assert_eq!(&out[..7], &[0x01, 0x01, 0x02, 0x92, 0x00, 0xD4, 0x9C]);
    assert_eq!(&out[7..], &[0xFF; 9]);
}

/// A bit store that reports every address as set, so that wrapped addresses
/// can be seen.
struct AllOn;

impl BitRead for AllOn {
    fn bit_value(&self, addr: u16) -> bool {
        self.get(addr)
    }
    fn bit_valid(&self, addr: u16) -> bool {
        self.is_valid(addr)
    }
    fn get(&self, addr: u16) -> bool {
        addr >= 0xFFFE || addr <= 1
    }
    fn is_valid(&self, _addr: u16) -> bool {
        true
    }
}

#[test]
fn bit_read_addresses_wrap() {
    let mut out = [0u8; 6];
    // addresses 0xFFFD, 0xFFFE, 0xFFFF, 0x0000, 0x0001, 0x0002
    let n = build_resp_bit_reads::<16, _>(&mut out, 0x02, 0x02, 0xFFFD, 6, &AllOn);
    assert_eq!(n, 6);
    assert_eq!(out[3], 0b0001_1110);
}
