use modbus_impl::{crc16_modbus, Coil, FrameLen4Func, Hreg, Ireg, Ists, ModbusCtx};

struct Stores {
    h: Hreg<10>,
    i: Ireg<4>,
    c: Coil<20>,
    d: Ists<4>,
}

fn stores() -> Stores {
    Stores { h: Hreg::new(), i: Ireg::new(), c: Coil::new(), d: Ists::new() }
}

fn frame(s: &mut Stores, req: &[u8]) -> Vec<u8> {
    let mut ctx = ModbusCtx { holdings: &mut s.h, inputs: &mut s.i, coils: &mut s.c, ists: &mut s.d };
    let mut tx = [0u8; 37];
    let mut ex = [0u8; 5];
    let n = ctx.pharse_frame::<16>(req, &mut tx, &mut ex);
    if n == 5 {
        ex.to_vec()
    } else {
        tx[..n].to_vec()
    }
}

const REQUESTS: [&[u8]; 10] = [
    &[0x01, 0x06, 0x00, 0x02, 0xBE, 0xEF, 0x18, 0x26],
    &[0x01, 0x03, 0x00, 0x02, 0x00, 0x01, 0x25, 0xCA],
    &[0x01, 0x05, 0x00, 0x01, 0xFF, 0x00, 0xDD, 0xFA],
    &[0x01, 0x01, 0x00, 0x01, 0x00, 0x01, 0xAC, 0x0A],
    &[0x11, 0x10, 0x00, 0x01, 0x00, 0x02, 0x04, 0x00, 0x0A, 0x01, 0x02, 0xC6, 0xF0],
    &[0x11, 0x0F, 0x00, 0x03, 0x00, 0x0A, 0x02, 0xCD, 0x01, 0xBD, 0x9B],
    &[0x11, 0x08, 0x00, 0x03, 0x00, 0x0A, 0x92, 0x9C],
    &[0x01, 0x03, 0x00, 0x00, 0x00, 0x11, 0x85, 0xC6],
    &[0x01, 0x06, 0x00, 0x02, 0xBE, 0xEF, 0x00, 0x00],
    &[0x05, 0x03, 0x01],
];

#[test]
fn law_register_write_then_read() {
    let mut s = stores();
    frame(&mut s, &[0x01, 0x06, 0x00, 0x02, 0xBE, 0xEF, 0x18, 0x26]);
    let resp = frame(&mut s, &[0x01, 0x03, 0x00, 0x02, 0x00, 0x01, 0x25, 0xCA]);
    assert_eq!(resp, vec![0x01, 0x03, 0x02, 0xBE, 0xEF, 0x88, 0x68]);
}

#[test]
fn law_coil_write_then_read() {
    let mut s = stores();
    frame(&mut s, &[0x01, 0x05, 0x00, 0x01, 0xFF, 0x00, 0xDD, 0xFA]);
    let resp = frame(&mut s, &[0x01, 0x01, 0x00, 0x01, 0x00, 0x01, 0xAC, 0x0A]);
    assert_eq!(resp, vec![0x01, 0x01, 0x01, 0x01, 0x90, 0x48]);
    frame(&mut s, &[0x01, 0x05, 0x00, 0x01, 0x00, 0x00, 0x9C, 0x0A]);
    let resp = frame(&mut s, &[0x01, 0x01, 0x00, 0x01, 0x00, 0x01, 0xAC, 0x0A]);
    assert_eq!(&resp[..4], &[0x01, 0x01, 0x01, 0x00]);
}

#[test]
fn law_registers_write_then_read() {
    let mut s = stores();
    frame(&mut s, &[0x11, 0x10, 0x00, 0x01, 0x00, 0x02, 0x04, 0x00, 0x0A, 0x01, 0x02, 0xC6, 0xF0]);
    let resp = frame(&mut s, &[0x11, 0x03, 0x00, 0x01, 0x00, 0x02, 0x97, 0x5B]);
    // the register bytes come back exactly as they were written
    assert_eq!(resp, vec![0x11, 0x03, 0x04, 0x00, 0x0A, 0x01, 0x02, 0x4B, 0xA1]);
}

#[test]
fn law_coils_write_then_read() {
    let mut s = stores();
    frame(&mut s, &[0x11, 0x0F, 0x00, 0x03, 0x00, 0x0A, 0x02, 0xCD, 0x01, 0xBD, 0x9B]);
    let resp = frame(&mut s, &[0x11, 0x01, 0x00, 0x03, 0x00, 0x0A, 0x4E, 0x9D]);
    // the coil bytes come back exactly as they were written
    assert_eq!(resp, vec![0x11, 0x01, 0x02, 0xCD, 0x01, 0xED, 0x6F]);
}

#[test]
fn law_answers_carry_crc() {
    let mut s = stores();
    for req in REQUESTS.iter() {
        let resp = frame(&mut s, req);
        let n = resp.len();
        let crc = crc16_modbus(&resp[..n - 2]);
        assert_eq!(resp[n - 2], (crc & 0xFF) as u8);
        assert_eq!(resp[n - 1], (crc >> 8) as u8);
        assert_eq!(crc16_modbus(&resp), 0);
    }
}

#[test]
fn law_exceptions_keep_stores() {
    let mut s = stores();
    frame(&mut s, &[0x11, 0x10, 0x00, 0x01, 0x00, 0x02, 0x04, 0x00, 0x0A, 0x01, 0x02, 0xC6, 0xF0]);
    let regs = s.h.as_slice().to_vec();
    let coils = s.c.as_bits().to_vec();
    for req in REQUESTS[6..].iter() {
        let resp = frame(&mut s, req);
        assert_eq!(resp.len(), 5);
        assert_eq!(resp[1] & 0x80, 0x80);
        assert_eq!(s.h.as_slice(), &regs[..]);
        assert_eq!(s.c.as_bits(), &coils[..]);
    }
}

#[test]
fn law_reads_keep_stores() {
    let mut s = stores();
    frame(&mut s, &[0x01, 0x06, 0x00, 0x02, 0xBE, 0xEF, 0x18, 0x26]);
    let regs = s.h.as_slice().to_vec();
    let coils = s.c.as_bits().to_vec();
    frame(&mut s, &[0x01, 0x03, 0x00, 0x02, 0x00, 0x01, 0x25, 0xCA]);
    frame(&mut s, &[0x01, 0x01, 0x00, 0x01, 0x00, 0x01, 0xAC, 0x0A]);
    assert_eq!(s.h.as_slice(), &regs[..]);
    assert_eq!(s.c.as_bits(), &coils[..]);
}

#[test]
fn law_frame_len_agrees() {
    let mut s = stores();
    for req in REQUESTS[..6].iter() {
        let resp = frame(&mut s, req);
        assert!(resp.len() != 5);
        assert_eq!(FrameLen4Func(req[1], req, req.len()), Some(req.len()));
    }
}

#[test]
fn law_bad_crc_refused() {
    let mut s = stores();
    let resp = frame(&mut s, &[0x01, 0x06, 0x00, 0x02, 0xBE, 0xEF, 0x00, 0x00]);
    assert_eq!(resp, vec![0x01, 0x86, 0x03, 0x02, 0x61]);
    assert_eq!(s.h.as_slice()[2], 0);
}
