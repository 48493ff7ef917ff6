use modbus_impl::{Coil, FrameAssembler, Hreg, Ireg, Ists, ModbusCtx};

struct Stores {
    h: Hreg<10>,
    i: Ireg<4>,
    c: Coil<20>,
    d: Ists<4>,
}

fn stores() -> Stores {
    Stores { h: Hreg::new(), i: Ireg::new(), c: Coil::new(), d: Ists::new() }
}

/// Feeds `bytes` one at a time and collects every answer.
fn feed<const CAP: usize>(acc: &mut FrameAssembler<CAP>, s: &mut Stores, bytes: &[u8]) -> Vec<Vec<u8>> {
    let mut ctx = ModbusCtx { holdings: &mut s.h, inputs: &mut s.i, coils: &mut s.c, ists: &mut s.d };
    let mut tx = [0u8; 37];
    let mut ex = [0u8; 5];
    let mut all = Vec::new();
    for &b in bytes {
        all.extend(acc.receive::<16, _, _, _, _>(&mut ctx, b, &mut tx, &mut ex));
    }
    all
}

const WRITE_REG: [u8; 8] = [0x01, 0x06, 0x00, 0x02, 0xBE, 0xEF, 0x18, 0x26];
const WRITE_REGS: [u8; 13] = [0x11, 0x10, 0x00, 0x01, 0x00, 0x02, 0x04, 0x00, 0x0A, 0x01, 0x02, 0xC6, 0xF0];

#[test]
fn frame_is_answered_when_complete() {
    let mut acc: FrameAssembler<64> = FrameAssembler::new();
    let mut s = stores();
    let replies = feed(&mut acc, &mut s, &WRITE_REG[..7]);
    assert!(replies.is_empty());
    assert_eq!(acc.len(), 7);
    let replies = feed(&mut acc, &mut s, &WRITE_REG[7..]);
    assert_eq!(replies, vec![WRITE_REG.to_vec()]);
    assert_eq!(acc.len(), 0);
    assert_eq!(s.h.as_slice()[2], 0xBEEF);
}

#[test]
fn leading_garbage_is_skipped() {
    let mut acc: FrameAssembler<64> = FrameAssembler::new();
    let mut s = stores();
    // neither 0x98 nor 0x11 is a supported function code, so the bytes in
    // front of the frame are dropped one by one
    let mut bytes = vec![0x99, 0x98];
    bytes.extend_from_slice(&WRITE_REGS);
    let replies = feed(&mut acc, &mut s, &bytes);
    assert_eq!(replies, vec![vec![0x11, 0x10, 0x00, 0x01, 0x00, 0x02, 0x12, 0x98]]);
    assert_eq!(acc.len(), 0);
}

#[test]
fn garbage_before_a_supported_code_is_taken_as_a_frame() {
    let mut acc: FrameAssembler<64> = FrameAssembler::new();
    let mut s = stores();
    // 0x01 after the stray byte looks like a function code, so eight bytes
    // from the stray byte on are answered (here with a CRC error)
    let mut bytes = vec![0x42];
    bytes.extend_from_slice(&WRITE_REG);
    let replies = feed(&mut acc, &mut s, &bytes);
    assert_eq!(replies, vec![vec![0x42, 0x81, 0x03, 0xF1, 0x85]]);
    assert_eq!(acc.len(), 1);
}

#[test]
fn variable_length_frame_waits_for_all_bytes() {
    let mut acc: FrameAssembler<64> = FrameAssembler::new();
    let mut s = stores();
    let replies = feed(&mut acc, &mut s, &WRITE_REGS[..12]);
    assert!(replies.is_empty());
    let replies = feed(&mut acc, &mut s, &WRITE_REGS[12..]);
    assert_eq!(replies, vec![vec![0x11, 0x10, 0x00, 0x01, 0x00, 0x02, 0x12, 0x98]]);
    assert_eq!(&s.h.as_slice()[1..3], &[0x000A, 0x0102]);
}

#[test]
fn back_to_back_frames() {
    let mut acc: FrameAssembler<64> = FrameAssembler::new();
    let mut s = stores();
    let mut bytes = WRITE_REGS.to_vec();
    bytes.extend_from_slice(&WRITE_REG);
    let replies = feed(&mut acc, &mut s, &bytes);
    assert_eq!(replies.len(), 2);
    assert_eq!(replies[1], WRITE_REG.to_vec());
}

#[test]
fn full_buffer_is_dropped() {
    let mut acc: FrameAssembler<4> = FrameAssembler::new();
    let mut s = stores();
    // a frame that can never fit: the fifth byte finds the buffer full
    let replies = feed(&mut acc, &mut s, &WRITE_REG[..5]);
    assert!(replies.is_empty());
    assert_eq!(acc.len(), 0);
}

#[test]
fn fixed_eight_byte_requests() {
    let mut acc: FrameAssembler<64> = FrameAssembler::new();
    let mut s = stores();
    let mut ctx = ModbusCtx { holdings: &mut s.h, inputs: &mut s.i, coils: &mut s.c, ists: &mut s.d };
    let mut tx = [0u8; 37];
    let mut ex = [0u8; 5];
    let mut all = Vec::new();
    for &b in WRITE_REG.iter().chain([0x01u8, 0x03].iter()) {
        all.extend(acc.receive_pdu::<16, _, _, _, _>(&mut ctx, b, &mut tx, &mut ex));
    }
    assert_eq!(all, vec![WRITE_REG.to_vec()]);
    assert_eq!(acc.len(), 2);
}
