//! The Modbus RTU CRC16.
use vstd::prelude::*;

verus! {

/// The reflected Modbus CRC polynomial.
pub const CRC_POLY: u16 = 0xA001;

/// One shift step of the CRC register.
pub open spec fn crc_shift(crc: u16) -> u16 {
    if crc & 1 != 0 {
        ((crc >> 1u16) ^ 0xA001u16) as u16
    } else {
        crc >> 1u16
    }
}

/// `n` shift steps of the CRC register.
pub open spec fn crc_shifts(crc: u16, n: nat) -> u16
    decreases n,
{
    if n == 0 {
        crc
    } else {
        crc_shift(crc_shifts(crc, (n - 1) as nat))
    }
}

/// Folds one byte into the CRC register.
pub open spec fn crc_byte(crc: u16, b: u8) -> u16 {
    crc_shifts(crc ^ (b as u16), 8)
}

/// Modbus CRC16 (initial value 0xFFFF, polynomial 0xA001) of a byte sequence.
pub open spec fn crc16(data: Seq<u8>) -> u16
    decreases data.len(),
{
    if data.len() == 0 {
        0xFFFFu16
    } else {
        crc_byte(crc16(data.drop_last()), data.last())
    }
}

/// Computes the Modbus RTU CRC16 of `data`.
pub fn crc16_modbus(data: &[u8]) -> (crc: u16)
    ensures
        crc == crc16(data@),
{
    let mut crc: u16 = 0xFFFF;
    let mut i: usize = 0;
    while i < data.len()
        invariant
            i <= data.len(),
            crc == crc16(data@.take(i as int)),
        decreases data.len() - i,
    {
        let b = data[i];
        crc ^= b as u16;
        let ghost start = crc;
        let mut k: usize = 0;
        while k < 8
            invariant
                k <= 8,
                crc == crc_shifts(start, k as nat),
            decreases 8 - k,
        {
            if (crc & 0x0001) != 0 {
                crc = (crc >> 1) ^ CRC_POLY;
            } else {
                crc >>= 1;
            }
            k += 1;
        }
        assert(data@.take(i + 1).drop_last() =~= data@.take(i as int));
        i += 1;
    }
    assert(data@.take(data.len() as int) =~= data@);
    crc
}


/// Folding a CRC value into itself, low byte first, gives 0.
pub proof fn lemma_crc_residue(c: u16)
    ensures
        crc_byte(crc_byte(c, (c & 0xFFu16) as u8), (c >> 8u16) as u8) == 0,
{
    reveal_with_fuel(crc_shifts, 9);
    let a0: u16 = c ^ ((c & 0xFFu16) as u8 as u16);
    let a1: u16 = crc_shift(a0);
    let a2: u16 = crc_shift(a1);
    let a3: u16 = crc_shift(a2);
    let a4: u16 = crc_shift(a3);
    let a5: u16 = crc_shift(a4);
    let a6: u16 = crc_shift(a5);
    let a7: u16 = crc_shift(a6);
    let a8: u16 = crc_shift(a7);
    let b0: u16 = a8 ^ ((c >> 8u16) as u8 as u16);
    let b1: u16 = crc_shift(b0);
    let b2: u16 = crc_shift(b1);
    let b3: u16 = crc_shift(b2);
    let b4: u16 = crc_shift(b3);
    let b5: u16 = crc_shift(b4);
    let b6: u16 = crc_shift(b5);
    let b7: u16 = crc_shift(b6);
    let b8: u16 = crc_shift(b7);
    assert(b8 == 0) by (bit_vector)
        requires
            a0 == c ^ ((c & 0xFFu16) as u8 as u16),
            a1 == crc_shift(a0),
            a2 == crc_shift(a1),
            a3 == crc_shift(a2),
            a4 == crc_shift(a3),
            a5 == crc_shift(a4),
            a6 == crc_shift(a5),
            a7 == crc_shift(a6),
            a8 == crc_shift(a7),
            b0 == a8 ^ ((c >> 8u16) as u8 as u16),
            b1 == crc_shift(b0),
            b2 == crc_shift(b1),
            b3 == crc_shift(b2),
            b4 == crc_shift(b3),
            b5 == crc_shift(b4),
            b6 == crc_shift(b5),
            b7 == crc_shift(b6),
            b8 == crc_shift(b7),
    ;
}

/// The CRC of a message followed by its own CRC, low byte first, is 0.
pub proof fn law_crc_residue(data: Seq<u8>)
    ensures
        crc16(data.push((crc16(data) & 0xFFu16) as u8).push((crc16(data) >> 8u16) as u8)) == 0,
{
    let c = crc16(data);
    let d1 = data.push((c & 0xFFu16) as u8);
    let d2 = d1.push((c >> 8u16) as u8);
    assert(d2.drop_last() =~= d1);
    assert(d1.drop_last() =~= data);
    assert(crc16(d1) == crc_byte(c, (c & 0xFFu16) as u8));
    assert(crc16(d2) == crc_byte(crc16(d1), (c >> 8u16) as u8));
    lemma_crc_residue(c);
}

} // verus!
