use modbus_impl::rng::{u8_to_bool, xorshift32_next};
use modbus_impl::{FrameLen4Func, Random, SEED_INIT};

#[test]
fn frame_len_of_fixed_functions() {
    for func in 1u8..=6 {
        assert_eq!(FrameLen4Func(func, &[0x01, func], 2), Some(8));
    }
}

#[test]
fn frame_len_waits_for_byte_count() {
    assert_eq!(FrameLen4Func(0x0F, &[0x11, 0x0F, 0, 3, 0, 10], 6), None);
    assert_eq!(FrameLen4Func(0x0F, &[0x11, 0x0F, 0, 3, 0, 10, 2], 7), Some(11));
    assert_eq!(FrameLen4Func(0x10, &[0x11, 0x10, 0, 1, 0, 2, 4], 7), Some(13));
}

#[test]
fn frame_len_of_unknown_function() {
    assert_eq!(FrameLen4Func(0x07, &[0x01, 0x07, 0, 0, 0, 0, 0, 0], 8), None);
    assert_eq!(FrameLen4Func(0x00, &[], 0), None);
}

#[test]
fn xorshift_step() {
    let mut seed = 1u32;
    assert_eq!(xorshift32_next(&mut seed), 0x0004_2021);
    assert_eq!(seed, 0x0004_2021);
}

#[test]
fn random_sequence_from_initial_seed() {
    let mut seed = SEED_INIT;
    assert_eq!(Random(&mut seed, 250, 350), 338);
    assert_eq!(seed, 0x8798_5AA5);
    assert_eq!(Random(&mut seed, 480, 330), 409);
    assert_eq!(Random(&mut seed, 5, 5), 5);
}

#[test]
fn random_stays_in_range() {
    let mut seed = SEED_INIT;
    for _ in 0..1000 {
        let v = Random(&mut seed, 10, 3);
        assert!((3..=10).contains(&v));
    }
    for _ in 0..1000 {
        let _ = Random(&mut seed, 0, u16::MAX);
    }
}

#[test]
fn byte_to_bool() {
    assert!(!u8_to_bool(0));
    assert!(u8_to_bool(1));
    assert!(u8_to_bool(0xFF));
}
