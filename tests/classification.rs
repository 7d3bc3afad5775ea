use sleep_detection::float_bits::float_bits_less;
use sleep_detection::nul_text::nul_terminated_bytes;
use sleep_detection::state::{
    detect_sleep, detect_sleep_internal, detect_state, StateLabel, SLEEP_THRESHOLD_BITS,
};

fn label_of(intensity: f32) -> &'static str {
    detect_sleep_internal(intensity.to_bits())
}

fn buffer_of(intensity: f32) -> Vec<u8> {
    detect_sleep(intensity.to_bits())
}

#[test]
fn scenario_inputs() {
    assert_eq!(label_of(0.0), "SLEEPING");
    assert_eq!(label_of(1.0), "AWAKE");
    assert_eq!(label_of(0.2), "AWAKE");
    assert_eq!(label_of(-5.0), "SLEEPING");
    assert_eq!(buffer_of(0.0), b"SLEEPING\0".to_vec());
    assert_eq!(buffer_of(1.0), b"AWAKE\0".to_vec());
    assert_eq!(buffer_of(0.2), b"AWAKE\0".to_vec());
    assert_eq!(buffer_of(-5.0), b"SLEEPING\0".to_vec());
}

#[test]
fn threshold_is_point_two() {
    assert_eq!(SLEEP_THRESHOLD_BITS, 0.2f32.to_bits());
}

#[test]
fn boundary_values() {
    assert_eq!(detect_state(0.2f32.to_bits()), StateLabel::Awake);
    assert_eq!(detect_state(0.19999999f32.to_bits()), StateLabel::Sleeping);
    assert_eq!(detect_state(SLEEP_THRESHOLD_BITS - 1), StateLabel::Sleeping);
    assert_eq!(detect_state(SLEEP_THRESHOLD_BITS + 1), StateLabel::Awake);
}

#[test]
fn finite_below_threshold_sleeps() {
    for x in [0.1999f32, 0.1, 0.0, -0.0, -0.2, -1.0e30, f32::MIN, f32::MIN_POSITIVE, 1.0e-45] {
        assert_eq!(detect_state(x.to_bits()), StateLabel::Sleeping, "{}", x);
        assert_eq!(label_of(x), "SLEEPING");
        assert_eq!(buffer_of(x), b"SLEEPING\0".to_vec());
    }
}

#[test]
fn finite_at_or_above_threshold_wakes() {
    for x in [0.2f32, 0.2001, 0.5, 1.0, 3.0e38, f32::MAX] {
        assert_eq!(detect_state(x.to_bits()), StateLabel::Awake, "{}", x);
        assert_eq!(label_of(x), "AWAKE");
        assert_eq!(buffer_of(x), b"AWAKE\0".to_vec());
    }
}

#[test]
fn non_finite_inputs() {
    assert_eq!(label_of(f32::NAN), "AWAKE");
    assert_eq!(label_of(-f32::NAN), "AWAKE");
    assert_eq!(detect_state(0x7f80_0001), StateLabel::Awake);
    assert_eq!(detect_state(0xffff_ffff), StateLabel::Awake);
    assert_eq!(label_of(f32::INFINITY), "AWAKE");
    assert_eq!(label_of(f32::NEG_INFINITY), "SLEEPING");
}

#[test]
fn buffer_reads_back_as_label() {
    for x in [0.0f32, 1.0] {
        let buffer = buffer_of(x);
        let end = buffer.iter().position(|&b| b == 0).unwrap();
        assert_eq!(end, buffer.len() - 1);
        assert_eq!(&buffer[..end], label_of(x).as_bytes());
    }
}

#[test]
fn successive_buffers_are_independent() {
    let mut first = buffer_of(0.0);
    let second = buffer_of(0.0);
    assert_eq!(first, second);
    first[0] = b'X';
    assert_eq!(second, b"SLEEPING\0".to_vec());
    drop(first);
    assert_eq!(second, b"SLEEPING\0".to_vec());
}

#[test]
fn label_text_and_buffer() {
    assert_eq!(StateLabel::Sleeping.as_str(), "SLEEPING");
    assert_eq!(StateLabel::Awake.as_str(), "AWAKE");
    assert_eq!(StateLabel::Sleeping.to_nul_terminated(), b"SLEEPING\0".to_vec());
    assert_eq!(StateLabel::Awake.to_nul_terminated(), b"AWAKE\0".to_vec());
}

#[test]
fn nul_terminated_bytes_frames_text() {
    assert_eq!(nul_terminated_bytes("abc"), Some(b"abc\0".to_vec()));
    assert_eq!(nul_terminated_bytes(""), Some(vec![0u8]));
    assert_eq!(nul_terminated_bytes("\u{e9}"), Some(vec![0xc3u8, 0xa9, 0]));
}

#[test]
fn nul_terminated_bytes_refuses_interior_nul() {
    assert_eq!(nul_terminated_bytes("a\0b"), None);
    assert_eq!(nul_terminated_bytes("\0"), None);
}

#[test]
fn float_less_matches_native_comparison() {
    let specials: [u32; 14] = [
        0x0000_0000, 0x8000_0000, 0x0000_0001, 0x8000_0001, 0x007f_ffff, 0x0080_0000,
        0x3e4c_cccd, 0x7f7f_ffff, 0x7f80_0000, 0xff80_0000, 0x7fc0_0000, 0xffc0_0000,
        0x7f80_0001, 0xbf80_0000,
    ];
    for &a in specials.iter() {
        for &b in specials.iter() {
            let native = f32::from_bits(a) < f32::from_bits(b);
            assert_eq!(float_bits_less(a, b), native, "{:#x} < {:#x}", a, b);
        }
    }
    let mut state: u64 = 0x2545_f491_4f6c_dd1d;
    for _ in 0..20000 {
        state = state.wrapping_mul(6364136223846793005).wrapping_add(1442695040888963407);
        let a = (state >> 32) as u32;
        state = state.wrapping_mul(6364136223846793005).wrapping_add(1442695040888963407);
        let b = (state >> 32) as u32;
        let native = f32::from_bits(a) < f32::from_bits(b);
        assert_eq!(float_bits_less(a, b), native, "{:#x} < {:#x}", a, b);
    }
}
