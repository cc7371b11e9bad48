use nibble_codec::build_int_buf;
use nibble_codec::types::{get_type, BOOLEAN, EXTENDED, INT_NEG, INT_POS};

fn compact(m: u64) -> Vec<u8> {
    let mut buf = [0xAAu8; 8];
    let len = build_int_buf(m, &mut buf);
    buf[..len].to_vec()
}

fn be_value(bytes: &[u8]) -> u64 {
    let mut v: u64 = 0;
    for b in bytes {
        v = (v << 8) | (*b as u64);
    }
    v
}

#[test]
fn compact_zero_is_one_zero_byte() {
    assert_eq!(compact(0), vec![0x00]);
}

#[test]
fn compact_max_is_eight_ff_bytes() {
    assert_eq!(compact(u64::MAX), vec![0xFF; 8]);
}

#[test]
fn compact_exact_values() {
    assert_eq!(compact(0x1234), vec![0x12, 0x34]);
    assert_eq!(compact(0xFF), vec![0xFF]);
    assert_eq!(compact(0x100), vec![0x01, 0x00]);
    assert_eq!(compact(0x0102030405060708), vec![1, 2, 3, 4, 5, 6, 7, 8]);
    assert_eq!(compact(1u64 << 56), vec![1, 0, 0, 0, 0, 0, 0, 0]);
}

#[test]
fn compact_round_trips() {
    let samples: [u64; 12] = [
        0, 1, 0x7F, 0xFF, 0x100, 0xFFFF, 0x10000, 0x1234_5678,
        0xFFFF_FFFF, 0x1_0000_0000, 0x00FF_FFFF_FFFF_FFFF, u64::MAX,
    ];
    for m in samples {
        let bytes = compact(m);
        assert!(!bytes.is_empty() && bytes.len() <= 8);
        assert_eq!(be_value(&bytes), m);
        assert!(m == 0 || bytes[0] != 0);
    }
}

#[test]
fn header_type_nibble() {
    assert_eq!(get_type(0x11), BOOLEAN);
    assert_eq!(get_type(0x28), INT_POS);
    assert_eq!(get_type(0x30), INT_NEG);
    assert_eq!(get_type(0xFF), EXTENDED);
    assert_eq!(get_type(0x0F), 0);
}
