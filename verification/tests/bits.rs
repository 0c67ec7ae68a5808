use tftool::bits::{get_bit, get_bits};

#[test]
fn test_get_bits() {
    assert_eq!(get_bits(&[0xabcd], 0, 3), 0xd);
    assert_eq!(get_bits(&[0xabcd], 4, 7), 0xc);
    assert_eq!(get_bits(&[0xabcd], 8, 11), 0xb);
    assert_eq!(get_bits(&[0xabcd], 12, 15), 0xa);
}

#[test]
fn test_get_bits_word_boundary() {
    // bit 31 of word 0 and bit 0 of word 1, read as one two-bit field
    assert_eq!(get_bits(&[0x8000_0000, 0x1], 31, 32), 0b11);
    // a byte straddling the boundary: high nibble from word 0, low from word 1
    assert_eq!(get_bits(&[0xf000_0000, 0x0000_000a], 28, 35), 0xaf);
}

#[test]
fn test_get_bits_full_width() {
    // a full 64-bit field across two words
    assert_eq!(get_bits(&[0xdead_beef, 0x0123_4567], 0, 63), 0x0123_4567_dead_beef);
}

#[test]
fn test_get_bits_single_bit() {
    assert_eq!(get_bits(&[0x4], 2, 2), 1);
    assert_eq!(get_bits(&[0x4], 3, 3), 0);
}

#[test]
fn test_get_bit() {
    assert_eq!(get_bit(0x5, 0), 1);
    assert_eq!(get_bit(0x5, 1), 0);
    assert_eq!(get_bit(0x5, 2), 1);
    assert_eq!(get_bit(0x8000_0000, 31), 1);
}

#[test]
fn test_get_bits_result_below_width_bound() {
    // the result of a w-bit extraction is always below 2^w
    let words = [0xffff_ffff, 0xffff_ffff];
    for w in 1..=16u16 {
        let v = get_bits(&words, 3, 3 + w - 1);
        assert!(v < (1u64 << w));
    }
}
