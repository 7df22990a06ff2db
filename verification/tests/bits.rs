use pedersen_crh::bytes_to_bits;

#[test]
fn empty_input_has_no_bits() {
    assert_eq!(bytes_to_bits(&[]), Vec::<bool>::new());
}

#[test]
fn bits_come_least_significant_first() {
    assert_eq!(
        bytes_to_bits(&[0b0000_0101]),
        vec![true, false, true, false, false, false, false, false]
    );
    assert_eq!(
        bytes_to_bits(&[0b1000_0000]),
        vec![false, false, false, false, false, false, false, true]
    );
}

#[test]
fn bytes_keep_their_order() {
    let bits = bytes_to_bits(&[0x01, 0x80, 0xff]);
    let mut expected = vec![false; 24];
    expected[0] = true;
    expected[15] = true;
    for slot in expected.iter_mut().skip(16) {
        *slot = true;
    }
    assert_eq!(bits, expected);
}

#[test]
fn every_bit_follows_the_shift_formula() {
    let bytes: Vec<u8> = (0..=255u8).collect();
    let bits = bytes_to_bits(&bytes);
    assert_eq!(bits.len(), 8 * bytes.len());
    for (k, byte) in bytes.iter().enumerate() {
        for j in 0..8 {
            assert_eq!(bits[8 * k + j], (byte >> j) & 1 == 1);
        }
    }
}
