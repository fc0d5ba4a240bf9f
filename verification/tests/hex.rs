use toaster::hex::{char_to_digit, digit_to_char, hex_chars_to_u8, u8_to_hex_chars};

const DIGITS: &[u8] = b"0123456789abcdef";

#[test]
fn char_to_digit_reads_all_sixteen_digits() {
    for (value, digit) in DIGITS.iter().enumerate() {
        assert_eq!(char_to_digit(*digit as char), Ok(value as u8));
    }
}

#[test]
fn char_to_digit_refuses_everything_else() {
    for code in 0u32..=0x7f {
        let c = char::from_u32(code).unwrap();
        if !DIGITS.contains(&(code as u8)) {
            assert_eq!(char_to_digit(c), Err(()), "{:?}", c);
        }
    }
    assert_eq!(char_to_digit('A'), Err(()));
    assert_eq!(char_to_digit('F'), Err(()));
    assert_eq!(char_to_digit('g'), Err(()));
    assert_eq!(char_to_digit('z'), Err(()));
    assert_eq!(char_to_digit('/'), Err(()));
    assert_eq!(char_to_digit(':'), Err(()));
    assert_eq!(char_to_digit('`'), Err(()));
    assert_eq!(char_to_digit('\u{ff10}'), Err(()));
}

#[test]
fn hex_chars_to_u8_shifts_the_high_digit() {
    assert_eq!(hex_chars_to_u8(b'0', b'0'), Ok(0x00));
    assert_eq!(hex_chars_to_u8(b'0', b'a'), Ok(0x0a));
    assert_eq!(hex_chars_to_u8(b'a', b'0'), Ok(0xa0));
    assert_eq!(hex_chars_to_u8(b'8', b'0'), Ok(128));
    assert_eq!(hex_chars_to_u8(b'7', b'f'), Ok(127));
    assert_eq!(hex_chars_to_u8(b'f', b'f'), Ok(255));
    assert_eq!(hex_chars_to_u8(b'1', b'2'), Ok(18));
}

#[test]
fn hex_chars_to_u8_refuses_a_bad_digit_on_either_side() {
    assert_eq!(hex_chars_to_u8(b'g', b'0'), Err(()));
    assert_eq!(hex_chars_to_u8(b'0', b'g'), Err(()));
    assert_eq!(hex_chars_to_u8(b'z', b'z'), Err(()));
    assert_eq!(hex_chars_to_u8(b'F', b'F'), Err(()));
    assert_eq!(hex_chars_to_u8(b' ', b'1'), Err(()));
    assert_eq!(hex_chars_to_u8(0xff, b'1'), Err(()));
    assert_eq!(hex_chars_to_u8(b'1', 0x00), Err(()));
}

#[test]
fn hex_pairs_come_back_after_decoding_and_encoding() {
    for c1 in DIGITS {
        for c2 in DIGITS {
            let byte = hex_chars_to_u8(*c1, *c2).unwrap();
            assert_eq!(u8_to_hex_chars(byte), (*c1, *c2));
        }
    }
}

#[test]
fn bytes_come_back_after_encoding_and_decoding() {
    for byte in 0u8..=255 {
        let (c1, c2) = u8_to_hex_chars(byte);
        assert!(DIGITS.contains(&c1));
        assert!(DIGITS.contains(&c2));
        assert_eq!(hex_chars_to_u8(c1, c2), Ok(byte));
    }
}

#[test]
fn every_pair_with_a_stranger_fails() {
    for c1 in 0u8..=255 {
        for c2 in 0u8..=255 {
            let both = DIGITS.contains(&c1) && DIGITS.contains(&c2);
            assert_eq!(hex_chars_to_u8(c1, c2).is_ok(), both);
        }
    }
}

#[test]
fn u8_to_hex_chars_spells_lowercase() {
    assert_eq!(u8_to_hex_chars(0x00), (b'0', b'0'));
    assert_eq!(u8_to_hex_chars(0x09), (b'0', b'9'));
    assert_eq!(u8_to_hex_chars(0x0a), (b'0', b'a'));
    assert_eq!(u8_to_hex_chars(0xab), (b'a', b'b'));
    assert_eq!(u8_to_hex_chars(0xff), (b'f', b'f'));
}

#[test]
fn digit_to_char_spells_values_below_sixteen() {
    for (value, digit) in DIGITS.iter().enumerate() {
        assert_eq!(digit_to_char(value as u8), Ok(*digit as char));
    }
    assert_eq!(digit_to_char(16), Err(()));
    assert_eq!(digit_to_char(255), Err(()));
}
