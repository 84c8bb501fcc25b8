use num_bigint::BigInt;
use share_interp::decode::{decode_value, digit_value, DecodeError};
use share_interp::integer::Int;
use share_interp::records::decode_y_value;

fn as_big(v: &Int) -> BigInt {
    BigInt::from_signed_bytes_le(&v.bytes)
}

#[test]
fn decodes_hex_ff() {
    let v = decode_value("ff", 16).unwrap();
    assert_eq!(as_big(&v), BigInt::from(255));
}

#[test]
fn decodes_binary_111() {
    let v = decode_value("111", 2).unwrap();
    assert_eq!(as_big(&v), BigInt::from(7));
}

#[test]
fn decodes_base36_z() {
    let v = decode_value("z", 36).unwrap();
    assert_eq!(as_big(&v), BigInt::from(35));
}

#[test]
fn decodes_upper_case_digits() {
    let v = decode_value("FF", 16).unwrap();
    assert_eq!(as_big(&v), BigInt::from(255));
}

#[test]
fn decodes_octal_15_as_13() {
    let v = decode_value("15", 8).unwrap();
    assert_eq!(as_big(&v), BigInt::from(13));
}

#[test]
fn decodes_empty_as_zero() {
    let v = decode_value("", 10).unwrap();
    assert_eq!(as_big(&v), BigInt::from(0));
}

#[test]
fn decodes_beyond_machine_words() {
    let s = "zzzzzzzzzzzzzzzzzzzzzzzzzzzzzz";
    let v = decode_value(s, 36).unwrap();
    assert_eq!(as_big(&v), BigInt::parse_bytes(s.as_bytes(), 36).unwrap());
}

#[test]
fn rejects_digit_outside_radix() {
    assert_eq!(decode_value("12", 2).unwrap_err(), DecodeError::InvalidDigit);
    assert_eq!(decode_value("1g", 16).unwrap_err(), DecodeError::InvalidDigit);
    assert_eq!(decode_value("1 2", 10).unwrap_err(), DecodeError::InvalidDigit);
}

#[test]
fn rejects_radix_out_of_range() {
    assert_eq!(decode_value("1", 1).unwrap_err(), DecodeError::InvalidRadix);
    assert_eq!(decode_value("1", 37).unwrap_err(), DecodeError::InvalidRadix);
    assert_eq!(decode_value("", 0).unwrap_err(), DecodeError::InvalidRadix);
}

#[test]
fn round_trips_every_radix() {
    let samples: Vec<BigInt> = vec![
        BigInt::from(0),
        BigInt::from(1),
        BigInt::from(35),
        BigInt::from(123456789u64),
        BigInt::parse_bytes(b"98765432109876543210987654321", 10).unwrap(),
    ];
    for base in 2u32..=36 {
        for v in &samples {
            let text = v.to_str_radix(base);
            let back = decode_value(&text, base).unwrap();
            assert_eq!(&as_big(&back), v);
        }
    }
}

#[test]
fn digit_values() {
    assert_eq!(digit_value('0'), 0);
    assert_eq!(digit_value('9'), 9);
    assert_eq!(digit_value('a'), 10);
    assert_eq!(digit_value('Z'), 35);
    assert_eq!(digit_value('-'), 36);
}

#[test]
fn decode_y_value_reads_u32() {
    assert_eq!(decode_y_value("ff", 16).unwrap(), 255);
    assert_eq!(decode_y_value("+7", 10).unwrap(), 7);
    assert_eq!(decode_y_value("4294967295", 10).unwrap(), u32::MAX);
    assert!(decode_y_value("4294967296", 10).is_err());
    assert!(decode_y_value("", 10).is_err());
    assert!(decode_y_value("2", 2).is_err());
}
