use entanglement_rs::text::{append_decimal, append_digit, append_signed, parse_i32, parse_unsigned};

fn decimal(n: u128) -> String {
    let mut out = String::new();
    append_decimal(&mut out, n);
    out
}

fn signed(n: i32) -> String {
    let mut out = String::new();
    append_signed(&mut out, n);
    out
}

#[test]
fn decimal_digits() {
    for n in [0u128, 9, 10, 11, 99, 100, 12345, u64::MAX as u128, u128::MAX] {
        assert_eq!(decimal(n), n.to_string());
    }
    let mut out = String::from("a");
    for d in 0..10u8 {
        append_digit(&mut out, d);
    }
    assert_eq!(out, "a0123456789");
}

#[test]
fn signed_numbers() {
    for n in [0, 5, -5, i32::MAX, i32::MIN, -10] {
        assert_eq!(signed(n), n.to_string());
    }
}

#[test]
fn unsigned_numbers_are_read_as_the_standard_library_reads_them() {
    let texts = [
        "", "+", "-", "0", "+0", "-0", "7", "+7", "007", "65535", "65536", "+65535", "1_000", " 1",
        "1 ", "1.0", "12a", "a", "++1", "+-1", "99999999999999999999", "18446744073709551615",
        "18446744073709551616", "٣", "１",
    ];
    for t in texts {
        assert_eq!(parse_unsigned(t, u16::MAX as u64), t.parse::<u16>().ok().map(|v| v as u64), "{:?}", t);
        assert_eq!(parse_unsigned(t, u64::MAX), t.parse::<u64>().ok(), "{:?}", t);
    }
}

#[test]
fn signed_numbers_are_read_as_the_standard_library_reads_them() {
    let texts = [
        "", "+", "-", "0", "+0", "-0", "-1", "+1", "--1", "2147483647", "2147483648",
        "-2147483648", "-2147483649", "- 1", "-x", "1", "-00012",
    ];
    for t in texts {
        assert_eq!(parse_i32(t), t.parse::<i32>().ok(), "{:?}", t);
    }
}

#[test]
fn numbers_are_read_back() {
    for n in [0u64, 1, 9, 10, 65535, 65536, u64::MAX] {
        assert_eq!(parse_unsigned(&decimal(n as u128), u64::MAX), Some(n));
    }
    assert_eq!(parse_unsigned(&decimal(65536), 65535), None);
}
