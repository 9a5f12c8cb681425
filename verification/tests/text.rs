use riscv_mutator::text::{parse_radix_u32, push_dec, push_hex16, str_eq};

#[test]
fn renders_decimal() {
    let mut s = String::new();
    push_dec(&mut s, 0);
    s.push_str("|");
    push_dec(&mut s, 409);
    s.push_str("|");
    push_dec(&mut s, u64::MAX);
    assert_eq!(s, "0|409|18446744073709551615");
}

#[test]
fn renders_sixteen_hex_digits() {
    let mut s = String::new();
    push_hex16(&mut s, 0);
    s.push_str("|");
    push_hex16(&mut s, 0xdeadbeef);
    assert_eq!(s, "0000000000000000|00000000deadbeef");
}

#[test]
fn parses_decimal_and_hex() {
    assert_eq!(parse_radix_u32("0", 10), Some(0));
    assert_eq!(parse_radix_u32("123", 10), Some(123));
    assert_eq!(parse_radix_u32("4294967295", 10), Some(u32::MAX));
    assert_eq!(parse_radix_u32("4294967296", 10), None);
    assert_eq!(parse_radix_u32("", 10), None);
    assert_eq!(parse_radix_u32("12a", 10), None);
    assert_eq!(parse_radix_u32("ff", 16), Some(255));
    assert_eq!(parse_radix_u32("FF", 16), Some(255));
    assert_eq!(parse_radix_u32("ffffffff", 16), Some(u32::MAX));
    assert_eq!(parse_radix_u32("100000000", 16), None);
    assert_eq!(parse_radix_u32("U", 16), None);
}

#[test]
fn compares_strings_by_characters() {
    assert!(str_eq("", ""));
    assert!(str_eq("addi", "addi"));
    assert!(!str_eq("addi", "add"));
    assert!(!str_eq("add", "sub"));
}
