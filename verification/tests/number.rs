use open_rc2k::utils::number::parse_int_hooked;

#[test]
fn parse_int_decimal() {
    assert_eq!(parse_int_hooked(b"123"), 123);
    assert_eq!(parse_int_hooked(b"00012"), 12);
    assert_eq!(parse_int_hooked(b"12ab"), 12);
    assert_eq!(parse_int_hooked(b"0"), 0);
}

#[test]
fn parse_int_signs() {
    assert_eq!(parse_int_hooked(b"-42"), -42);
    assert_eq!(parse_int_hooked(b"+7"), 7);
    assert_eq!(parse_int_hooked(b"-2147483648"), i32::MIN);
    assert_eq!(parse_int_hooked(b"-"), 0);
}

#[test]
fn parse_int_hexadecimal_reads_decimal_digits_only() {
    assert_eq!(parse_int_hooked(b"$10"), 16);
    assert_eq!(parse_int_hooked(b"0x10"), 16);
    assert_eq!(parse_int_hooked(b"0x1F"), 1);
    assert_eq!(parse_int_hooked(b"0x"), 0);
    assert_eq!(parse_int_hooked(b"$"), 0);
    assert_eq!(parse_int_hooked(b"-0x10"), 0);
}

#[test]
fn parse_int_no_digits() {
    assert_eq!(parse_int_hooked(b""), 0);
    assert_eq!(parse_int_hooked(b"abc"), 0);
    assert_eq!(parse_int_hooked(b" 5"), 0);
}

#[test]
fn parse_int_stops_at_terminator() {
    assert_eq!(parse_int_hooked(b"12\x0034"), 12);
}

#[test]
fn parse_int_wraps_around() {
    assert_eq!(parse_int_hooked(b"4294967296"), 0);
    assert_eq!(parse_int_hooked(b"2147483648"), i32::MIN);
    assert_eq!(parse_int_hooked(b"99999999999"), 1215752191);
    assert_eq!(parse_int_hooked(b"$100000000"), 0);
}
