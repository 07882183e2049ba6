use open_rc2k::logging::{is_logged_at, log, log_variable, sub_402112, sub_40204a, LogState};
use open_rc2k::utils::number::parse_int_hooked;

fn format_number(a1: u32, a2: u8) -> String {
    let mut s = String::new();
    sub_40204a(a1, a2, &mut s);
    s
}

#[test]
fn sub_402112_adds_quotient_and_returns_remainder() {
    let mut digit = 0x30u8;
    assert_eq!(sub_402112(123, 10, &mut digit), 3);
    assert_eq!(digit, 0x30 + 12);
    let mut wrapping = 250u8;
    assert_eq!(sub_402112(10, 1, &mut wrapping), 0);
    assert_eq!(wrapping, 4);
}

#[test]
fn number_without_leading_zeros() {
    assert_eq!(format_number(12345, 0), "12345");
    assert_eq!(format_number(7, 0), "7");
    assert_eq!(format_number(u32::MAX, 0), "4294967295");
    assert_eq!(format_number(1000000000, 0), "1000000000");
}

#[test]
fn number_width_is_ignored_without_flags() {
    assert_eq!(format_number(5, 11), "5");
    assert_eq!(format_number(12345, 15), "12345");
    assert_eq!(format_number(12345, 3), "12345");
}

#[test]
fn number_with_fixed_width() {
    assert_eq!(format_number(12345, 16 | 3), "2345");
    assert_eq!(format_number(12345, 16), "5");
    assert_eq!(format_number(12345, 16 | 10), "00000012345");
    assert_eq!(format_number(0, 16 | 2), "000");
}

#[test]
fn number_with_space_padding() {
    assert_eq!(format_number(12345, 32 | 3), "0345");
    assert_eq!(format_number(12005, 32 | 3), "2 05");
    assert_eq!(format_number(5, 32 | 5), "0   05");
}

#[test]
fn number_appends_to_buffer() {
    let mut s = String::from("x=");
    sub_40204a(42, 0, &mut s);
    assert_eq!(s, "x=42");
}

#[test]
fn log_variable_text() {
    assert_eq!(log_variable(7), "7");
    assert_eq!(log_variable(-42), "-42");
    assert_eq!(log_variable(i32::MAX), "2147483647");
    assert_eq!(log_variable(i32::MIN), "-2147483648");
}

#[test]
fn log_variable_reads_back() {
    for v in [1, -1, 9, 10, -305, 123456789, i32::MAX, i32::MIN, -1000000000] {
        assert_eq!(parse_int_hooked(log_variable(v).as_bytes()), v);
    }
}

#[test]
fn log_new_finished_line() {
    let mut state = LogState::new();
    state.is_new_log_line = true;
    state.writing_to_log = true;
    let mut buffer = String::from("abc");
    let r = log(&mut buffer, 1, true, 2, 3, &mut state);
    assert_eq!(buffer, "   abc\r\n\0");
    assert_eq!(r, 8);
    assert!(state.is_new_log_line);
    assert!(!state.writing_to_log);
}

#[test]
fn log_unfinished_line() {
    let mut state = LogState::new();
    let mut buffer = String::from("abc");
    let r = log(&mut buffer, 0, false, 1, 5, &mut state);
    assert_eq!(buffer, "abc \0");
    assert_eq!(r, 4);
    assert!(!state.is_new_log_line);
}

#[test]
fn log_below_level_writes_nothing() {
    let mut state = LogState::new();
    state.is_new_log_line = true;
    state.writing_to_log = true;
    let mut buffer = String::from("abc");
    let r = log(&mut buffer, 2, true, 2, 3, &mut state);
    assert_eq!(buffer, "abc");
    assert_eq!(r, 0);
    assert!(state.is_new_log_line);
    assert!(!state.writing_to_log);
}

#[test]
fn log_indent_is_clamped() {
    let mut state = LogState::new();
    state.is_new_log_line = true;
    let mut buffer = String::from("x");
    log(&mut buffer, 0, true, 1, -5, &mut state);
    assert_eq!(buffer, "x\r\n\0");
    let mut buffer = String::from("x");
    let r = log(&mut buffer, 0, false, 1, 100, &mut state);
    assert_eq!(buffer, format!("{}x \0", " ".repeat(80)));
    assert_eq!(r, 82);
}

#[test]
fn log_counts_bytes() {
    let mut state = LogState::new();
    let mut buffer = String::from("é");
    assert_eq!(log(&mut buffer, 0, false, 1, 0, &mut state), 3);
}

#[test]
fn set_writing_log_only_when_log_file_set() {
    let mut state = LogState::new();
    state.set_writing_log(false);
    assert!(!state.writing_to_log);
    state.set_writing_log(true);
    assert!(state.writing_to_log);
    state.set_writing_log(false);
    assert!(state.writing_to_log);
}

#[test]
fn logged_only_above_the_level() {
    assert!(is_logged_at(2, 1));
    assert!(!is_logged_at(2, 2));
    assert!(!is_logged_at(-1, 0));
}
