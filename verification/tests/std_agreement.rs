use open_rc2k::config::ral_cfg::{parse_ral_cfg_entries, RalCfgProperties};
use open_rc2k::utils::number::{parse_i32_radix_chars, skip_hex_prefixes, to_digit};
use open_rc2k::utils::string::{char_is_whitespace, str_chars, trim_bounds};

const SAMPLES: &[&str] = &[
    "", "0", "7", "+7", "-7", "+", "-", "++1", "+-1", "-+1", "12a", "a12", "ff", "FF", "-ff",
    "0x10", "0x0x1F", "0xx1", "2147483647", "2147483648", "-2147483648", "-2147483649",
    "000000000000000000000000000123", "7fffffff", "80000000", "-80000000", "ffffffff",
    " 1", "1 ", "１", "٣", "10000000000", "z", "Z", "g",
];

#[test]
fn decimal_parse_agrees_with_std() {
    for s in SAMPLES {
        let chars = str_chars(s);
        assert_eq!(parse_i32_radix_chars(&chars, 0, chars.len(), 10), s.parse::<i32>().ok(), "{:?}", s);
    }
}

#[test]
fn hexadecimal_parse_agrees_with_std() {
    for s in SAMPLES {
        let chars = str_chars(s);
        assert_eq!(
            parse_i32_radix_chars(&chars, 0, chars.len(), 16),
            i32::from_str_radix(s, 16).ok(),
            "{:?}",
            s
        );
    }
}

#[test]
fn hex_prefixes_agree_with_std() {
    for s in SAMPLES {
        let chars = str_chars(s);
        let k = skip_hex_prefixes(&chars, 0, chars.len());
        let rest: String = chars[k..].iter().collect();
        assert_eq!(rest, s.trim_start_matches("0x"), "{:?}", s);
    }
}

#[test]
fn digits_agree_with_std() {
    for c in ['0', '9', 'a', 'f', 'g', 'z', 'A', 'F', 'Z', '/', ':', '@', '[', '`', '{', 'é'] {
        for radix in [2u32, 10, 16, 36] {
            assert_eq!(to_digit(c, radix), c.to_digit(radix), "{:?} {}", c, radix);
        }
    }
}

#[test]
fn whitespace_agrees_with_std() {
    for u in 0..=0x10FFFFu32 {
        if let Some(c) = char::from_u32(u) {
            assert_eq!(char_is_whitespace(c), c.is_whitespace(), "{:#x}", u);
        }
    }
}

#[test]
fn trim_agrees_with_std() {
    for s in ["", "   ", " a ", "\u{3000}x\u{2028}", "\r\n k=v \t", "a b", "\u{85}\u{a0}z\u{200b}"] {
        let chars = str_chars(s);
        let (a, b) = trim_bounds(&chars, 0, chars.len());
        let trimmed: String = chars[a..b].iter().collect();
        assert_eq!(trimmed, s.trim(), "{:?}", s);
    }
}

#[test]
fn lines_agree_with_std() {
    for s in ["", "\n", "a", "a\n", "a\r\n", "a\r", "\r\n\r\n", "a\nb", "a\n\nb\r\n", "x\ry\n", "\n\n"] {
        let mut p = RalCfgProperties::new();
        let got: Vec<String> = parse_ral_cfg_entries(s, &mut p).into_iter().map(|e| e.line).collect();
        let expected: Vec<String> = s.lines().map(|l| l.to_string()).collect();
        assert_eq!(got, expected, "{:?}", s);
    }
}
