use vstd::prelude::*;
use vstd::arithmetic::div_mod::{
    lemma_add_mod_noop, lemma_mod_add_multiples_vanish, lemma_mul_mod_noop_left, lemma_small_mod,
    lemma_sub_mod_noop_right,
};

verus! {

/// The value of `c` as a digit in `radix` (`char::to_digit`): `0`-`9`, then
/// the letters in either case.
pub open spec fn char_digit(c: char, radix: u32) -> Option<nat> {
    let u = c as u32;
    let d: u32 = if 0x30 <= u <= 0x39 {
        (u - 0x30) as u32
    } else if 0x61 <= u <= 0x7A {
        (u - 0x61 + 10) as u32
    } else if 0x41 <= u <= 0x5A {
        (u - 0x41 + 10) as u32
    } else {
        36
    };
    if d < radix {
        Some(d as nat)
    } else {
        None
    }
}

/// Every character of `s` is a digit in `radix`.
pub open spec fn all_digits(s: Seq<char>, radix: u32) -> bool {
    forall|i: int| 0 <= i < s.len() ==> (#[trigger] char_digit(s[i], radix)) is Some
}

/// The number that the digits `s` spell in `radix`, most significant first.
pub open spec fn digits_value(s: Seq<char>, radix: u32) -> nat
    decreases s.len(),
{
    if s.len() == 0 {
        0
    } else {
        let d: nat = match char_digit(s.last(), radix) {
            Some(d) => d,
            None => 0,
        };
        digits_value(s.drop_last(), radix) * (radix as nat) + d
    }
}

/// What `i32::from_str_radix(s, radix)` gives: an optional `+` or `-`, then
/// at least one digit, and a value that fits in an `i32`.
pub open spec fn parse_i32_radix(s: Seq<char>, radix: u32) -> Option<i32> {
    if s.len() == 0 {
        None
    } else {
        let signed = s[0] == '+' || s[0] == '-';
        let digits = if signed {
            s.drop_first()
        } else {
            s
        };
        if digits.len() == 0 || !all_digits(digits, radix) {
            None
        } else if s[0] == '-' {
            if digits_value(digits, radix) <= 0x8000_0000 {
                Some((0 - digits_value(digits, radix)) as i32)
            } else {
                None
            }
        } else if digits_value(digits, radix) <= 0x7fff_ffff {
            Some(digits_value(digits, radix) as i32)
        } else {
            None
        }
    }
}

/// A prefix of a run of digits is worth no more than the whole run.
pub proof fn lemma_digits_value_prefix(s: Seq<char>, radix: u32, k: int)
    requires
        0 <= k <= s.len(),
        1 <= radix,
    ensures
        digits_value(s.take(k), radix) <= digits_value(s, radix),
    decreases s.len(),
{
    if k < s.len() {
        let v = digits_value(s.drop_last(), radix);
        assert(s.drop_last().take(k) =~= s.take(k));
        lemma_digits_value_prefix(s.drop_last(), radix, k);
        assert(v * radix >= v) by (nonlinear_arith)
            requires
                radix >= 1,
                v >= 0,
        ;
    } else {
        assert(s.take(k) =~= s);
    }
}

/// The value of `c` as a digit in `radix`.
pub fn to_digit(c: char, radix: u32) -> (r: Option<u32>)
    requires
        radix <= 36,
    ensures
        match r {
            Some(d) => char_digit(c, radix) == Some(d as nat),
            None => char_digit(c, radix) is None,
        },
{
    let u = c as u32;
    let d: u32 = if 0x30 <= u && u <= 0x39 {
        u - 0x30
    } else if 0x61 <= u && u <= 0x7A {
        u - 0x61 + 10
    } else if 0x41 <= u && u <= 0x5A {
        u - 0x41 + 10
    } else {
        36
    };
    if d < radix {
        Some(d)
    } else {
        None
    }
}

/// Parses `chars[start..end]` as `i32::from_str_radix` does.
pub fn parse_i32_radix_chars(chars: &Vec<char>, start: usize, end: usize, radix: u32) -> (r: Option<
    i32,
>)
    requires
        start <= end <= chars@.len(),
        2 <= radix <= 36,
    ensures
        r == parse_i32_radix(chars@.subrange(start as int, end as int), radix),
{
    let ghost s = chars@.subrange(start as int, end as int);
    if start == end {
        return None;
    }
    let first = chars[start];
    let signed = first == '+' || first == '-';
    let digits_start = if signed {
        start + 1
    } else {
        start
    };
    let ghost digits = chars@.subrange(digits_start as int, end as int);
    assert(digits =~= (if signed {
        s.drop_first()
    } else {
        s
    }));
    if digits_start == end {
        return None;
    }
    let mut acc: u64 = 0;
    let mut i = digits_start;
    while i < end
        invariant
            digits_start <= i <= end <= chars@.len(),
            2 <= radix <= 36,
            digits == chars@.subrange(digits_start as int, end as int),
            s == chars@.subrange(start as int, end as int),
            s.len() > 0,
            first == s[0],
            signed == (first == '+' || first == '-'),
            digits == (if signed {
                s.drop_first()
            } else {
                s
            }),
            acc <= 0x8000_0000,
            acc == digits_value(digits.take(i - digits_start), radix),
            all_digits(digits.take(i - digits_start), radix),
        decreases end - i,
    {
        let ghost k = i - digits_start;
        match to_digit(chars[i], radix) {
            None => {
                assert(char_digit(digits[k], radix) is None);
                return None;
            },
            Some(d) => {
                assert(digits.take(k + 1).drop_last() =~= digits.take(k));
                assert(acc * (radix as u64) <= 0x8000_0000u64 * 36) by (nonlinear_arith)
                    requires
                        acc <= 0x8000_0000,
                        radix <= 36,
                ;
                acc = acc * (radix as u64) + (d as u64);
                assert(all_digits(digits.take(k + 1), radix)) by {
                    assert forall|j: int| 0 <= j < k + 1 implies (#[trigger] char_digit(
                        digits.take(k + 1)[j],
                        radix,
                    )) is Some by {
                        if j < k {
                            assert(digits.take(k + 1)[j] == digits.take(k)[j]);
                        }
                    }
                }
                if acc > 0x8000_0000 {
                    proof {
                        if all_digits(digits, radix) {
                            lemma_digits_value_prefix(digits, radix, k + 1);
                        }
                    }
                    return None;
                }
            },
        }
        i += 1;
    }
    assert(digits.take(end - digits_start) =~= digits);
    if first == '-' {
        Some((0 - (acc as i64)) as i32)
    } else if acc <= 0x7fff_ffff {
        Some(acc as i32)
    } else {
        None
    }
}


/// `s` without every leading `"0x"` (`str::trim_start_matches("0x")`).
pub open spec fn strip_hex_prefixes(s: Seq<char>) -> Seq<char>
    decreases s.len(),
{
    if s.len() >= 2 && s[0] == '0' && s[1] == 'x' {
        strip_hex_prefixes(s.skip(2))
    } else {
        s
    }
}

/// Where `chars[start..end]` starts once every leading `"0x"` is skipped.
pub fn skip_hex_prefixes(chars: &Vec<char>, start: usize, end: usize) -> (r: usize)
    requires
        start <= end <= chars@.len(),
    ensures
        start <= r <= end,
        chars@.subrange(r as int, end as int) == strip_hex_prefixes(
            chars@.subrange(start as int, end as int),
        ),
{
    let mut k = start;
    while end - k >= 2 && chars[k] == '0' && chars[k + 1] == 'x'
        invariant
            start <= k <= end <= chars@.len(),
            strip_hex_prefixes(chars@.subrange(start as int, end as int)) == strip_hex_prefixes(
                chars@.subrange(k as int, end as int),
            ),
        decreases end - k,
    {
        assert(chars@.subrange(k as int, end as int).skip(2) =~= chars@.subrange(k + 2, end as int));
        k += 2;
    }
    k
}


/// The byte at `i` of a string that ends with a NUL terminator after `s`.
pub open spec fn byte_at(s: Seq<u8>, i: int) -> u8 {
    if 0 <= i < s.len() {
        s[i]
    } else {
        0
    }
}

/// Whether `b` is one of the ASCII digits `0`-`9`.
pub open spec fn is_decimal_digit(b: u8) -> bool {
    0x30 <= b <= 0x39
}

/// Where the run of decimal digits of `s` that starts at `i` ends.
pub open spec fn digit_run_end(s: Seq<u8>, i: int) -> int
    decreases s.len() - i,
{
    if 0 <= i < s.len() && is_decimal_digit(s[i]) {
        digit_run_end(s, i + 1)
    } else {
        i
    }
}

/// The number that the ASCII decimal digits `d` spell when each counts for
/// `base` times the next: most significant first.
pub open spec fn digit_bytes_value(d: Seq<u8>, base: nat) -> nat
    decreases d.len(),
{
    if d.len() == 0 {
        0
    } else {
        digit_bytes_value(d.drop_last(), base) * base + (d.last() - 0x30) as nat
    }
}

/// `x` as an `i32` that wraps around modulo 2^32.
pub open spec fn wrap_i32(x: int) -> i32 {
    let m = x % 0x1_0000_0000;
    if m >= 0x8000_0000 {
        (m - 0x1_0000_0000) as i32
    } else {
        m as i32
    }
}

/// The game's reading of a number at the start of `s`: a `+` or a `-` sign,
/// or a `$` or `0x` that makes the digits hexadecimal; then a run of the
/// digits `0`-`9` only, each worth 16 times the next in hexadecimal and 10
/// times in decimal; no digits read as 0. The sum wraps around as an `i32`.
pub open spec fn game_int_value(s: Seq<u8>) -> i32 {
    let b0 = byte_at(s, 0);
    let b1 = byte_at(s, 1);
    let hex = b0 == 0x24 || (b0 == 0x30 && b1 == 0x78);
    let start: int = if b0 == 0x30 && b1 == 0x78 {
        2
    } else if b0 == 0x2B || b0 == 0x2D || b0 == 0x24 {
        1
    } else {
        0
    };
    let base: nat = if hex {
        16
    } else {
        10
    };
    let v = digit_bytes_value(s.subrange(start, digit_run_end(s, start)), base);
    wrap_i32(
        if b0 == 0x2D {
            -v
        } else {
            v as int
        },
    )
}

proof fn lemma_digit_run_end(s: Seq<u8>, i: int)
    requires
        0 <= i <= s.len(),
    ensures
        i <= digit_run_end(s, i) <= s.len(),
        forall|k: int| i <= k < digit_run_end(s, i) ==> is_decimal_digit(s[k]),
    decreases s.len() - i,
{
    if i < s.len() && is_decimal_digit(s[i]) {
        lemma_digit_run_end(s, i + 1);
    }
}

/// Reads a number at the start of the NUL-terminated string whose bytes
/// before the terminator are `string`, as the game does: see `game_int_value`.
pub fn parse_int_hooked(string: &[u8]) -> (r: i32)
    ensures
        r == game_int_value(string@),
{
    let ghost s = string@;
    let n = string.len();
    let b0: u8 = if n > 0 {
        string[0]
    } else {
        0
    };
    let b1: u8 = if n > 1 {
        string[1]
    } else {
        0
    };
    let mut offset: usize = 0;
    let mut negate_result = false;
    let mut hexadecimal = false;
    if b0 == 0x2B {
        offset = 1;
    }
    if b0 == 0x2D {
        offset = 1;
        negate_result = true;
    }
    if b0 == 0x24 {
        offset = 1;
        hexadecimal = true;
    }
    if b0 == 0x30 && b1 == 0x78 {
        offset = 2;
        hexadecimal = true;
    }
    let base: u32 = if hexadecimal {
        16
    } else {
        10
    };
    proof {
        lemma_digit_run_end(s, offset as int);
    }
    let mut acc: u32 = 0;
    let mut i = offset;
    while i < n && 0x30 <= string[i] && string[i] <= 0x39
        invariant
            s == string@,
            n == s.len(),
            offset <= i <= n,
            base == 10 || base == 16,
            digit_run_end(s, offset as int) == digit_run_end(s, i as int),
            acc as int == digit_bytes_value(s.subrange(offset as int, i as int), base as nat)
                % 0x1_0000_0000,
        decreases n - i,
    {
        let d = (string[i] - 0x30) as u32;
        let ghost v = digit_bytes_value(s.subrange(offset as int, i as int), base as nat);
        assert(s.subrange(offset as int, i + 1).drop_last() =~= s.subrange(offset as int, i as int));
        proof {
            lemma_mul_mod_noop_left(v as int, base as int, 0x1_0000_0000);
            lemma_add_mod_noop(v * base, d as int, 0x1_0000_0000);
            lemma_small_mod(d as nat, 0x1_0000_0000);
            lemma_add_mod_noop(((acc as int) * (base as int)) % 0x1_0000_0000, d as int, 0x1_0000_0000);
            lemma_small_mod((((acc as int) * (base as int)) % 0x1_0000_0000) as nat, 0x1_0000_0000);
        }
        acc = acc.wrapping_mul(base).wrapping_add(d);
        i += 1;
    }
    let ghost v = digit_bytes_value(s.subrange(offset as int, i as int), base as nat);
    let result: u32 = if negate_result {
        proof {
            lemma_sub_mod_noop_right(0, v as int, 0x1_0000_0000);
            if acc > 0 {
                lemma_mod_add_multiples_vanish(0 - acc, 0x1_0000_0000);
                lemma_small_mod((0x1_0000_0000 - acc) as nat, 0x1_0000_0000);
            }
        }
        0u32.wrapping_sub(acc)
    } else {
        acc
    };
    if result > 0x7fff_ffff {
        ((result as i64) - 0x1_0000_0000) as i32
    } else {
        result as i32
    }
}


/// All of `d` are decimal digits.
pub open spec fn all_decimal_digits(d: Seq<u8>) -> bool {
    forall|i: int| 0 <= i < d.len() ==> is_decimal_digit(#[trigger] d[i])
}

proof fn lemma_run_to_end(s: Seq<u8>, i: int)
    requires
        0 <= i <= s.len(),
        forall|k: int| i <= k < s.len() ==> is_decimal_digit(#[trigger] s[k]),
    ensures
        digit_run_end(s, i) == s.len(),
    decreases s.len() - i,
{
    if i < s.len() {
        lemma_run_to_end(s, i + 1);
    }
}

/// The game's reader takes a run of digits as a decimal number, keeps it
/// after a `+` and negates it after a `-`, all modulo 2^32.
pub proof fn lemma_signed_digits(d: Seq<u8>)
    requires
        all_decimal_digits(d),
    ensures
        game_int_value(d) == wrap_i32(digit_bytes_value(d, 10) as int),
        game_int_value(seq![0x2Bu8] + d) == game_int_value(d),
        game_int_value(seq![0x2Du8] + d) == wrap_i32(-digit_bytes_value(d, 10)),
{
    lemma_run_to_end(d, 0);
    assert(d.subrange(0, d.len() as int) =~= d);
    let plus = seq![0x2Bu8] + d;
    let minus = seq![0x2Du8] + d;
    assert forall|k: int| 1 <= k < plus.len() implies is_decimal_digit(#[trigger] plus[k]) by {
        assert(plus[k] == d[k - 1]);
    }
    assert forall|k: int| 1 <= k < minus.len() implies is_decimal_digit(#[trigger] minus[k]) by {
        assert(minus[k] == d[k - 1]);
    }
    lemma_run_to_end(plus, 1);
    lemma_run_to_end(minus, 1);
    assert(plus.subrange(1, plus.len() as int) =~= d);
    assert(minus.subrange(1, minus.len() as int) =~= d);
    if d.len() > 0 {
        assert(is_decimal_digit(d[0]));
    }
}

} // verus!
