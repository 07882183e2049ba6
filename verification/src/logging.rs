use vstd::prelude::*;
use vstd::arithmetic::div_mod::{
    lemma_fundamental_div_mod, lemma_fundamental_div_mod_converse, lemma_mod_breakdown,
    lemma_div_denominator, lemma_mod_mod, lemma_small_mod,
};

use vstd::utf8::encode_utf8;

use crate::utils::number::{digit_bytes_value, digit_run_end, game_int_value, is_decimal_digit, wrap_i32};
use crate::utils::string::{insert_dash, insert_new_line, insert_null_terminator, insert_space, push_char};

verus! {

/// The place value of digit `k` (1 to 10) of the game's number field: digit 1
/// counts billions and digit 10 counts ones.
pub open spec fn place_value(k: int) -> nat {
    if k == 1 {
        1_000_000_000
    } else if k == 2 {
        100_000_000
    } else if k == 3 {
        10_000_000
    } else if k == 4 {
        1_000_000
    } else if k == 5 {
        100_000
    } else if k == 6 {
        10_000
    } else if k == 7 {
        1_000
    } else if k == 8 {
        100
    } else if k == 9 {
        10
    } else {
        1
    }
}

/// The eleven ASCII bytes the game writes a number into: a `'0'`, then the
/// ten decimal digits of `a1`, most significant first.
pub open spec fn decimal_field(a1: u32) -> Seq<u8> {
    Seq::new(
        11,
        |k: int|
            if k == 0 {
                0x30u8
            } else {
                (0x30 + (a1 as nat / place_value(k)) % 10) as u8
            },
    )
}

/// The position of the first byte of `field` at or after `from` that is not `'0'`.
pub open spec fn first_nonzero_digit(field: Seq<u8>, from: int) -> int
    decreases field.len() - from,
{
    if from < field.len() && field[from] == 0x30 {
        first_nonzero_digit(field, from + 1)
    } else {
        from
    }
}

/// The text of `a1` that the game's number formatter appends, for the flags
/// `a2`: its low four bits are a width `w`; with bit 16 set, the last `w + 1`
/// bytes of the field; with bit 32 set instead, the same bytes with the zeros
/// that lead the last `w` digits turned to spaces, save the one just before
/// the first other digit, which is a `'0'`; with neither, the digits of `a1`
/// without leading zeros.
pub open spec fn number_field_bytes(a1: u32, a2: u8) -> Seq<u8> {
    let field = decimal_field(a1);
    let w = (a2 % 16) as int;
    if a2 & 16 != 0 {
        field.subrange(10 - w, 11)
    } else if a2 & 32 != 0 {
        let f = first_nonzero_digit(field, 11 - w);
        Seq::new(
            (w + 1) as nat,
            |j: int|
                {
                    let p = 10 - w + j;
                    if p == f - 1 {
                        0x30u8
                    } else if 11 - w <= p < f - 1 {
                        0x20u8
                    } else {
                        field[p]
                    }
                },
        )
    } else {
        field.subrange(first_nonzero_digit(field, 0), 11)
    }
}

/// The inputs for which the game's number formatter finishes: with bit 16 or
/// bit 32 set, a width of at most ten; with bit 32 alone, also a width of at
/// least one and a digit other than `'0'` among the last `w`; with neither
/// bit, a number other than 0 (the width is then not used).
pub open spec fn number_field_defined(a1: u32, a2: u8) -> bool {
    let w = (a2 % 16) as int;
    &&& (a2 & 16 != 0 || a2 & 32 != 0) ==> w <= 10
    &&& (a2 & 16 == 0 && a2 & 32 != 0) ==> (1 <= w && exists|k: int|
        11 - w <= k < 11 && #[trigger] decimal_field(a1)[k] != 0x30)
    &&& (a2 & 16 == 0 && a2 & 32 == 0) ==> a1 != 0
}

/// ASCII bytes as characters.
pub open spec fn ascii_chars(b: Seq<u8>) -> Seq<char> {
    b.map_values(|x: u8| x as char)
}

/// Adds `a1 / a2` to the digit `a3`, wrapping around as a byte, and returns
/// the remainder `a1 % a2`.
pub fn sub_402112(a1: u32, a2: u32, a3: &mut u8) -> (r: u32)
    requires
        a2 != 0,
    ensures
        *final(a3) == (*old(a3) + a1 / a2) % 256,
        r == a1 % a2,
{
    let q = ((a1 / a2) % 256) as u8;
    *a3 = a3.wrapping_add(q);
    a1 % a2
}

proof fn lemma_next_digit(x: nat, p: nat)
    requires
        p > 0,
    ensures
        (x % (p * 10)) / p == (x / p) % 10,
        (x % (p * 10)) % p == x % p,
{
    lemma_mod_breakdown(x as int, p as int, 10);
    lemma_fundamental_div_mod(x as int, p as int);
    let q = (x / p) % 10;
    let r = x % p;
    assert(x % (p * 10) == q * p + r) by (nonlinear_arith)
        requires
            x % (p * 10) == p * q + r,
    ;
    lemma_fundamental_div_mod_converse(
        (x % (p * 10)) as int,
        p as int,
        q as int,
        r as int,
    );
    lemma_mod_mod(x as int, p as int, 10);
}

/// Writes the eleven bytes of `decimal_field(a1)`.
fn fill_decimal_field(a1: u32) -> (field: Vec<u8>)
    ensures
        field@ == decimal_field(a1),
{
    let mut field: Vec<u8> = vec![0x30u8; 11];
    let divisors: Vec<u32> = vec![
        1_000_000_000u32,
        100_000_000u32,
        10_000_000u32,
        1_000_000u32,
        100_000u32,
        10_000u32,
        1_000u32,
        100u32,
        10u32,
    ];
    let mut remainder = a1;
    let mut k: usize = 1;
    proof {
        lemma_small_mod(a1 as nat, 10_000_000_000);
    }
    while k < 10
        invariant
            1 <= k <= 10,
            field@.len() == 11,
            divisors@ == seq![
                1_000_000_000u32,
                100_000_000u32,
                10_000_000u32,
                1_000_000u32,
                100_000u32,
                10_000u32,
                1_000u32,
                100u32,
                10u32,
            ],
            remainder as nat == (a1 as nat) % (place_value(k as int) * 10),
            field@[0] == 0x30,
            forall|j: int| k <= j < 11 ==> field@[j] == 0x30,
            forall|j: int| 1 <= j < k ==> field@[j] == decimal_field(a1)[j],
        decreases 10 - k,
    {
        assert(divisors@[k - 1] as nat == place_value(k as int));
        let mut digit = field[k];
        let ghost before = remainder;
        remainder = sub_402112(remainder, divisors[k - 1], &mut digit);
        proof {
            lemma_next_digit(a1 as nat, place_value(k as int));
            assert(before as nat / place_value(k as int) == (a1 as nat / place_value(k as int))
                % 10);
            if k > 1 {
                assert(place_value(k as int) * 10 == place_value(k - 1));
            }
            assert(place_value(k as int) == place_value(k + 1) * 10);
        }
        field.set(k, digit);
        k += 1;
    }
    let mut last = field[10];
    proof {
        assert(remainder < 10);
    }
    last = last + (remainder as u8);
    field.set(10, last);
    assert(field@ =~= decimal_field(a1));
    field
}

proof fn lemma_first_nonzero_digit(field: Seq<u8>, from: int)
    requires
        0 <= from <= field.len(),
    ensures
        from <= first_nonzero_digit(field, from) <= field.len(),
        first_nonzero_digit(field, from) < field.len() ==> field[first_nonzero_digit(field, from)]
            != 0x30,
        forall|j: int| from <= j < first_nonzero_digit(field, from) ==> field[j] == 0x30,
        forall|k: int|
            from <= k < field.len() && field[k] != 0x30 ==> first_nonzero_digit(field, from) <= k,
    decreases field.len() - from,
{
    if from < field.len() && field[from] == 0x30 {
        lemma_first_nonzero_digit(field, from + 1);
    }
}

/// Appends the characters of the ASCII bytes `bytes[start..end]` to `buffer`.
fn append_ascii(buffer: &mut String, bytes: &Vec<u8>, start: usize, end: usize)
    requires
        start <= end <= bytes@.len(),
    ensures
        final(buffer)@ == old(buffer)@ + ascii_chars(bytes@.subrange(start as int, end as int)),
{
    let mut i = start;
    while i < end
        invariant
            start <= i <= end <= bytes@.len(),
            buffer@ == old(buffer)@ + ascii_chars(bytes@.subrange(start as int, i as int)),
        decreases end - i,
    {
        push_char(buffer, bytes[i] as char);
        assert(ascii_chars(bytes@.subrange(start as int, i + 1)) =~= ascii_chars(
            bytes@.subrange(start as int, i as int),
        ).push(bytes@[i as int] as char));
        i += 1;
    }
}

/// A number other than 0 has a digit other than `'0'` in its field.
proof fn lemma_nonzero_has_digit(a1: u32)
    requires
        a1 != 0,
    ensures
        exists|k: int| 1 <= k < 11 && #[trigger] decimal_field(a1)[k] != 0x30,
{
    let d = decimal_field(a1);
    let k: int = if a1 >= 1_000_000_000 {
        1
    } else if a1 >= 100_000_000 {
        2
    } else if a1 >= 10_000_000 {
        3
    } else if a1 >= 1_000_000 {
        4
    } else if a1 >= 100_000 {
        5
    } else if a1 >= 10_000 {
        6
    } else if a1 >= 1_000 {
        7
    } else if a1 >= 100 {
        8
    } else if a1 >= 10 {
        9
    } else {
        10
    };
    let q = a1 as nat / place_value(k);
    assert(1 <= q < 10);
    assert(d[k] != 0x30);
}

/// Turns the zeros that lead the last `w` digits of `field` to spaces, and
/// the last of them, or the byte before the window where there is none, to `'0'`.
fn pad_with_spaces(field: &mut Vec<u8>, w: usize, Ghost(a1): Ghost<u32>, Ghost(a2): Ghost<u8>)
    requires
        old(field)@ == decimal_field(a1),
        w == a2 % 16,
        a2 & 16 == 0,
        a2 & 32 != 0,
        number_field_defined(a1, a2),
    ensures
        final(field)@.len() == 11,
        final(field)@.subrange(10 - w, 11) == number_field_bytes(a1, a2),
{
    let ghost d = decimal_field(a1);
    let ghost f = first_nonzero_digit(d, 11 - w);
    proof {
        lemma_first_nonzero_digit(d, 11 - w);
        let k = choose|k: int| 11 - w <= k < 11 && #[trigger] d[k] != 0x30;
        assert(f <= k);
    }
    let mut i: usize = 11 - w;
    while field[i] == 0x30
        invariant
            11 - w <= i <= f,
            d == decimal_field(a1),
            f == first_nonzero_digit(d, 11 - w),
            f < 11,
            1 <= w <= 10,
            field@.len() == 11,
            d[f] != 0x30,
            forall|j: int| 11 - w <= j < f ==> d[j] == 0x30,
            forall|j: int| 11 - w <= j < i ==> field@[j] == 0x20,
            forall|j: int| 0 <= j < 11 && !(11 - w <= j < i) ==> field@[j] == d[j],
        decreases f - i,
    {
        field.set(i, 0x20);
        i += 1;
    }
    assert(i == f) by {
        if i < f {
            assert(field@[i as int] == d[i as int]);
        }
    }
    field.set(i - 1, 0x30);
    let ghost expected = number_field_bytes(a1, a2);
    assert(expected.len() == w + 1);
    assert forall|j: int| 0 <= j < w + 1 implies field@.subrange(10 - w, 11)[j] == expected[j] by {
        let p = 10 - w + j;
        assert(field@.subrange(10 - w, 11)[j] == field@[p]);
        assert(expected[j] == (if p == f - 1 {
            0x30u8
        } else if 11 - w <= p < f - 1 {
            0x20u8
        } else {
            d[p]
        }));
    }
    assert(field@.subrange(10 - w, 11) =~= number_field_bytes(a1, a2));
}

/// The position of the first digit of `field` other than `'0'`.
fn skip_leading_zeros(field: &Vec<u8>, Ghost(a1): Ghost<u32>) -> (index: usize)
    requires
        field@ == decimal_field(a1),
        a1 != 0,
    ensures
        index == first_nonzero_digit(decimal_field(a1), 0),
        index < 11,
{
    let ghost d = decimal_field(a1);
    proof {
        lemma_first_nonzero_digit(d, 0);
        lemma_nonzero_has_digit(a1);
        let k = choose|k: int| 1 <= k < 11 && #[trigger] d[k] != 0x30;
        assert(first_nonzero_digit(d, 0) <= k);
    }
    let mut index: usize = 0;
    while field[index] == 0x30
        invariant
            index <= first_nonzero_digit(d, 0) < 11,
            d == decimal_field(a1),
            field@ == d,
            forall|j: int| 0 <= j < first_nonzero_digit(d, 0) ==> d[j] == 0x30,
            d[first_nonzero_digit(d, 0)] != 0x30,
        decreases 11 - index,
    {
        index += 1;
    }
    index
}

/// The game's number formatter: appends `number_field_bytes(a1, a2)` to `buffer`.
pub fn sub_40204a(a1: u32, a2: u8, buffer: &mut String)
    requires
        number_field_defined(a1, a2),
    ensures
        final(buffer)@ == old(buffer)@ + ascii_chars(number_field_bytes(a1, a2)),
{
    let mut field = fill_decimal_field(a1);
    let w = (a2 & 15) as usize;
    assert(a2 & 15 == a2 % 16) by (bit_vector);
    let index: usize = if a2 & 16 != 0 {
        10 - w
    } else if a2 & 32 != 0 {
        pad_with_spaces(&mut field, w, Ghost(a1), Ghost(a2));
        10 - w
    } else {
        skip_leading_zeros(&field, Ghost(a1))
    };
    append_ascii(buffer, &field, index, 11);
}

/// The magnitude of `value`.
pub open spec fn magnitude(value: i32) -> u32 {
    if value < 0 {
        (0 - value) as u32
    } else {
        value as u32
    }
}

/// The bytes that logging a variable writes for `value`: a dash where it is
/// negative, then the digits of its magnitude without leading zeros.
pub open spec fn variable_bytes(value: i32) -> Seq<u8> {
    let digits = number_field_bytes(magnitude(value), 0);
    if value < 0 {
        seq![0x2Du8] + digits
    } else {
        digits
    }
}

/// The text that logging a variable writes for `value`.
pub open spec fn variable_text(value: i32) -> Seq<char> {
    ascii_chars(variable_bytes(value))
}

/// The text of a logged variable (the game formats 0 with no digit at all and
/// never finishes, so 0 is left out).
pub fn log_variable(value: i32) -> (text: String)
    requires
        value != 0,
    ensures
        text@ == variable_text(value),
{
    let mut text = String::new();
    let magnitude: u32 = if value < 0 {
        insert_dash(&mut text);
        if value == i32::MIN {
            0x8000_0000
        } else {
            (-value) as u32
        }
    } else {
        value as u32
    };
    assert(0u8 & 16 == 0 && 0u8 & 32 == 0) by (bit_vector);
    sub_40204a(magnitude, 0, &mut text);
    assert(text@ =~= variable_text(value));
    text
}

/// The logger's flags.
#[derive(Debug, Clone, Copy, PartialEq, Eq, Structural)]
pub struct LogState {
    /// A log line is being written.
    pub writing_to_log: bool,
    /// The next text starts a new line, so it is indented.
    pub is_new_log_line: bool,
}

/// The number of spaces a new line is indented by: the game's indentation,
/// kept within 0 to 80.
pub open spec fn clamp_indent(indent: i8) -> nat {
    if indent < 0 {
        0
    } else if indent > 80 {
        80
    } else {
        indent as nat
    }
}

/// The line that logging `text` writes: the indentation where it starts a new
/// line, the text, a line break where it finishes the line or else a space,
/// and a NUL terminator.
pub open spec fn log_line(text: Seq<char>, new_line: bool, indent: i8, finished: bool) -> Seq<
    char,
> {
    let spaces: Seq<char> = if new_line {
        Seq::new(clamp_indent(indent), |i: int| ' ')
    } else {
        Seq::empty()
    };
    let end: Seq<char> = if finished {
        seq!['\r', '\n']
    } else {
        seq![' ']
    };
    spaces + text + end + seq!['\0']
}

/// The shape of a logged line. A text that continues a line is written as it
/// stands, finished or not: the line begins with the text itself. A text that
/// starts a new line is preceded by the game's indentation, negative counted
/// as none and at most 80 spaces. Either way the text is followed by `"\r\n"`
/// where it finishes the line and by one space otherwise, then by a NUL.
pub proof fn lemma_log_line_shape(text: Seq<char>, new_line: bool, indent: i8, finished: bool)
    ensures
        ({
            let line = log_line(text, new_line, indent, finished);
            let n: int = if !new_line {
                0
            } else if indent < 0 {
                0
            } else if indent > 80 {
                80
            } else {
                indent as int
            };
            let tail: Seq<char> = if finished {
                seq!['\r', '\n', '\0']
            } else {
                seq![' ', '\0']
            };
            &&& line.len() == n + text.len() + tail.len()
            &&& forall|i: int| 0 <= i < n ==> line[i] == ' '
            &&& line.subrange(n, n + text.len()) == text
            &&& line.skip(n + text.len()) == tail
        }),
        !new_line ==> log_line(text, new_line, indent, finished).take(text.len() as int) == text,
{
    let line = log_line(text, new_line, indent, finished);
    let n: int = if !new_line {
        0
    } else if indent < 0 {
        0
    } else if indent > 80 {
        80
    } else {
        indent as int
    };
    let spaces: Seq<char> = if new_line {
        Seq::new(clamp_indent(indent), |i: int| ' ')
    } else {
        Seq::empty()
    };
    let end: Seq<char> = if finished {
        seq!['\r', '\n']
    } else {
        seq![' ']
    };
    assert(spaces.len() == n);
    assert(line == spaces + text + end + seq!['\0']);
    assert(line.subrange(n, n + text.len()) =~= text);
    assert(line.take(n + text.len()).skip(n) =~= text);
    if finished {
        assert(line.skip(n + text.len()) =~= seq!['\r', '\n', '\0']);
    } else {
        assert(line.skip(n + text.len()) =~= seq![' ', '\0']);
    }
    if !new_line {
        assert(line.take(text.len() as int) =~= text);
    }
}

impl LogState {
    /// Neither flag set.
    pub fn new() -> (r: Self)
        ensures
            !r.writing_to_log,
            !r.is_new_log_line,
    {
        LogState { writing_to_log: false, is_new_log_line: false }
    }

    /// Marks the log as being written when the game's log-file flag is set.
    pub fn set_writing_log(&mut self, log_file: bool)
        ensures
            final(self).writing_to_log == (old(self).writing_to_log || log_file),
            final(self).is_new_log_line == old(self).is_new_log_line,
    {
        if log_file {
            self.writing_to_log = true;
        }
    }
}

/// Prepends `count` spaces to `file_buffer`.
fn indent_line(file_buffer: &mut String, count: u8)
    ensures
        final(file_buffer)@ == Seq::new(count as nat, |i: int| ' ') + old(file_buffer)@,
{
    let mut line = String::new();
    let mut i: u8 = 0;
    while i < count
        invariant
            i <= count,
            line@ == Seq::new(i as nat, |k: int| ' '),
        decreases count - i,
    {
        push_char(&mut line, ' ');
        assert(line@ =~= Seq::new((i + 1) as nat, |k: int| ' '));
        i += 1;
    }
    line.append(file_buffer.as_str());
    *file_buffer = line;
}

/// Whether text at `log_level` is logged where the configured level is
/// `log_file`: exactly when the configured level is above it.
pub fn is_logged_at(log_file: i32, log_level: u8) -> (b: bool)
    ensures
        b == (log_file > log_level),
{
    log_file > log_level as i32
}

/// Logs `file_buffer` at `log_level`. Where the configured level `log_file`
/// is above `log_level` (`is_logged_at`), the buffer becomes the line to write
/// (see `log_line`), the next text starts a new line exactly when this one
/// finished a line, and the result is the line's length in bytes without its
/// terminator; otherwise nothing is written and the result is 0. Either way
/// the log is no longer being written.
pub fn log(
    file_buffer: &mut String,
    log_level: u8,
    finished: bool,
    log_file: i32,
    indent: i8,
    state: &mut LogState,
) -> (r: u32)
    ensures
        log_file > log_level ==> {
            &&& final(file_buffer)@ == log_line(
                old(file_buffer)@,
                old(state).is_new_log_line,
                indent,
                finished,
            )
            &&& final(state).is_new_log_line == finished
            &&& r == (encode_utf8(final(file_buffer)@).len() - 1) as u32
        },
        log_file <= log_level ==> {
            &&& final(file_buffer)@ == old(file_buffer)@
            &&& final(state).is_new_log_line == old(state).is_new_log_line
            &&& r == 0
        },
        !final(state).writing_to_log,
{
    let mut result: u32 = 0;
    if is_logged_at(log_file, log_level) {
        let ghost text = file_buffer@;
        let ghost new_line = state.is_new_log_line;
        if state.is_new_log_line {
            state.is_new_log_line = false;
            let mut spaces_to_add = indent;
            if spaces_to_add < 0 {
                spaces_to_add = 0;
            } else if spaces_to_add > 80 {
                spaces_to_add = 80;
            }
            indent_line(file_buffer, spaces_to_add as u8);
        }
        if finished {
            insert_new_line(file_buffer);
            state.is_new_log_line = true;
        } else {
            insert_space(file_buffer);
        }
        insert_null_terminator(file_buffer);
        assert(file_buffer@ =~= log_line(text, new_line, indent, finished));
        proof {
            let c = file_buffer@;
            assert(c.len() > 0);
            assert(encode_utf8(c) == vstd::utf8::encode_scalar(c[0] as u32) + encode_utf8(
                c.drop_first(),
            ));
            assert(vstd::utf8::encode_scalar(c[0] as u32).len() >= 1);
        }
        let length = file_buffer.as_str().as_bytes().len();
        result = (length - 1) as u32;
    }
    state.writing_to_log = false;
    result
}

/// The first `k` digits of a number's field spell the number divided by the
/// place value of digit `k`.
proof fn lemma_field_prefix_value(a1: u32, k: int)
    requires
        1 <= k <= 10,
    ensures
        digit_bytes_value(decimal_field(a1).subrange(1, k + 1), 10) == a1 as nat / place_value(k),
    decreases k,
{
    let d = decimal_field(a1);
    let x = a1 as nat;
    let p = place_value(k);
    let q = x / p;
    assert(d[k] == (0x30 + q % 10) as u8);
    assert(d[k] - 0x30 == q % 10);
    if k == 1 {
        let one = d.subrange(1, 2);
        assert(one.drop_last() =~= Seq::<u8>::empty());
        assert(one.last() == d[1]);
        assert(digit_bytes_value(one.drop_last(), 10) == 0);
        assert(x / 1_000_000_000 < 10);
        assert(digit_bytes_value(one, 10) == (d[1] - 0x30) as nat);
    } else {
        lemma_field_prefix_value(a1, k - 1);
        let pre = d.subrange(1, k + 1);
        assert(pre.drop_last() =~= d.subrange(1, k));
        assert(pre.last() == d[k]);
        assert(digit_bytes_value(pre, 10) == (x / place_value(k - 1)) * 10 + q % 10);
        assert(place_value(k - 1) == p * 10);
        lemma_div_denominator(x as int, p as int, 10);
        assert(x / place_value(k - 1) == q / 10);
        lemma_fundamental_div_mod(q as int, 10);
        assert(q == 10 * (q / 10) + q % 10);
    }
}

/// Leading zero digits add nothing to a number.
proof fn lemma_leading_zeros(z: Seq<u8>, s: Seq<u8>)
    requires
        forall|i: int| 0 <= i < z.len() ==> z[i] == 0x30,
    ensures
        digit_bytes_value(z + s, 10) == digit_bytes_value(s, 10),
    decreases s.len() + z.len(),
{
    if s.len() == 0 {
        assert(z + s =~= z);
        if z.len() > 0 {
            lemma_leading_zeros(z.drop_last(), s);
            assert(z.drop_last() + s =~= z.drop_last());
        }
    } else {
        assert((z + s).drop_last() =~= z + s.drop_last());
        lemma_leading_zeros(z, s.drop_last());
    }
}

/// A run of digits to the end.
proof fn lemma_digits_to_end(s: Seq<u8>, i: int)
    requires
        0 <= i <= s.len(),
        forall|k: int| i <= k < s.len() ==> is_decimal_digit(s[k]),
    ensures
        digit_run_end(s, i) == s.len(),
    decreases s.len() - i,
{
    if i < s.len() {
        lemma_digits_to_end(s, i + 1);
    }
}

/// The digits of a number other than 0 spell it.
proof fn lemma_number_digits_value(a1: u32)
    requires
        a1 != 0,
    ensures
        number_field_bytes(a1, 0).len() > 0,
        0x31 <= number_field_bytes(a1, 0)[0] <= 0x39,
        forall|k: int| 0 <= k < number_field_bytes(a1, 0).len() ==> is_decimal_digit(
            #[trigger] number_field_bytes(a1, 0)[k],
        ),
        digit_bytes_value(number_field_bytes(a1, 0), 10) == a1,
{
    let d = decimal_field(a1);
    assert(0u8 & 16 == 0 && 0u8 & 32 == 0) by (bit_vector);
    lemma_first_nonzero_digit(d, 0);
    lemma_nonzero_has_digit(a1);
    let k = choose|k: int| 1 <= k < 11 && #[trigger] d[k] != 0x30;
    let f = first_nonzero_digit(d, 0);
    assert(1 <= f <= k);
    let digits = d.subrange(f, 11);
    assert(number_field_bytes(a1, 0) == digits);
    assert forall|j: int| 0 <= j < digits.len() implies is_decimal_digit(#[trigger] digits[j]) by {
        assert(digits[j] == d[f + j]);
    }
    lemma_field_prefix_value(a1, 10);
    assert(place_value(10) == 1);
    assert(a1 as nat / 1 == a1);
    assert(digit_bytes_value(d.subrange(1, 11), 10) == a1);
    let zeros = d.subrange(1, f);
    assert forall|i: int| 0 <= i < zeros.len() implies zeros[i] == 0x30 by {
        assert(zeros[i] == d[1 + i]);
    }
    assert(d.subrange(1, 11) =~= zeros + digits);
    lemma_leading_zeros(zeros, digits);
    assert(digit_bytes_value(digits, 10) == a1);
}

/// The game reads back what it logs for a variable: `parse_int_hooked` on the
/// text of `log_variable(value)` gives `value`.
pub proof fn lemma_variable_reads_back(value: i32)
    requires
        value != 0,
    ensures
        game_int_value(variable_bytes(value)) == value,
        variable_text(value) == ascii_chars(variable_bytes(value)),
{
    let m = magnitude(value);
    let digits = number_field_bytes(m, 0);
    lemma_number_digits_value(m);
    let s = variable_bytes(value);
    if value < 0 {
        assert(s[0] == 0x2D);
        assert(s.subrange(1, s.len() as int) =~= digits);
        lemma_digits_to_end(s, 1);
        assert(wrap_i32(0 - m) == value);
    } else {
        assert(s =~= digits);
        lemma_digits_to_end(s, 0);
        assert(s.subrange(0, s.len() as int) =~= digits);
        assert(wrap_i32(m as int) == value);
    }
}

} // verus!
