use vstd::prelude::*;

verus! {

/// Pushes one character at the end of `s` (`String::push`).
#[verifier::external_body]
pub(crate) fn push_char(s: &mut String, c: char)
    ensures
        final(s)@ == old(s)@.push(c),
{
    s.push(c);
}

/// The characters of `s`, in order.
pub fn str_chars(s: &str) -> (v: Vec<char>)
    ensures
        v@ == s@,
{
    let mut v: Vec<char> = Vec::new();
    for c in it: s.chars()
        invariant
            v@ == it.seq().take(it.index() as int),
            it.seq() == s@,
    {
        v.push(c);
    }
    v
}

/// Whether the characters `chars[start..end]` spell `s`.
pub fn chars_match_str(chars: &Vec<char>, start: usize, end: usize, s: &str) -> (r: bool)
    requires
        start <= end <= chars@.len(),
    ensures
        r == (chars@.subrange(start as int, end as int) == s@),
{
    let other = str_chars(s);
    if end - start != other.len() {
        proof {
            assert(chars@.subrange(start as int, end as int).len() != s@.len());
        }
        return false;
    }
    let mut i: usize = 0;
    while i < other.len()
        invariant
            i <= other@.len(),
            other@ == s@,
            end - start == other@.len(),
            start <= end <= chars@.len(),
            forall|j: int| 0 <= j < i ==> chars@[start + j] == other@[j],
        decreases other@.len() - i,
    {
        if chars[start + i] != other[i] {
            proof {
                assert(chars@.subrange(start as int, end as int)[i as int] != s@[i as int]);
            }
            return false;
        }
        i += 1;
    }
    assert(chars@.subrange(start as int, end as int) =~= s@);
    true
}

/// The string made of `chars[start..end]`.
pub fn string_from_chars(chars: &Vec<char>, start: usize, end: usize) -> (s: String)
    requires
        start <= end <= chars@.len(),
    ensures
        s@ == chars@.subrange(start as int, end as int),
{
    let mut s = String::new();
    let mut i = start;
    while i < end
        invariant
            start <= i <= end <= chars@.len(),
            s@ == chars@.subrange(start as int, i as int),
        decreases end - i,
    {
        push_char(&mut s, chars[i]);
        assert(chars@.subrange(start as int, i + 1) =~= chars@.subrange(start as int, i as int).push(chars@[i as int]));
        i += 1;
    }
    s
}


/// Whether `c` has the Unicode `White_Space` property, as `char::is_whitespace` reports.
pub open spec fn is_whitespace(c: char) -> bool {
    let u = c as u32;
    ||| 0x9 <= u <= 0xD
    ||| u == 0x20
    ||| u == 0x85
    ||| u == 0xA0
    ||| u == 0x1680
    ||| 0x2000 <= u <= 0x200A
    ||| u == 0x2028
    ||| u == 0x2029
    ||| u == 0x202F
    ||| u == 0x205F
    ||| u == 0x3000
}

/// `s` without its leading whitespace.
pub open spec fn trim_start(s: Seq<char>) -> Seq<char>
    decreases s.len(),
{
    if s.len() > 0 && is_whitespace(s[0]) {
        trim_start(s.drop_first())
    } else {
        s
    }
}

/// `s` without its trailing whitespace.
pub open spec fn trim_end(s: Seq<char>) -> Seq<char>
    decreases s.len(),
{
    if s.len() > 0 && is_whitespace(s.last()) {
        trim_end(s.drop_last())
    } else {
        s
    }
}

/// `s` without leading and trailing whitespace (`str::trim`).
pub open spec fn trim(s: Seq<char>) -> Seq<char> {
    trim_end(trim_start(s))
}

/// Whether `c` is whitespace.
pub fn char_is_whitespace(c: char) -> (r: bool)
    ensures
        r == is_whitespace(c),
{
    let u = c as u32;
    (0x9 <= u && u <= 0xD) || u == 0x20 || u == 0x85 || u == 0xA0 || u == 0x1680 || (0x2000
        <= u && u <= 0x200A) || u == 0x2028 || u == 0x2029 || u == 0x202F || u == 0x205F || u
        == 0x3000
}

/// The bounds of `chars[start..end]` once whitespace is trimmed from both ends.
pub fn trim_bounds(chars: &Vec<char>, start: usize, end: usize) -> (r: (usize, usize))
    requires
        start <= end <= chars@.len(),
    ensures
        start <= r.0 <= r.1 <= end,
        chars@.subrange(r.0 as int, r.1 as int) == trim(chars@.subrange(start as int, end as int)),
{
    let ghost s = chars@;
    let mut a = start;
    while a < end && char_is_whitespace(chars[a])
        invariant
            start <= a <= end <= s.len(),
            s == chars@,
            trim_start(s.subrange(start as int, end as int)) == trim_start(
                s.subrange(a as int, end as int),
            ),
        decreases end - a,
    {
        assert(s.subrange(a as int, end as int).drop_first() =~= s.subrange(a + 1, end as int));
        a += 1;
    }
    let mut b = end;
    while b > a && char_is_whitespace(chars[b - 1])
        invariant
            start <= a <= b <= end <= s.len(),
            s == chars@,
            trim_end(s.subrange(a as int, end as int)) == trim_end(s.subrange(a as int, b as int)),
        decreases b - a,
    {
        assert(s.subrange(a as int, b as int).drop_last() =~= s.subrange(a as int, b - 1));
        b -= 1;
    }
    (a, b)
}

/// The position of the first `'\n'` at or after `i`, or `s.len()` where there is none.
pub open spec fn line_end(s: Seq<char>, i: int) -> int
    decreases s.len() - i,
{
    if i >= s.len() {
        s.len() as int
    } else if s[i] == '\n' {
        i
    } else {
        line_end(s, i + 1)
    }
}

/// `line_end` lies between `i` and the end, finds a newline there if
/// anywhere, and passes no newline on the way.
pub proof fn lemma_line_end(s: Seq<char>, i: int)
    requires
        0 <= i <= s.len(),
    ensures
        i <= line_end(s, i) <= s.len(),
        line_end(s, i) < s.len() ==> s[line_end(s, i)] == '\n',
        forall|k: int| i <= k < line_end(s, i) ==> s[k] != '\n',
    decreases s.len() - i,
{
    if i < s.len() && s[i] != '\n' {
        lemma_line_end(s, i + 1);
    }
}

/// The text of the line that starts at `i` and ends at `e`: a carriage return
/// just before the newline is not part of it.
pub open spec fn line_text(s: Seq<char>, i: int, e: int) -> Seq<char> {
    let raw = s.subrange(i, e);
    if e < s.len() && raw.len() > 0 && raw.last() == '\r' {
        raw.drop_last()
    } else {
        raw
    }
}

/// The lines of `s` from position `i` on.
pub open spec fn lines_from(s: Seq<char>, i: int) -> Seq<Seq<char>>
    decreases s.len() - i,
    via lines_from_decreases
{
    if i < 0 || i >= s.len() {
        Seq::empty()
    } else {
        let e = line_end(s, i);
        if e < s.len() {
            seq![line_text(s, i, e)] + lines_from(s, e + 1)
        } else {
            seq![line_text(s, i, e)]
        }
    }
}

#[via_fn]
proof fn lines_from_decreases(s: Seq<char>, i: int) {
    if 0 <= i < s.len() {
        lemma_line_end(s, i);
    }
}

/// The lines of `s` (`str::lines`): pieces separated by `'\n'`, each without a
/// final `"\r"`, and no empty piece after a final newline.
pub open spec fn lines(s: Seq<char>) -> Seq<Seq<char>> {
    lines_from(s, 0)
}

/// The line that starts at `start`: the end of its text, and where the next
/// line starts.
pub fn next_line(chars: &Vec<char>, start: usize) -> (r: (usize, usize))
    requires
        start < chars@.len(),
    ensures
        start <= r.0 <= chars@.len(),
        start < r.1 <= chars@.len(),
        chars@.subrange(start as int, r.0 as int) == line_text(
            chars@,
            start as int,
            line_end(chars@, start as int),
        ),
        lines_from(chars@, start as int) == seq![chars@.subrange(start as int, r.0 as int)]
            + lines_from(chars@, r.1 as int),
{
    let ghost s = chars@;
    let mut e = start;
    while e < chars.len() && chars[e] != '\n'
        invariant
            start <= e <= s.len(),
            s == chars@,
            line_end(s, start as int) == line_end(s, e as int),
        decreases s.len() - e,
    {
        e += 1;
    }
    proof {
        lemma_line_end(s, start as int);
    }
    let next = if e < chars.len() {
        e + 1
    } else {
        e
    };
    let text_end = if e < chars.len() && e > start && chars[e - 1] == '\r' {
        e - 1
    } else {
        e
    };
    if e > start {
        assert(s.subrange(start as int, e as int).drop_last() =~= s.subrange(
            start as int,
            e - 1,
        ));
    }
    (text_end, next)
}


/// The first position of `c` in `s`, if it occurs there.
pub open spec fn index_of_char(s: Seq<char>, c: char) -> Option<int> {
    if exists|i: int| 0 <= i < s.len() && s[i] == c {
        Some(choose|i: int| 0 <= i < s.len() && s[i] == c && forall|j: int| 0 <= j < i ==> s[j] != c)
    } else {
        None
    }
}

/// The first position of `c` in `chars[start..end]`, counted from the start of `chars`.
pub fn find_char(chars: &Vec<char>, start: usize, end: usize, c: char) -> (r: Option<usize>)
    requires
        start <= end <= chars@.len(),
    ensures
        match r {
            Some(k) => start <= k < end && index_of_char(
                chars@.subrange(start as int, end as int),
                c,
            ) == Some(k - start),
            None => index_of_char(chars@.subrange(start as int, end as int), c) is None,
        },
{
    let ghost s = chars@.subrange(start as int, end as int);
    let mut k = start;
    while k < end
        invariant
            start <= k <= end <= chars@.len(),
            s == chars@.subrange(start as int, end as int),
            forall|j: int| 0 <= j < k - start ==> s[j] != c,
        decreases end - k,
    {
        if chars[k] == c {
            proof {
                let i = k - start;
                assert(s[i] == c);
                let w = choose|w: int| 0 <= w < s.len() && s[w] == c && forall|j: int| 0 <= j < w ==> s[j] != c;
                assert(0 <= w < s.len() && s[w] == c && forall|j: int| 0 <= j < w ==> s[j] != c);
                if w < i {
                    assert(s[w] != c);
                } else if i < w {
                    assert(s[i] != c);
                }
            }
            return Some(k);
        }
        k += 1;
    }
    None
}


/// Appends `source` to `destination`.
pub fn append(destination: &mut String, source: &str)
    ensures
        final(destination)@ == old(destination)@ + source@,
{
    destination.append(source);
}

/// Appends a carriage return and a line feed.
pub fn insert_new_line(string: &mut String)
    ensures
        final(string)@ == old(string)@ + seq!['\r', '\n'],
{
    push_char(string, '\r');
    push_char(string, '\n');
    assert(string@ =~= old(string)@ + seq!['\r', '\n']);
}

/// Appends a space.
pub fn insert_space(string: &mut String)
    ensures
        final(string)@ == old(string)@.push(' '),
{
    push_char(string, ' ');
}

/// Appends a NUL character.
pub fn insert_null_terminator(string: &mut String)
    ensures
        final(string)@ == old(string)@.push('\0'),
{
    push_char(string, '\0');
}

/// Appends a dash.
pub fn insert_dash(string: &mut String)
    ensures
        final(string)@ == old(string)@.push('-'),
{
    push_char(string, '-');
}

/// Where the NUL-terminated string in `s` that starts at `i` ends: the first
/// NUL at or after `i`, or the end of `s`.
pub open spec fn c_string_end(s: Seq<u8>, i: int) -> int
    decreases s.len() - i,
{
    if 0 <= i < s.len() && s[i] != 0 {
        c_string_end(s, i + 1)
    } else {
        i
    }
}

/// The bytes of `s` before its first NUL.
pub open spec fn c_string(s: Seq<u8>) -> Seq<u8> {
    s.take(c_string_end(s, 0))
}

/// `c_string_end` lies between `i` and the end, finds a NUL there if
/// anywhere, and passes no NUL on the way.
pub proof fn lemma_c_string_end(s: Seq<u8>, i: int)
    requires
        0 <= i <= s.len(),
    ensures
        i <= c_string_end(s, i) <= s.len(),
        c_string_end(s, i) < s.len() ==> s[c_string_end(s, i)] == 0,
        forall|k: int| i <= k < c_string_end(s, i) ==> s[k] != 0,
    decreases s.len() - i,
{
    if i < s.len() && s[i] != 0 {
        lemma_c_string_end(s, i + 1);
    }
}

/// Copies the NUL-terminated string `source` into `destination` at
/// `position`, without its terminator, and returns where the copy ends.
pub fn append_hooked(destination: &mut Vec<u8>, position: usize, source: &[u8]) -> (end: usize)
    requires
        position + c_string(source@).len() <= old(destination)@.len(),
    ensures
        end == position + c_string(source@).len(),
        final(destination)@ == old(destination)@.take(position as int) + c_string(source@)
            + old(destination)@.skip(end as int),
{
    let ghost s = source@;
    proof {
        lemma_c_string_end(s, 0);
    }
    let capacity = destination.len();
    let mut i: usize = 0;
    while i < source.len() && source[i] != 0
        invariant
            s == source@,
            i <= c_string_end(s, 0) <= s.len(),
            c_string_end(s, 0) == c_string_end(s, i as int),
            position + c_string_end(s, 0) <= capacity,
            capacity == old(destination)@.len(),
            destination@ == old(destination)@.take(position as int) + s.take(i as int)
                + old(destination)@.skip(position + i),
        decreases s.len() - i,
    {
        proof {
            lemma_c_string_end(s, i as int);
        }
        destination.set(position + i, source[i]);
        assert(destination@ =~= old(destination)@.take(position as int) + s.take(i + 1)
            + old(destination)@.skip(position + i + 1));
        i += 1;
    }
    i + position
}


/// The text that `String::from_utf8_lossy` makes of `bytes`.
pub uninterp spec fn utf8_lossy(bytes: Seq<u8>) -> Seq<char>;

/// `String::from_utf8_lossy`: the text the bytes encode, each invalid
/// sequence replaced by U+FFFD. Its result is named `utf8_lossy`; of it, only
/// the documented fact is stated that valid UTF-8 is decoded as it stands.
#[verifier::external_body]
pub(crate) fn from_utf8_lossy(bytes: &[u8]) -> (s: String)
    ensures
        s@ == utf8_lossy(bytes@),
        vstd::utf8::valid_utf8(bytes@) ==> s@ == vstd::utf8::decode_utf8(bytes@),
{
    String::from_utf8_lossy(bytes).into_owned()
}

/// Whether `bytes` is valid UTF-8 (`std::str::from_utf8(bytes).is_ok()`).
#[verifier::external_body]
pub(crate) fn is_valid_utf8(bytes: &[u8]) -> (r: bool)
    ensures
        r == vstd::utf8::valid_utf8(bytes@),
{
    std::str::from_utf8(bytes).is_ok()
}

} // verus!
