use vstd::prelude::*;
use vstd::utf8::valid_utf8;

use crate::utils::string::{
    c_string, c_string_end, from_utf8_lossy, is_valid_utf8, lemma_c_string_end, push_char,
    str_chars, utf8_lossy,
};

verus! {

/// `s` without its `'%'` bytes.
pub open spec fn strip_percent(s: Seq<u8>) -> Seq<u8>
    decreases s.len(),
{
    if s.len() == 0 {
        s
    } else if s.last() == 0x25 {
        strip_percent(s.drop_last())
    } else {
        strip_percent(s.drop_last()).push(s.last())
    }
}

/// The NUL-terminated string that the game's pattern copy leaves in its
/// buffer when it copies the NUL-terminated `source`: each `'%'` is replaced
/// by a string that the next byte then overwrites, so only the other bytes
/// remain, then the terminator.
pub open spec fn pattern_copy(source: Seq<u8>) -> Seq<u8> {
    strip_percent(c_string(source)).push(0)
}

/// Copies the NUL-terminated `source` as the game's pattern copy does.
pub fn copy_pattern(source: &[u8]) -> (r: Vec<u8>)
    ensures
        r@ == pattern_copy(source@),
{
    let ghost s = source@;
    proof {
        lemma_c_string_end(s, 0);
    }
    let mut r: Vec<u8> = Vec::new();
    let mut i: usize = 0;
    while i < source.len() && source[i] != 0
        invariant
            s == source@,
            i <= c_string_end(s, 0) <= s.len(),
            c_string_end(s, 0) == c_string_end(s, i as int),
            r@ == strip_percent(s.take(i as int)),
        decreases s.len() - i,
    {
        proof {
            lemma_c_string_end(s, i as int);
        }
        assert(s.take(i + 1).drop_last() =~= s.take(i as int));
        if source[i] != 0x25 {
            r.push(source[i]);
        }
        i += 1;
    }
    r.push(0);
    r
}

/// The path that the game opens for `string` is kept as it stands: it starts
/// with `var\` or `save`, or its second character is a drive's `:`.
pub open spec fn pattern_kept(string: Seq<char>) -> bool {
    ||| string.len() >= 4 && string.take(4) == seq!['v', 'a', 'r', '\\']
    ||| string.len() >= 4 && string.take(4) == seq!['s', 'a', 'v', 'e']
    ||| string.len() >= 2 && string[1] == ':'
}

/// Whether the game takes its first directory template: `string` starts with
/// neither `;4` nor `;3` and the game's mode byte is 2 or 3.
pub open spec fn uses_first_template(string: Seq<char>, unk_byte: u8) -> bool {
    &&& !(string.len() >= 2 && string.take(2) == seq![';', '4'])
    &&& !(string.len() >= 2 && string.take(2) == seq![';', '3'])
    &&& 2 <= unk_byte <= 3
}

/// The path the game opens for `string`: kept paths with a NUL after them;
/// other paths are built in the game's buffer from the chosen directory
/// template, `first_template` or `second_template` (the NUL-terminated strings
/// at 0x5295B4 and 0x5189A8), whose copy overwrites the name itself; the
/// buffer up to and with its terminator is read as UTF-8, and a NUL follows.
pub open spec fn file_pattern(
    string: Seq<char>,
    unk_byte: u8,
    first_template: Seq<u8>,
    second_template: Seq<u8>,
) -> Seq<char> {
    if pattern_kept(string) {
        string.push('\0')
    } else {
        let template = if uses_first_template(string, unk_byte) {
            first_template
        } else {
            second_template
        };
        utf8_lossy(pattern_copy(template)).push('\0')
    }
}

/// Builds the path the game opens for `string` (see `file_pattern`), given
/// the game's mode byte and its two directory templates.
pub fn build_file_pattern(
    string: &str,
    unk_byte: u8,
    first_template: &[u8],
    second_template: &[u8],
) -> (r: String)
    ensures
        r@ == file_pattern(string@, unk_byte, first_template@, second_template@),
{
    let chars = str_chars(string);
    let n = chars.len();
    let kept = (n >= 4 && chars[0] == 'v' && chars[1] == 'a' && chars[2] == 'r' && chars[3]
        == '\\') || (n >= 4 && chars[0] == 's' && chars[1] == 'a' && chars[2] == 'v' && chars[3]
        == 'e') || (n >= 2 && chars[1] == ':');
    assert(kept == pattern_kept(string@)) by {
        if n >= 4 {
            assert(string@.take(4) =~= seq![chars@[0], chars@[1], chars@[2], chars@[3]]);
        }
    }
    if kept {
        let mut r = String::from_str(string);
        push_char(&mut r, '\0');
        return r;
    }
    let starts_4 = n >= 2 && chars[0] == ';' && chars[1] == '4';
    let starts_3 = n >= 2 && chars[0] == ';' && chars[1] == '3';
    if n >= 2 {
        assert(string@.take(2) =~= seq![chars@[0], chars@[1]]);
    }
    let copied = if !starts_4 && unk_byte <= 3 && !starts_3 && unk_byte >= 2 {
        copy_pattern(first_template)
    } else {
        copy_pattern(second_template)
    };
    let mut r = from_utf8_lossy(copied.as_slice());
    push_char(&mut r, '\0');
    r
}

/// Whether the game's checks on the first bytes of a path succeed: each of
/// the first four, the first two, the first and the second byte is valid UTF-8.
pub open spec fn leading_bytes_utf8(s: Seq<u8>) -> bool {
    &&& valid_utf8(s.take(4))
    &&& valid_utf8(s.take(2))
    &&& valid_utf8(s.take(1))
    &&& valid_utf8(s.subrange(1, 2))
}

/// The path bytes are kept as they stand: they start with `var\` or `save`, or
/// the second byte is a `:`.
pub open spec fn pattern_bytes_kept(s: Seq<u8>) -> bool {
    ||| s.take(4) == seq![0x76u8, 0x61u8, 0x72u8, 0x5Cu8]
    ||| s.take(4) == seq![0x73u8, 0x61u8, 0x76u8, 0x65u8]
    ||| s[1] == 0x3A
}

/// What the game's path builder makes of the bytes `s` in memory, read from
/// the start of the path (at least four bytes, the terminator and what follows
/// it included): `None` where the path is used as it stands; otherwise the
/// NUL-terminated path written to its buffer, the copy of the name (after a
/// leading `;` and the byte after it) that overwrites the directory template.
pub open spec fn file_pattern_bytes(s: Seq<u8>) -> Option<Seq<u8>> {
    if !leading_bytes_utf8(s) || pattern_bytes_kept(s) {
        None
    } else if s[0] == 0x3B {
        Some(pattern_copy(s.skip(2)))
    } else {
        Some(pattern_copy(s))
    }
}

/// The game's buffer for built paths: 16 bytes into the calling thread's
/// block, or the shared buffer at 0x94E9B0 where the thread has no block.
pub fn file_pattern_buffer_address(thread_offset: usize) -> (a: usize)
    requires
        thread_offset <= usize::MAX - 16,
    ensures
        a == (if thread_offset != 0 {
            (thread_offset + 16) as usize
        } else {
            0x94E9B0usize
        }),
{
    if thread_offset != 0 {
        thread_offset + 16
    } else {
        0x94E9B0
    }
}

/// Builds the game's path from the bytes at the start of `string` (see
/// `file_pattern_bytes`).
pub fn build_file_pattern_hooked(string: &[u8]) -> (r: Option<Vec<u8>>)
    requires
        string@.len() >= 4,
    ensures
        match r {
            Some(v) => file_pattern_bytes(string@) == Some(v@),
            None => file_pattern_bytes(string@) is None,
        },
{
    let ghost s = string@;
    let first_dword = is_valid_utf8(slice_prefix(string, 4));
    let first_word = is_valid_utf8(slice_prefix(string, 2));
    let first_char = is_valid_utf8(slice_prefix(string, 1));
    let second = vec![string[1]];
    let second_char = is_valid_utf8(second.as_slice());
    assert(second@ =~= s.subrange(1, 2));
    if !(first_dword && first_word && first_char && second_char) {
        return None;
    }
    let kept = (string[0] == 0x76 && string[1] == 0x61 && string[2] == 0x72 && string[3] == 0x5C)
        || (string[0] == 0x73 && string[1] == 0x61 && string[2] == 0x76 && string[3] == 0x65)
        || string[1] == 0x3A;
    assert(s.take(4) =~= seq![s[0], s[1], s[2], s[3]]);
    if kept {
        return None;
    }
    if string[0] == 0x3B {
        let rest = slice_suffix(string, 2);
        Some(copy_pattern(rest))
    } else {
        Some(copy_pattern(string))
    }
}

/// The first `n` bytes of `s`.
fn slice_prefix(s: &[u8], n: usize) -> (r: &[u8])
    requires
        n <= s@.len(),
    ensures
        r@ == s@.take(n as int),
{
    vstd::slice::slice_subrange(s, 0, n)
}

/// The text of a loaded file: its first `number_of_bytes_read` bytes decoded
/// as UTF-8, each invalid sequence replaced by U+FFFD (`utf8_lossy`).
pub fn file_plaintext(file_buffer: &[u8], number_of_bytes_read: u32) -> (text: String)
    requires
        number_of_bytes_read <= file_buffer@.len(),
    ensures
        text@ == utf8_lossy(file_buffer@.take(number_of_bytes_read as int)),
{
    from_utf8_lossy(slice_prefix(file_buffer, number_of_bytes_read as usize))
}

/// The bytes of `s` after the first `n`.
fn slice_suffix(s: &[u8], n: usize) -> (r: &[u8])
    requires
        n <= s@.len(),
    ensures
        r@ == s@.skip(n as int),
{
    let r = vstd::slice::slice_subrange(s, n, s.len());
    assert(r@ =~= s@.skip(n as int));
    r
}

/// Whether `b` ends a directory in a path: `\`, `/` or `:`.
pub open spec fn is_path_separator(b: u8) -> bool {
    b == 0x5C || b == 0x2F || b == 0x3A
}

/// The position of the last separator in `s`.
pub open spec fn last_separator(s: Seq<u8>) -> Option<int>
    decreases s.len(),
{
    if s.len() == 0 {
        None
    } else if is_path_separator(s.last()) {
        Some(s.len() - 1)
    } else {
        last_separator(s.drop_last())
    }
}

/// The directory part of the NUL-terminated path whose bytes are `path`: the
/// bytes up to and with its last separator; `None` where the path is not
/// valid UTF-8 or holds no separator.
pub open spec fn directory_path(path: Seq<u8>) -> Option<Seq<u8>> {
    if !valid_utf8(path) {
        None
    } else {
        match last_separator(path) {
            Some(k) => Some(path.take(k + 1)),
            None => None,
        }
    }
}

/// Bytes holding none of the separators `\`, `/` and `:` leave the last
/// separator where it was.
proof fn lemma_last_separator_skips_name(p: Seq<u8>, n: Seq<u8>)
    requires
        forall|i: int| 0 <= i < n.len() ==> n[i] != 0x5C && n[i] != 0x2F && n[i] != 0x3A,
    ensures
        last_separator(p + n) == last_separator(p),
    decreases n.len(),
{
    if n.len() > 0 {
        assert((p + n).drop_last() =~= p + n.drop_last());
        assert((p + n).last() == n.last());
        lemma_last_separator_skips_name(p, n.drop_last());
    } else {
        assert(p + n =~= p);
    }
}

/// The directory of a path ends at its last separator, and each of `\`, `/`
/// and `:` is one: for a valid UTF-8 path `p + [c] + n`, where `c` is one of
/// them and the name `n` holds none of them, the directory is `p + [c]`.
pub proof fn lemma_directory_of_path(p: Seq<u8>, c: u8, n: Seq<u8>)
    requires
        c == 0x5C || c == 0x2F || c == 0x3A,
        forall|i: int| 0 <= i < n.len() ==> n[i] != 0x5C && n[i] != 0x2F && n[i] != 0x3A,
        valid_utf8(p.push(c) + n),
    ensures
        directory_path(p.push(c) + n) == Some(p.push(c)),
{
    lemma_last_separator_skips_name(p.push(c), n);
    assert(p.push(c).last() == c);
    assert(last_separator(p.push(c)) == Some(p.len() as int));
    assert((p.push(c) + n).take(p.len() + 1int) =~= p.push(c));
}

/// The bytes the game copies for the directory of `path` (the bytes of a
/// NUL-terminated path, without the terminator); the game's result is the
/// end of the copy, or 0 where there is none.
pub fn get_directory_path(path: &[u8]) -> (r: Option<Vec<u8>>)
    ensures
        match r {
            Some(v) => directory_path(path@) == Some(v@),
            None => directory_path(path@) is None,
        },
{
    if !is_valid_utf8(path) {
        return None;
    }
    let ghost s = path@;
    let mut k = path.len();
    assert(s.take(k as int) =~= s);
    while k > 0 && !(path[k - 1] == 0x5C || path[k - 1] == 0x2F || path[k - 1] == 0x3A)
        invariant
            s == path@,
            k <= s.len(),
            last_separator(s) == last_separator(s.take(k as int)),
        decreases k,
    {
        assert(s.take(k as int).drop_last() =~= s.take(k - 1));
        k -= 1;
    }
    if k == 0 {
        assert(s.take(0) =~= Seq::<u8>::empty());
        return None;
    }
    assert(s.take(k as int).last() == s[k - 1]);
    let mut v: Vec<u8> = Vec::new();
    let mut i: usize = 0;
    while i < k
        invariant
            s == path@,
            i <= k <= s.len(),
            v@ == s.take(i as int),
        decreases k - i,
    {
        v.push(path[i]);
        assert(s.take(i + 1) =~= s.take(i as int).push(s[i as int]));
        i += 1;
    }
    Some(v)
}

/// The current directory as the game keeps it, from the `bytes_written`
/// bytes the system wrote into `buffer`: where it does not end in `\` or
/// `/`, a `\` and a NUL follow it.
pub open spec fn completed_directory(buffer: Seq<u8>, bytes_written: int) -> Seq<u8> {
    if bytes_written != 0 && buffer[bytes_written - 1] != 0x5C && buffer[bytes_written - 1]
        != 0x2F {
        buffer.take(bytes_written) + seq![0x5Cu8, 0u8] + buffer.skip(bytes_written + 2)
    } else {
        buffer
    }
}

/// Completes the current directory that the system wrote into the game's
/// 255-byte buffer (see `completed_directory`), and returns `bytes_written`.
pub fn get_current_directory(directory_buffer: &mut Vec<u8>, bytes_written: u32) -> (r: u32)
    requires
        bytes_written <= old(directory_buffer)@.len(),
        bytes_written != 0 && old(directory_buffer)@[bytes_written - 1] != 0x5C && old(
            directory_buffer,
        )@[bytes_written - 1] != 0x2F ==> bytes_written + 2 <= old(directory_buffer)@.len(),
    ensures
        r == bytes_written,
        final(directory_buffer)@ == completed_directory(
            old(directory_buffer)@,
            bytes_written as int,
        ),
{
    let n = bytes_written as usize;
    let capacity = directory_buffer.len();
    if n != 0 && directory_buffer[n - 1] != 0x5C && directory_buffer[n - 1] != 0x2F {
        directory_buffer.set(n, 0x5C);
        directory_buffer.set(n + 1, 0);
        assert(directory_buffer@ =~= completed_directory(
            old(directory_buffer)@,
            bytes_written as int,
        ));
    }
    bytes_written
}

/// What a registry query gave: whether it succeeded, the type of the value,
/// the size it reported and the bytes in the buffer after it.
#[derive(Debug)]
pub struct RegistryRead {
    pub ok: bool,
    pub value_type: u32,
    pub data_len: u32,
    pub data: Vec<u8>,
}

/// The registry type of binary values.
pub const REG_BINARY: u32 = 3;

/// The status byte the game records: what the query read, or 0 where it read
/// a value that is not a one-byte binary value.
pub open spec fn registry_status(status: RegistryRead) -> u8 {
    if status.ok && (status.value_type != REG_BINARY || status.data_len != 1) {
        0
    } else if status.data@.len() > 0 {
        status.data@[0]
    } else {
        0
    }
}

/// The source bytes the game records: 255 zero bytes where it did not ask
/// (the status query failed); otherwise what the query left in its buffer,
/// whatever the type of the value (a value that is not a string only empties
/// the game's string, whose buffer keeps the bytes and is what the game copies).
pub open spec fn registry_source(source: Option<RegistryRead>) -> Seq<u8> {
    match source {
        None => Seq::new(255, |i: int| 0u8),
        Some(r) => r.data@,
    }
}

/// The game's status and source keys from the registry: `status` is the
/// status query, and `source` the source query, which is made only after a
/// successful status query.
pub fn get_registry_game_status(status: &RegistryRead, source: Option<RegistryRead>) -> (r: (
    u8,
    Vec<u8>,
))
    ensures
        r.0 == registry_status(*status),
        r.1@ == registry_source(source),
{
    let status_byte = if status.ok && (status.value_type != REG_BINARY || status.data_len != 1) {
        0
    } else if status.data.len() > 0 {
        status.data[0]
    } else {
        0
    };
    let source_bytes = match source {
        None => vec![0u8; 255],
        Some(read) => read.data,
    };
    (status_byte, source_bytes)
}

/// The attribute bit of directories.
pub const FILE_ATTRIBUTE_DIRECTORY: u32 = 0x10;

/// What follows a search for the first file.
#[derive(Debug, Clone, Copy, PartialEq, Eq, Structural)]
pub enum FindFirstStep {
    /// The search is over: its result.
    Done(u32),
    /// The first match is a directory: search on.
    FindNext,
}

/// Decides after the first search: 0 where nothing was found, the match's
/// attributes where it is not a directory, and another search where it is.
pub fn find_file_impl(found: bool, attributes: u32) -> (r: FindFirstStep)
    ensures
        r == (if !found {
            FindFirstStep::Done(0)
        } else if attributes & FILE_ATTRIBUTE_DIRECTORY != 0 {
            FindFirstStep::FindNext
        } else {
            FindFirstStep::Done(attributes)
        }),
{
    if !found {
        FindFirstStep::Done(0)
    } else if attributes & FILE_ATTRIBUTE_DIRECTORY != 0 {
        FindFirstStep::FindNext
    } else {
        FindFirstStep::Done(attributes)
    }
}

/// Decides after a further search, given the game's attribute mask: `None`
/// to search on, which is where the match has an attribute in the mask;
/// otherwise the result, 0 where nothing more was found.
pub fn find_next_file(found: bool, attributes: u32, mask: u32) -> (r: Option<i32>)
    ensures
        r == (if !found {
            Some(0i32)
        } else if attributes & mask == 0 {
            Some(attributes as i32)
        } else {
            None::<i32>
        }),
{
    if !found {
        Some(0)
    } else if attributes & mask == 0 {
        Some(attributes as i32)
    } else {
        None
    }
}

/// The value `SetFilePointer` gives on failure.
pub const INVALID_SET_FILE_POINTER: u32 = 0xFFFF_FFFF;

/// The new file position, or `None` where `SetFilePointer` reported a failure.
pub fn set_file_pointer(result: u32) -> (r: Option<u32>)
    ensures
        r == (if result == INVALID_SET_FILE_POINTER {
            None::<u32>
        } else {
            Some(result)
        }),
{
    if result == INVALID_SET_FILE_POINTER {
        None
    } else {
        Some(result)
    }
}

/// The addresses of the access mode, the share mode and the creation
/// disposition for the game's file mode `mode`: entries of 16 bytes.
pub fn open_mode_addresses(mode: u32) -> (r: (usize, usize, usize))
    requires
        0x4E06F2 + 16 * mode <= usize::MAX,
    ensures
        r == (
            (0x4E06EA + 16 * mode) as usize,
            (0x4E06F2 + 16 * mode) as usize,
            (0x4E06EE + 16 * mode) as usize,
        ),
{
    let offset = 16 * (mode as usize);
    (0x4E06EA + offset, 0x4E06F2 + offset, 0x4E06EE + offset)
}

/// Which of the game's two file loads: the hooked one counts any position
/// other than 0 after moving the file pointer as a failure and ignores read
/// errors; the checked one fails on an invalid position and on a read error.
#[derive(Debug, Clone, Copy, PartialEq, Eq, Structural)]
pub enum LoadFileKind {
    Hooked,
    Checked,
}

/// How a load ends.
#[derive(Debug, Clone, Copy, PartialEq, Eq, Structural)]
pub enum LoadFileOutcome {
    /// This many bytes were read.
    Loaded(u32),
    /// The load failed.
    Failed,
}

/// Where a load stands.
#[derive(Debug, Clone, Copy, PartialEq, Eq, Structural)]
pub enum LoadFileStage {
    Idle,
    Opening,
    SettingPointer,
    Reading,
    Closing { outcome: LoadFileOutcome },
    Finished,
}

/// What the outside work reported.
#[derive(Debug, Clone, Copy, PartialEq, Eq, Structural)]
pub enum LoadFileEvent {
    Start,
    Opened { ok: bool },
    PointerSet { result: u32 },
    ReadDone { ok: bool, bytes_read: u32 },
    Closed,
}

/// The outside work to do next.
#[derive(Debug, Clone, Copy, PartialEq, Eq, Structural)]
pub enum LoadFileAction {
    Open,
    SetPointer { distance: i32 },
    Read,
    Close,
    Finish { outcome: LoadFileOutcome },
}

/// The event that the loader waits for in `stage`.
pub open spec fn expects(stage: LoadFileStage, event: LoadFileEvent) -> bool {
    match (stage, event) {
        (LoadFileStage::Idle, LoadFileEvent::Start) => true,
        (LoadFileStage::Opening, LoadFileEvent::Opened { .. }) => true,
        (LoadFileStage::SettingPointer, LoadFileEvent::PointerSet { .. }) => true,
        (LoadFileStage::Reading, LoadFileEvent::ReadDone { .. }) => true,
        (LoadFileStage::Closing { .. }, LoadFileEvent::Closed) => true,
        _ => false,
    }
}

/// The loader's step: from `stage` and the outside result `event`, the next
/// stage and the outside work to do. From the idle stage the file is opened;
/// where a distance is given, its pointer is moved; it is read; it is closed,
/// and the load ends.
pub open spec fn load_file_transition(
    kind: LoadFileKind,
    distance: i32,
    stage: LoadFileStage,
    event: LoadFileEvent,
) -> (LoadFileStage, LoadFileAction) {
    match (stage, event) {
        (LoadFileStage::Opening, LoadFileEvent::Opened { ok }) => if !ok {
            (LoadFileStage::Finished, LoadFileAction::Finish { outcome: LoadFileOutcome::Failed })
        } else if distance != 0 {
            (LoadFileStage::SettingPointer, LoadFileAction::SetPointer { distance })
        } else {
            (LoadFileStage::Reading, LoadFileAction::Read)
        },
        (LoadFileStage::SettingPointer, LoadFileEvent::PointerSet { result }) => {
            let failed = match kind {
                LoadFileKind::Hooked => result != 0,
                LoadFileKind::Checked => result == INVALID_SET_FILE_POINTER,
            };
            if failed {
                (
                    LoadFileStage::Closing { outcome: LoadFileOutcome::Failed },
                    LoadFileAction::Close,
                )
            } else {
                (LoadFileStage::Reading, LoadFileAction::Read)
            }
        },
        (LoadFileStage::Reading, LoadFileEvent::ReadDone { ok, bytes_read }) => if ok || kind
            == LoadFileKind::Hooked {
            (
                LoadFileStage::Closing { outcome: LoadFileOutcome::Loaded(bytes_read) },
                LoadFileAction::Close,
            )
        } else {
            (LoadFileStage::Finished, LoadFileAction::Finish { outcome: LoadFileOutcome::Failed })
        },
        (LoadFileStage::Closing { outcome }, LoadFileEvent::Closed) => (
            LoadFileStage::Finished,
            LoadFileAction::Finish { outcome },
        ),
        _ => (LoadFileStage::Opening, LoadFileAction::Open),
    }
}

/// One step of the game's file load (see `load_file_transition`).
pub fn load_file_step(
    kind: LoadFileKind,
    distance: i32,
    stage: LoadFileStage,
    event: LoadFileEvent,
) -> (r: (LoadFileStage, LoadFileAction))
    requires
        expects(stage, event),
    ensures
        r == load_file_transition(kind, distance, stage, event),
{
    match (stage, event) {
        (LoadFileStage::Opening, LoadFileEvent::Opened { ok }) => if !ok {
            (LoadFileStage::Finished, LoadFileAction::Finish { outcome: LoadFileOutcome::Failed })
        } else if distance != 0 {
            (LoadFileStage::SettingPointer, LoadFileAction::SetPointer { distance })
        } else {
            (LoadFileStage::Reading, LoadFileAction::Read)
        },
        (LoadFileStage::SettingPointer, LoadFileEvent::PointerSet { result }) => {
            let failed = match kind {
                LoadFileKind::Hooked => result != 0,
                LoadFileKind::Checked => result == INVALID_SET_FILE_POINTER,
            };
            if failed {
                (
                    LoadFileStage::Closing { outcome: LoadFileOutcome::Failed },
                    LoadFileAction::Close,
                )
            } else {
                (LoadFileStage::Reading, LoadFileAction::Read)
            }
        },
        (LoadFileStage::Reading, LoadFileEvent::ReadDone { ok, bytes_read }) => {
            let hooked = match kind {
                LoadFileKind::Hooked => true,
                LoadFileKind::Checked => false,
            };
            if ok || hooked {
                (
                    LoadFileStage::Closing { outcome: LoadFileOutcome::Loaded(bytes_read) },
                    LoadFileAction::Close,
                )
            } else {
                (
                    LoadFileStage::Finished,
                    LoadFileAction::Finish { outcome: LoadFileOutcome::Failed },
                )
            }
        },
        (LoadFileStage::Closing { outcome }, LoadFileEvent::Closed) => (
            LoadFileStage::Finished,
            LoadFileAction::Finish { outcome },
        ),
        _ => (LoadFileStage::Opening, LoadFileAction::Open),
    }
}

/// The outside results of one load: whether the file opened, the position
/// the pointer move reported, whether the read succeeded and how many bytes
/// it read.
#[derive(Debug, Clone, Copy, PartialEq, Eq, Structural)]
pub struct LoadFileResults {
    pub opened: bool,
    pub pointer_result: u32,
    pub read_ok: bool,
    pub bytes_read: u32,
}

/// The event that answers `action` when the outside work gives `results`.
pub open spec fn answer(action: LoadFileAction, results: LoadFileResults) -> LoadFileEvent {
    match action {
        LoadFileAction::Open => LoadFileEvent::Opened { ok: results.opened },
        LoadFileAction::SetPointer { .. } => LoadFileEvent::PointerSet {
            result: results.pointer_result,
        },
        LoadFileAction::Read => LoadFileEvent::ReadDone {
            ok: results.read_ok,
            bytes_read: results.bytes_read,
        },
        _ => LoadFileEvent::Closed,
    }
}

/// The actions of a load driven from `stage` by `event`, each answered from
/// `results`, for at most `steps` further steps.
pub open spec fn load_file_run(
    kind: LoadFileKind,
    distance: i32,
    results: LoadFileResults,
    stage: LoadFileStage,
    event: LoadFileEvent,
    steps: nat,
) -> Seq<LoadFileAction>
    decreases steps,
{
    let (next, action) = load_file_transition(kind, distance, stage, event);
    if steps == 0 || action is Finish {
        seq![action]
    } else {
        seq![action] + load_file_run(
            kind,
            distance,
            results,
            next,
            answer(action, results),
            (steps - 1) as nat,
        )
    }
}

/// How the load ends for `results`: failed where the file did not open or
/// the pointer move failed, or (checked) the read failed; otherwise the bytes read.
pub open spec fn load_file_outcome(
    kind: LoadFileKind,
    distance: i32,
    results: LoadFileResults,
) -> LoadFileOutcome {
    let pointer_failed = distance != 0 && match kind {
        LoadFileKind::Hooked => results.pointer_result != 0,
        LoadFileKind::Checked => results.pointer_result == INVALID_SET_FILE_POINTER,
    };
    if !results.opened || pointer_failed || (kind == LoadFileKind::Checked && !results.read_ok) {
        LoadFileOutcome::Failed
    } else {
        LoadFileOutcome::Loaded(results.bytes_read)
    }
}

/// A load that starts in the idle stage and is answered with `results` ends
/// within five actions with `load_file_outcome`; it moves the pointer only
/// where a distance is given, and it closes the file exactly when the file
/// was opened, save a checked load whose read fails, which leaves it open.
pub proof fn lemma_load_file_run(kind: LoadFileKind, distance: i32, results: LoadFileResults)
    ensures
        ({
            let run = load_file_run(
                kind,
                distance,
                results,
                LoadFileStage::Idle,
                LoadFileEvent::Start,
                5,
            );
            let pointer_failed = distance != 0 && match kind {
                LoadFileKind::Hooked => results.pointer_result != 0,
                LoadFileKind::Checked => results.pointer_result == INVALID_SET_FILE_POINTER,
            };
            &&& run.last() == LoadFileAction::Finish {
                outcome: load_file_outcome(kind, distance, results),
            }
            &&& run[0] == LoadFileAction::Open
            &&& run.contains(LoadFileAction::SetPointer { distance }) <==> (results.opened
                && distance != 0)
            &&& run.contains(LoadFileAction::Close) <==> (results.opened && (pointer_failed
                || results.read_ok || kind == LoadFileKind::Hooked))
        }),
{
    reveal_with_fuel(load_file_run, 6);
    let run = load_file_run(kind, distance, results, LoadFileStage::Idle, LoadFileEvent::Start, 5);
    let fin = |o: LoadFileOutcome| LoadFileAction::Finish { outcome: o };
    let set = LoadFileAction::SetPointer { distance };
    let pointer_failed = distance != 0 && match kind {
        LoadFileKind::Hooked => results.pointer_result != 0,
        LoadFileKind::Checked => results.pointer_result == INVALID_SET_FILE_POINTER,
    };
    let outcome = load_file_outcome(kind, distance, results);
    let read_done = if results.read_ok || kind == LoadFileKind::Hooked {
        seq![LoadFileAction::Close, fin(LoadFileOutcome::Loaded(results.bytes_read))]
    } else {
        seq![fin(LoadFileOutcome::Failed)]
    };
    let expected = if !results.opened {
        seq![LoadFileAction::Open, fin(LoadFileOutcome::Failed)]
    } else if distance == 0 {
        seq![LoadFileAction::Open, LoadFileAction::Read] + read_done
    } else if pointer_failed {
        seq![LoadFileAction::Open, set, LoadFileAction::Close, fin(LoadFileOutcome::Failed)]
    } else {
        seq![LoadFileAction::Open, set, LoadFileAction::Read] + read_done
    };
    assert(run =~= expected);
    if run.contains(set) {
        let k = choose|k: int| 0 <= k < run.len() && run[k] == set;
        assert(results.opened && distance != 0);
    }
    if results.opened && distance != 0 {
        assert(run[1] == set);
    }
    if run.contains(LoadFileAction::Close) {
        let k = choose|k: int| 0 <= k < run.len() && run[k] == LoadFileAction::Close;
        assert(results.opened && (pointer_failed || results.read_ok || kind
            == LoadFileKind::Hooked));
    }
    if results.opened && (pointer_failed || results.read_ok || kind == LoadFileKind::Hooked) {
        assert(run[run.len() - 2] == LoadFileAction::Close);
    }
}

} // verus!
