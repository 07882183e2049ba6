use open_rc2k::filesystem::{
    build_file_pattern, build_file_pattern_hooked, file_pattern_buffer_address, file_plaintext,
    find_file_impl, find_next_file, get_current_directory, get_directory_path,
    get_registry_game_status, load_file_step, open_mode_addresses, set_file_pointer,
    FindFirstStep, LoadFileAction, LoadFileEvent, LoadFileKind, LoadFileOutcome, LoadFileStage,
    RegistryRead,
};

#[test]
fn kept_patterns_get_a_terminator() {
    assert_eq!(build_file_pattern("var\\ral.cfg", 2, b"a\0", b"b\0"), "var\\ral.cfg\0");
    assert_eq!(build_file_pattern("save1.dat", 2, b"a\0", b"b\0"), "save1.dat\0");
    assert_eq!(build_file_pattern("c:\\x", 2, b"a\0", b"b\0"), "c:\\x\0");
}

#[test]
fn other_patterns_come_from_the_template() {
    assert_eq!(build_file_pattern("data\\x", 2, b"gfx\\%s\0junk", b"other\0"), "gfx\\s\0\0");
    assert_eq!(build_file_pattern("data\\x", 3, b"gfx\\%s\0", b"other\0"), "gfx\\s\0\0");
    assert_eq!(build_file_pattern("data\\x", 1, b"gfx\0", b"other\0"), "other\0\0");
    assert_eq!(build_file_pattern("data\\x", 4, b"gfx\0", b"other\0"), "other\0\0");
    assert_eq!(build_file_pattern(";4abc", 2, b"gfx\0", b"other\0"), "other\0\0");
    assert_eq!(build_file_pattern(";3abc", 2, b"gfx\0", b"other\0"), "other\0\0");
    assert_eq!(build_file_pattern(";5abc", 2, b"gfx\0", b"other\0"), "gfx\0\0");
}

#[test]
fn template_bytes_are_read_lossily() {
    assert_eq!(build_file_pattern("x", 2, b"\xFF%a\0", b"\0"), "\u{FFFD}a\0\0");
}

#[test]
fn hooked_pattern_kept_paths() {
    assert_eq!(build_file_pattern_hooked(b"var\\ral.cfg\0"), None);
    assert_eq!(build_file_pattern_hooked(b"save\0\0\0\0"), None);
    assert_eq!(build_file_pattern_hooked(b"c:\\x\0"), None);
}

#[test]
fn hooked_pattern_copies_the_name() {
    assert_eq!(build_file_pattern_hooked(b"data%1\0\0"), Some(b"data1\0".to_vec()));
    assert_eq!(build_file_pattern_hooked(b";4abc\0"), Some(b"abc\0".to_vec()));
    assert_eq!(build_file_pattern_hooked(b"ab\0\0"), Some(b"ab\0".to_vec()));
    assert_eq!(build_file_pattern_hooked(b"ab\xC3\xA9\0"), Some(b"ab\xC3\xA9\0".to_vec()));
}

#[test]
fn hooked_pattern_invalid_utf8_is_kept() {
    assert_eq!(build_file_pattern_hooked(b"\xC3\xA9ab\0"), None);
    assert_eq!(build_file_pattern_hooked(b"\xFFabc\0"), None);
}

#[test]
fn directory_path_up_to_last_separator() {
    assert_eq!(get_directory_path(b"data\\gfx\\car.bmp"), Some(b"data\\gfx\\".to_vec()));
    assert_eq!(get_directory_path(b"a:b"), Some(b"a:".to_vec()));
    assert_eq!(get_directory_path(b"a/b\\"), Some(b"a/b\\".to_vec()));
    assert_eq!(get_directory_path(b"plain"), None);
    assert_eq!(get_directory_path(b""), None);
    assert_eq!(get_directory_path(b"\xFF/x"), None);
}

#[test]
fn current_directory_gets_a_separator() {
    let mut buffer = vec![7u8; 255];
    buffer[..8].copy_from_slice(b"C:\\Games");
    assert_eq!(get_current_directory(&mut buffer, 8), 8);
    assert_eq!(&buffer[..10], b"C:\\Games\\\0");
    assert_eq!(buffer[10], 7);
    let mut kept = vec![7u8; 255];
    kept[..3].copy_from_slice(b"C:\\");
    let before = kept.clone();
    assert_eq!(get_current_directory(&mut kept, 3), 3);
    assert_eq!(kept, before);
    let mut empty = vec![7u8; 255];
    assert_eq!(get_current_directory(&mut empty, 0), 0);
    assert_eq!(empty, vec![7u8; 255]);
}

fn read(ok: bool, value_type: u32, data_len: u32, data: &[u8]) -> RegistryRead {
    RegistryRead { ok, value_type, data_len, data: data.to_vec() }
}

#[test]
fn registry_status_byte() {
    assert_eq!(get_registry_game_status(&read(true, 3, 1, &[1]), None).0, 1);
    assert_eq!(get_registry_game_status(&read(true, 1, 1, &[1]), None).0, 0);
    assert_eq!(get_registry_game_status(&read(true, 3, 2, &[1]), None).0, 0);
    assert_eq!(get_registry_game_status(&read(false, 0, 0, &[5]), None).0, 5);
}

#[test]
fn registry_source_bytes() {
    let status = read(true, 3, 1, &[1]);
    assert_eq!(get_registry_game_status(&status, None).1, vec![0u8; 255]);
    assert_eq!(
        get_registry_game_status(&status, Some(read(true, 1, 4, b"D:\\\0"))).1,
        b"D:\\\0".to_vec()
    );
    assert_eq!(
        get_registry_game_status(&status, Some(read(true, 3, 4, b"D:\\\0"))).1,
        b"D:\\\0".to_vec()
    );
    assert_eq!(
        get_registry_game_status(&status, Some(read(false, 3, 4, b"ab"))).1,
        b"ab".to_vec()
    );
}

#[test]
fn find_first_file_steps() {
    assert_eq!(find_file_impl(false, 0x10), FindFirstStep::Done(0));
    assert_eq!(find_file_impl(true, 0x10), FindFirstStep::FindNext);
    assert_eq!(find_file_impl(true, 0x20), FindFirstStep::Done(0x20));
}

#[test]
fn find_next_file_steps() {
    assert_eq!(find_next_file(false, 0x20, 0x10), Some(0));
    assert_eq!(find_next_file(true, 0x20, 0x10), Some(0x20));
    assert_eq!(find_next_file(true, 0x10, 0x10), None);
    assert_eq!(find_next_file(true, 0x8000_0000, 0x10), Some(i32::MIN));
}

#[test]
fn set_file_pointer_failure() {
    assert_eq!(set_file_pointer(0xFFFF_FFFF), None);
    assert_eq!(set_file_pointer(5), Some(5));
}

#[test]
fn open_mode_table() {
    assert_eq!(open_mode_addresses(0), (0x4E06EA, 0x4E06F2, 0x4E06EE));
    assert_eq!(open_mode_addresses(4), (0x4E06EA + 64, 0x4E06F2 + 64, 0x4E06EE + 64));
}

fn drive(kind: LoadFileKind, distance: i32, opened: bool, pointer: u32, read_ok: bool, n: u32) -> Vec<LoadFileAction> {
    let mut stage = LoadFileStage::Idle;
    let mut event = LoadFileEvent::Start;
    let mut actions = Vec::new();
    loop {
        let (next, action) = load_file_step(kind, distance, stage, event);
        actions.push(action);
        stage = next;
        event = match action {
            LoadFileAction::Open => LoadFileEvent::Opened { ok: opened },
            LoadFileAction::SetPointer { .. } => LoadFileEvent::PointerSet { result: pointer },
            LoadFileAction::Read => LoadFileEvent::ReadDone { ok: read_ok, bytes_read: n },
            LoadFileAction::Close => LoadFileEvent::Closed,
            LoadFileAction::Finish { .. } => break,
        };
    }
    actions
}

#[test]
fn hooked_load_reads_and_closes() {
    assert_eq!(
        drive(LoadFileKind::Hooked, 0, true, 0, false, 10),
        vec![
            LoadFileAction::Open,
            LoadFileAction::Read,
            LoadFileAction::Close,
            LoadFileAction::Finish { outcome: LoadFileOutcome::Loaded(10) }
        ]
    );
}

#[test]
fn hooked_load_fails_on_moved_pointer() {
    assert_eq!(
        drive(LoadFileKind::Hooked, 5, true, 5, true, 10),
        vec![
            LoadFileAction::Open,
            LoadFileAction::SetPointer { distance: 5 },
            LoadFileAction::Close,
            LoadFileAction::Finish { outcome: LoadFileOutcome::Failed }
        ]
    );
    assert_eq!(
        drive(LoadFileKind::Hooked, 5, true, 0, true, 10).last(),
        Some(&LoadFileAction::Finish { outcome: LoadFileOutcome::Loaded(10) })
    );
}

#[test]
fn checked_load_outcomes() {
    assert_eq!(
        drive(LoadFileKind::Checked, 5, true, 5, true, 3),
        vec![
            LoadFileAction::Open,
            LoadFileAction::SetPointer { distance: 5 },
            LoadFileAction::Read,
            LoadFileAction::Close,
            LoadFileAction::Finish { outcome: LoadFileOutcome::Loaded(3) }
        ]
    );
    assert_eq!(
        drive(LoadFileKind::Checked, 0, true, 0, false, 3),
        vec![
            LoadFileAction::Open,
            LoadFileAction::Read,
            LoadFileAction::Finish { outcome: LoadFileOutcome::Failed }
        ]
    );
    assert_eq!(
        drive(LoadFileKind::Checked, 5, true, 0xFFFF_FFFF, true, 3),
        vec![
            LoadFileAction::Open,
            LoadFileAction::SetPointer { distance: 5 },
            LoadFileAction::Close,
            LoadFileAction::Finish { outcome: LoadFileOutcome::Failed }
        ]
    );
}

#[test]
fn unopened_file_is_never_closed() {
    for kind in [LoadFileKind::Hooked, LoadFileKind::Checked] {
        assert_eq!(
            drive(kind, 5, false, 0, true, 3),
            vec![LoadFileAction::Open, LoadFileAction::Finish { outcome: LoadFileOutcome::Failed }]
        );
    }
}

#[test]
fn pattern_buffer_is_chosen_by_thread_block() {
    assert_eq!(file_pattern_buffer_address(0), 0x94E9B0);
    assert_eq!(file_pattern_buffer_address(0x5184F8), 0x518508);
}

#[test]
fn loaded_file_text() {
    assert_eq!(file_plaintext(b"key 1\nrest", 5), "key 1");
    assert_eq!(file_plaintext(b"ab\xffcd", 5), "ab\u{FFFD}cd");
    assert_eq!(file_plaintext(b"abc", 0), "");
}
