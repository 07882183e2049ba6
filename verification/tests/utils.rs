use open_rc2k::utils::datetime::{
    get_current_system_time, get_current_system_time_hooked, CurrentSystemTime, LocalTime,
};
use open_rc2k::utils::number::parse_int_hooked;
use open_rc2k::utils::random::{
    rng_with_seeds, rng_with_seeds_hooked, update_rng_seed_current_system_time_hooked,
};
use open_rc2k::utils::string::{
    append, append_hooked, insert_dash, insert_new_line, insert_null_terminator, insert_space,
    str_chars,
};
use open_rc2k::utils::thread::get_thread_offset;

#[test]
fn rng_with_seeds_clears_three_bits() {
    assert_eq!(rng_with_seeds(0, 0), 0);
    assert_eq!(rng_with_seeds(0x400006, 0), 0);
    assert_eq!(rng_with_seeds(1, 0), 0x8000_0000);
    assert_eq!(rng_with_seeds(2, 5), 5);
    assert_eq!(rng_with_seeds(8, 1), 5);
}

#[test]
fn rng_with_seeds_hooked_feedback() {
    assert_eq!(rng_with_seeds_hooked(1, 0), 0x8000_0000);
    assert_eq!(rng_with_seeds_hooked(2, 0), 0x8000_0001);
    assert_eq!(rng_with_seeds_hooked(4, 0), 0x8000_0002);
    assert_eq!(rng_with_seeds_hooked(6, 0), 3);
    assert_eq!(rng_with_seeds_hooked(0x40_0000, 0), 0x8020_0000);
    assert_eq!(rng_with_seeds_hooked(0, 0xABCD), 0xABCD);
}

fn time(day_of_week: u16, day: u16, hour: u16) -> CurrentSystemTime {
    let mut t = CurrentSystemTime::new();
    t.day_of_week = day_of_week;
    t.day = day;
    t.hour = hour;
    t
}

#[test]
fn signed_digits_read_by_the_game() {
    assert_eq!(parse_int_hooked(b"+123"), parse_int_hooked(b"123"));
    assert_eq!(parse_int_hooked(b"-123"), -parse_int_hooked(b"123"));
    assert_eq!(parse_int_hooked(b"-4294967295"), 1);
}

#[test]
fn rng_seed_from_clock() {
    assert_eq!(update_rng_seed_current_system_time_hooked(&time(0, 0, 1)), Some(0x80));
    assert_eq!(update_rng_seed_current_system_time_hooked(&time(0, 0, 0)), None);
    assert_eq!(update_rng_seed_current_system_time_hooked(&time(24, 0, 1)), Some(0x8000_0000));
    assert_eq!(update_rng_seed_current_system_time_hooked(&time(1, 0, 1)), Some(0x100));
}

fn local(year: u16, milliseconds: u16) -> LocalTime {
    LocalTime {
        year,
        month: 12,
        day_of_week: 3,
        day: 31,
        hour: 23,
        minute: 59,
        second: 58,
        milliseconds,
    }
}

#[test]
fn system_time_counts_hundredths() {
    let t = get_current_system_time(&local(2024, 999));
    assert_eq!(t.milliseconds, 99);
    assert_eq!(t.year, 2024);
    assert_eq!(t.day_of_week, 3);
    let z = CurrentSystemTime::new();
    assert_eq!((z.day, z.month, z.year, z.milliseconds), (0, 0, 0, 0));
    assert_eq!(CurrentSystemTime::default(), z);
}

#[test]
fn system_time_game_bytes() {
    let mut t = CurrentSystemTime::new();
    let writes = get_current_system_time_hooked(&mut t, &local(2024, 505));
    assert_eq!(t.milliseconds, 50);
    assert_eq!(
        writes,
        vec![
            (0x51839F, 3),
            (0x5183A0, 31),
            (0x5183A1, 12),
            (0x5183A3, 0xE8),
            (0x5183A4, 23),
            (0x5183A5, 59),
            (0x5183A6, 58),
            (0x5183A7, 50)
        ]
    );
}

#[test]
fn thread_offset_slots() {
    let ids = [1, 5, 5, 7];
    assert_eq!(get_thread_offset(1, &ids), 0x5184F8);
    assert_eq!(get_thread_offset(5, &ids), 0x518608);
    assert_eq!(get_thread_offset(7, &ids), 0x518824);
    assert_eq!(get_thread_offset(9, &ids), 0);
}

#[test]
fn string_helpers() {
    let mut s = String::from("a");
    append(&mut s, "bc");
    insert_space(&mut s);
    insert_dash(&mut s);
    insert_new_line(&mut s);
    insert_null_terminator(&mut s);
    assert_eq!(s, "abc -\r\n\0");
    assert_eq!(str_chars("hé!"), vec!['h', 'é', '!']);
}

#[test]
fn append_hooked_copies_up_to_terminator() {
    let mut dest = vec![b'x'; 8];
    assert_eq!(append_hooked(&mut dest, 2, b"ab\0cd"), 4);
    assert_eq!(dest, b"xxabxxxx".to_vec());
    let mut whole = vec![0u8; 3];
    assert_eq!(append_hooked(&mut whole, 0, b"xyz"), 3);
    assert_eq!(whole, b"xyz".to_vec());
}
