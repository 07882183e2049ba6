use vstd::prelude::*;

verus! {

/// The local time as the system reports it (the fields of a `SYSTEMTIME`).
#[derive(Debug, Clone, Copy, PartialEq, Eq, Structural)]
pub struct LocalTime {
    pub year: u16,
    pub month: u16,
    pub day_of_week: u16,
    pub day: u16,
    pub hour: u16,
    pub minute: u16,
    pub second: u16,
    pub milliseconds: u16,
}

/// The game's copy of the current time; it counts hundredths of a second in
/// `milliseconds`.
#[derive(Debug, Clone, Copy, PartialEq, Eq, Structural)]
pub struct CurrentSystemTime {
    pub day_of_week: u16,
    pub day: u16,
    pub month: u16,
    pub year: u16,
    pub hour: u16,
    pub minute: u16,
    pub second: u16,
    pub milliseconds: u16,
}

/// The game's time for the local time `t`.
pub open spec fn game_time(t: LocalTime) -> CurrentSystemTime {
    CurrentSystemTime {
        day_of_week: t.day_of_week,
        day: t.day,
        month: t.month,
        year: t.year,
        hour: t.hour,
        minute: t.minute,
        second: t.second,
        milliseconds: t.milliseconds / 10,
    }
}

/// The low byte of `x`.
pub open spec fn low_byte(x: u16) -> u8 {
    (x % 256) as u8
}

/// The bytes the game keeps the time in, as (address, byte) pairs.
pub open spec fn game_time_bytes(t: CurrentSystemTime) -> Seq<(usize, u8)> {
    seq![
        (0x51839Fusize, low_byte(t.day_of_week)),
        (0x5183A0usize, low_byte(t.day)),
        (0x5183A1usize, low_byte(t.month)),
        (0x5183A3usize, low_byte(t.year)),
        (0x5183A4usize, low_byte(t.hour)),
        (0x5183A5usize, low_byte(t.minute)),
        (0x5183A6usize, low_byte(t.second)),
        (0x5183A7usize, low_byte(t.milliseconds)),
    ]
}

impl Default for CurrentSystemTime {
    /// Every field at zero.
    fn default() -> (r: Self)
        ensures
            r == (CurrentSystemTime {
                day_of_week: 0,
                day: 0,
                month: 0,
                year: 0,
                hour: 0,
                minute: 0,
                second: 0,
                milliseconds: 0,
            }),
    {
        Self::new()
    }
}

impl CurrentSystemTime {
    /// Every field at zero.
    pub fn new() -> (r: Self)
        ensures
            r == (CurrentSystemTime {
                day_of_week: 0,
                day: 0,
                month: 0,
                year: 0,
                hour: 0,
                minute: 0,
                second: 0,
                milliseconds: 0,
            }),
    {
        Self {
            day_of_week: 0,
            day: 0,
            month: 0,
            year: 0,
            hour: 0,
            minute: 0,
            second: 0,
            milliseconds: 0,
        }
    }
}

/// The game's time for the local time `local_time`.
pub fn get_current_system_time(local_time: &LocalTime) -> (r: CurrentSystemTime)
    ensures
        r == game_time(*local_time),
        local_time.milliseconds < 1000 ==> r.milliseconds < 100,
{
    CurrentSystemTime {
        day_of_week: local_time.day_of_week,
        day: local_time.day,
        month: local_time.month,
        year: local_time.year,
        hour: local_time.hour,
        minute: local_time.minute,
        second: local_time.second,
        milliseconds: local_time.milliseconds / 10,
    }
}

fn low_byte_of(x: u16) -> (r: u8)
    ensures
        r == low_byte(x),
{
    (x % 256) as u8
}

/// Records the local time in `properties` and gives the bytes to store in the
/// game's own copy of it.
pub fn get_current_system_time_hooked(properties: &mut CurrentSystemTime, local_time: &LocalTime) -> (writes: Vec<(usize, u8)>)
    ensures
        *final(properties) == game_time(*local_time),
        writes@ == game_time_bytes(game_time(*local_time)),
{
    *properties = get_current_system_time(local_time);
    let t = *properties;
    vec![
        (0x51839Fusize, low_byte_of(t.day_of_week)),
        (0x5183A0usize, low_byte_of(t.day)),
        (0x5183A1usize, low_byte_of(t.month)),
        (0x5183A3usize, low_byte_of(t.year)),
        (0x5183A4usize, low_byte_of(t.hour)),
        (0x5183A5usize, low_byte_of(t.minute)),
        (0x5183A6usize, low_byte_of(t.second)),
        (0x5183A7usize, low_byte_of(t.milliseconds)),
    ]
}

} // verus!
