use vstd::prelude::*;

use crate::utils::datetime::CurrentSystemTime;

verus! {

/// `x` rotated right by `n` bits, `n` taken modulo 32 (`u32::rotate_right`).
pub open spec fn rotate_right(x: u32, n: u32) -> u32 {
    let k = n % 32;
    if k == 0 {
        x
    } else {
        ((x >> k) | (x << (32 - k) as u32)) as u32
    }
}

/// `x` rotated left by `n` bits, `n` taken modulo 32 (`u32::rotate_left`).
pub open spec fn rotate_left(x: u32, n: u32) -> u32 {
    let k = n % 32;
    if k == 0 {
        x
    } else {
        ((x << k) | (x >> (32 - k) as u32)) as u32
    }
}

/// `x` rotated right by `n` bits.
pub fn rotate_right_u32(x: u32, n: u32) -> (r: u32)
    ensures
        r == rotate_right(x, n),
{
    let k = n % 32;
    if k == 0 {
        x
    } else {
        (x >> k) | (x << (32 - k))
    }
}

/// `x` rotated left by `n` bits.
pub fn rotate_left_u32(x: u32, n: u32) -> (r: u32)
    ensures
        r == rotate_left(x, n),
{
    let k = n % 32;
    if k == 0 {
        x
    } else {
        (x << k) | (x >> (32 - k))
    }
}

/// One step of the game's random number generator: the low bit of `seed1`
/// takes in the parity of bits 22, 2 and 1, the result is rotated right by
/// one bit, and `seed2` is mixed in.
pub open spec fn game_rng(seed1: u32, seed2: u32) -> u32 {
    let feedback: u32 = ((seed1 >> 22u32) ^ (seed1 >> 2u32) ^ (seed1 >> 1u32)) & 1;
    seed2 ^ rotate_right(seed1 ^ feedback, 1)
}

/// The game's random number generator, step for step.
pub fn rng_with_seeds_hooked(seed1: u32, seed2: u32) -> (r: u32)
    ensures
        r == game_rng(seed1, seed2),
{
    let bit22: u32 = if (seed1 & 0x400000) != 0 {
        1
    } else {
        0
    };
    let bit2_of_mixed: u32 = if ((bit22 ^ seed1) & 4) != 0 {
        1
    } else {
        0
    };
    let mut new_rand = bit2_of_mixed ^ bit22 ^ seed1;
    let bit1: u32 = if (new_rand & 2) != 0 {
        1
    } else {
        0
    };
    new_rand = bit1 ^ new_rand;
    assert(new_rand == seed1 ^ (((seed1 >> 22u32) ^ (seed1 >> 2u32) ^ (seed1 >> 1u32)) & 1))
        by (bit_vector)
        requires
            bit22 == (if (seed1 & 0x400000) != 0 {
                1u32
            } else {
                0u32
            }),
            bit2_of_mixed == (if ((bit22 ^ seed1) & 4) != 0 {
                1u32
            } else {
                0u32
            }),
            bit1 == (if ((bit2_of_mixed ^ bit22 ^ seed1) & 2) != 0 {
                1u32
            } else {
                0u32
            }),
            new_rand == bit1 ^ (bit2_of_mixed ^ bit22 ^ seed1),
    ;
    seed2 ^ rotate_right_u32(new_rand, 1)
}

/// Clears bits 22, 2 and 1 of `seed1`, rotates the result right by one bit
/// and mixes in `seed2`.
pub fn rng_with_seeds(seed1: u32, seed2: u32) -> (r: u32)
    ensures
        r == seed2 ^ rotate_right(seed1 & !0x400006u32, 1),
{
    let mut new_rand = seed1;
    new_rand ^= new_rand & 0x400000;
    let a = new_rand;
    new_rand ^= new_rand & 4;
    let b = new_rand;
    new_rand ^= new_rand & 2;
    assert(new_rand == seed1 & !0x400006u32) by (bit_vector)
        requires
            a == seed1 ^ (seed1 & 0x400000),
            b == a ^ (a & 4),
            new_rand == b ^ (b & 2),
    ;
    seed2 ^ rotate_right_u32(new_rand, 1)
}

/// The new seed that the game draws from the clock: a generator step on the
/// hour and the day, rotated left by the day of the week plus 8; `None` where
/// the step gives 0, which leaves the seed as it was.
pub fn update_rng_seed_current_system_time_hooked(time: &CurrentSystemTime) -> (r: Option<u32>)
    ensures
        r == (if game_rng(time.hour as u32, time.day as u32) != 0 {
            Some(rotate_left(game_rng(time.hour as u32, time.day as u32), (time.day_of_week + 8) as u32))
        } else {
            None::<u32>
        }),
        r matches Some(v) ==> v != 0,
{
    let result = rng_with_seeds_hooked(time.hour as u32, time.day as u32);
    if result != 0 {
        let shift = time.day_of_week as u32 + 8;
        let v = rotate_left_u32(result, shift);
        assert(v != 0) by (bit_vector)
            requires
                result != 0,
                v == (if shift % 32 == 0 {
                    result
                } else {
                    ((result << (shift % 32)) | (result >> (32 - shift % 32) as u32)) as u32
                }),
        ;
        Some(v)
    } else {
        None
    }
}

/// Only bits 22, 2 and 1 of `seed1` feed its low bit: a step is `seed1`
/// rotated right by one bit, with the parity of those three bits added into
/// the top bit (where bit 0 lands), and `seed2` mixed in. So where `seed1` has
/// none of those bits, a step is `seed2 ^ rotate_right(seed1, 1)`.
pub proof fn lemma_rng_taps(seed1: u32, seed2: u32)
    ensures
        game_rng(seed1, seed2) == seed2 ^ (((seed1 >> 1u32) | (seed1 << 31u32)) ^ ((((seed1
            >> 22u32) ^ (seed1 >> 2u32) ^ (seed1 >> 1u32)) & 1) << 31u32)),
        seed1 & 0x400006 == 0 ==> game_rng(seed1, seed2) == seed2 ^ ((seed1 >> 1u32) | (seed1
            << 31u32)),
{
    let fb: u32 = ((seed1 >> 22u32) ^ (seed1 >> 2u32) ^ (seed1 >> 1u32)) & 1;
    let x: u32 = seed1 ^ fb;
    assert(rotate_right(x, 1) == ((x >> 1u32) | (x << 31u32)));
    let r = game_rng(seed1, seed2);
    assert(r == seed2 ^ ((x >> 1u32) | (x << 31u32)));
    assert(seed2 ^ ((x >> 1u32) | (x << 31u32)) == seed2 ^ (((seed1 >> 1u32) | (seed1 << 31u32))
        ^ (fb << 31u32))) by (bit_vector)
        requires
            x == seed1 ^ fb,
            fb == ((seed1 >> 22u32) ^ (seed1 >> 2u32) ^ (seed1 >> 1u32)) & 1,
    ;
    assert(seed1 & 0x400006 == 0 ==> fb == 0) by (bit_vector)
        requires
            fb == ((seed1 >> 22u32) ^ (seed1 >> 2u32) ^ (seed1 >> 1u32)) & 1,
    ;
    assert(fb == 0 ==> ((seed1 >> 1u32) | (seed1 << 31u32)) ^ (fb << 31u32) == ((seed1 >> 1u32)
        | (seed1 << 31u32))) by (bit_vector);
}

} // verus!
