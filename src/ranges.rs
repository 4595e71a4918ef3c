use vstd::prelude::*;

use crate::rng::{draw_char_in_range, draw_in_range, seeded_char_draw, seeded_range_draw};

verus! {

/// A type whose values can be drawn uniformly from a half-open range `min..max`.
pub trait Choose: Sized + Copy {
    /// `a` comes before `b` in the type's order.
    spec fn before(a: Self, b: Self) -> bool;

    /// The value drawn from `min..max` with `seed`, and the seed that follows.
    spec fn drawn(min: Self, max: Self, seed: u64) -> (Self, u64);

    /// Draws a value from `min..max` with `seed`; `max` itself is never drawn.
    fn draw_range(min: Self, max: Self, seed: u64) -> (r: (Self, u64))
        requires
            Self::before(min, max),
        ensures
            r == Self::drawn(min, max, seed),
            !Self::before(r.0, min),
            Self::before(r.0, max),
    ;
}

/// The offset drawn in `0..max - min` for a signed range, and the seed that follows.
pub open spec fn signed_offset(min: int, max: int, seed: u64) -> (u64, u64) {
    seeded_range_draw(seed, 0, (max - min) as u64)
}

/// Draws `min + d` for an offset `d` in `0..max - min`.
fn draw_signed(min: i64, max: i64, seed: u64) -> (r: (i64, u64))
    requires
        min < max,
    ensures
        r == ((min + signed_offset(min as int, max as int, seed).0) as i64,
            signed_offset(min as int, max as int, seed).1),
        signed_offset(min as int, max as int, seed).0 < max - min,
        min <= r.0 < max,
{
    let span = (max as i128 - min as i128) as u64;
    let (d, next) = draw_in_range(seed, 0, span);
    ((min as i128 + d as i128) as i64, next)
}

impl Choose for u64 {
    open spec fn before(a: u64, b: u64) -> bool {
        a < b
    }

    open spec fn drawn(min: u64, max: u64, seed: u64) -> (u64, u64) {
        seeded_range_draw(seed, min, max)
    }

    fn draw_range(min: u64, max: u64, seed: u64) -> (r: (u64, u64)) {
        draw_in_range(seed, min, max)
    }
}

impl Choose for u32 {
    open spec fn before(a: u32, b: u32) -> bool {
        a < b
    }

    open spec fn drawn(min: u32, max: u32, seed: u64) -> (u32, u64) {
        let d = seeded_range_draw(seed, min as u64, max as u64);
        (d.0 as u32, d.1)
    }

    fn draw_range(min: u32, max: u32, seed: u64) -> (r: (u32, u64)) {
        let (v, next) = draw_in_range(seed, min as u64, max as u64);
        (v as u32, next)
    }
}

impl Choose for u16 {
    open spec fn before(a: u16, b: u16) -> bool {
        a < b
    }

    open spec fn drawn(min: u16, max: u16, seed: u64) -> (u16, u64) {
        let d = seeded_range_draw(seed, min as u64, max as u64);
        (d.0 as u16, d.1)
    }

    fn draw_range(min: u16, max: u16, seed: u64) -> (r: (u16, u64)) {
        let (v, next) = draw_in_range(seed, min as u64, max as u64);
        (v as u16, next)
    }
}

impl Choose for u8 {
    open spec fn before(a: u8, b: u8) -> bool {
        a < b
    }

    open spec fn drawn(min: u8, max: u8, seed: u64) -> (u8, u64) {
        let d = seeded_range_draw(seed, min as u64, max as u64);
        (d.0 as u8, d.1)
    }

    fn draw_range(min: u8, max: u8, seed: u64) -> (r: (u8, u64)) {
        let (v, next) = draw_in_range(seed, min as u64, max as u64);
        (v as u8, next)
    }
}

impl Choose for i64 {
    open spec fn before(a: i64, b: i64) -> bool {
        a < b
    }

    open spec fn drawn(min: i64, max: i64, seed: u64) -> (i64, u64) {
        let d = signed_offset(min as int, max as int, seed);
        ((min + d.0) as i64, d.1)
    }

    fn draw_range(min: i64, max: i64, seed: u64) -> (r: (i64, u64)) {
        draw_signed(min, max, seed)
    }
}

impl Choose for i32 {
    open spec fn before(a: i32, b: i32) -> bool {
        a < b
    }

    open spec fn drawn(min: i32, max: i32, seed: u64) -> (i32, u64) {
        let d = signed_offset(min as int, max as int, seed);
        ((min + d.0) as i32, d.1)
    }

    fn draw_range(min: i32, max: i32, seed: u64) -> (r: (i32, u64)) {
        let (v, next) = draw_signed(min as i64, max as i64, seed);
        assert(v == min + signed_offset(min as int, max as int, seed).0);
        (v as i32, next)
    }
}

impl Choose for i16 {
    open spec fn before(a: i16, b: i16) -> bool {
        a < b
    }

    open spec fn drawn(min: i16, max: i16, seed: u64) -> (i16, u64) {
        let d = signed_offset(min as int, max as int, seed);
        ((min + d.0) as i16, d.1)
    }

    fn draw_range(min: i16, max: i16, seed: u64) -> (r: (i16, u64)) {
        let (v, next) = draw_signed(min as i64, max as i64, seed);
        assert(v == min + signed_offset(min as int, max as int, seed).0);
        (v as i16, next)
    }
}

impl Choose for i8 {
    open spec fn before(a: i8, b: i8) -> bool {
        a < b
    }

    open spec fn drawn(min: i8, max: i8, seed: u64) -> (i8, u64) {
        let d = signed_offset(min as int, max as int, seed);
        ((min + d.0) as i8, d.1)
    }

    fn draw_range(min: i8, max: i8, seed: u64) -> (r: (i8, u64)) {
        let (v, next) = draw_signed(min as i64, max as i64, seed);
        assert(v == min + signed_offset(min as int, max as int, seed).0);
        (v as i8, next)
    }
}

impl Choose for char {
    open spec fn before(a: char, b: char) -> bool {
        (a as u32) < (b as u32)
    }

    open spec fn drawn(min: char, max: char, seed: u64) -> (char, u64) {
        seeded_char_draw(seed, min, max)
    }

    fn draw_range(min: char, max: char, seed: u64) -> (r: (char, u64)) {
        draw_char_in_range(seed, min, max)
    }
}

/// A type whose values can be drawn over their whole range, from one full-range 64-bit draw.
pub trait One: Sized + Copy {
    /// The value that the 64-bit draw `w` gives.
    spec fn from_word(w: u64) -> Self;

    /// Turns the 64-bit draw `w` into a value of the type.
    fn of_word(w: u64) -> (r: Self)
        ensures
            r == Self::from_word(w),
    ;
}

impl One for u64 {
    open spec fn from_word(w: u64) -> u64 {
        w
    }

    fn of_word(w: u64) -> (r: u64) {
        w
    }
}

impl One for u32 {
    open spec fn from_word(w: u64) -> u32 {
        w as u32
    }

    fn of_word(w: u64) -> (r: u32) {
        w as u32
    }
}

impl One for u16 {
    open spec fn from_word(w: u64) -> u16 {
        w as u16
    }

    fn of_word(w: u64) -> (r: u16) {
        w as u16
    }
}

impl One for u8 {
    open spec fn from_word(w: u64) -> u8 {
        w as u8
    }

    fn of_word(w: u64) -> (r: u8) {
        w as u8
    }
}

impl One for i64 {
    open spec fn from_word(w: u64) -> i64 {
        w as i64
    }

    fn of_word(w: u64) -> (r: i64) {
        w as i64
    }
}

impl One for i32 {
    open spec fn from_word(w: u64) -> i32 {
        w as i32
    }

    fn of_word(w: u64) -> (r: i32) {
        w as i32
    }
}

impl One for i16 {
    open spec fn from_word(w: u64) -> i16 {
        w as i16
    }

    fn of_word(w: u64) -> (r: i16) {
        w as i16
    }
}

impl One for i8 {
    open spec fn from_word(w: u64) -> i8 {
        w as i8
    }

    fn of_word(w: u64) -> (r: i8) {
        w as i8
    }
}

impl One for bool {
    open spec fn from_word(w: u64) -> bool {
        w % 2 == 1
    }

    fn of_word(w: u64) -> (r: bool) {
        w % 2 == 1
    }
}

} // verus!
