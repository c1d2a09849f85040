//! Bit packing of the 5/6/5 word, linear rescaling of a channel between
//! depths, and the whole-pixel conversions built from the two.
//!
//! A packed word holds channel A in bits 15-11, channel B in bits 10-5 and
//! channel C in bits 4-0. In RGB565 channel A is red; in BGR565 it is blue.
//!
//! The sRGB curve is no integer formula, so the conversions from and to sRGB
//! take the transform of a single channel as a [`Lutable`](crate::lut::Lutable)
//! and do the packing around it.

use crate::lut::{L5ToS8Lut, L6ToS8Lut, S8ToL5Lut, S8ToL6Lut};
use vstd::arithmetic::div_mod::{lemma_fundamental_div_mod, lemma_mod_pos_bound};
use vstd::prelude::*;

verus! {

/// The channels `(a5, b6, c5)` that a packed word holds.
pub open spec fn channels(packed: u16) -> (u8, u8, u8) {
    ((packed / 2048) as u8, (packed / 32 % 64) as u8, (packed % 32) as u8)
}

/// The packed word that holds the channels `a5`, `b6` and `c5`.
pub open spec fn word(a5: u8, b6: u8, c5: u8) -> u16 {
    (a5 * 2048 + b6 * 32 + c5) as u16
}

/// The packed word with its two 5-bit channels exchanged.
pub open spec fn swapped(packed: u16) -> u16 {
    let (a5, b6, c5) = channels(packed);
    word(c5, b6, a5)
}

/// A channel of full scale `max` brought to full scale 255, rounded down.
pub open spec fn widen(level: int, max: int) -> int {
    level * 255 / max
}

/// An 8-bit channel brought to full scale `max`. The input is raised by one
/// before the division, so that 255 lands on `max`.
pub open spec fn narrow(level: int, max: int) -> int {
    (level + 1) * max / 255
}

/// The three linear 8-bit components of a packed word, channel A first.
pub open spec fn widened(packed: u16) -> Seq<u8> {
    let (a5, b6, c5) = channels(packed);
    seq![widen(a5 as int, 31) as u8, widen(b6 as int, 63) as u8, widen(c5 as int, 31) as u8]
}

/// The packed word of three linear 8-bit components, channel A first.
pub open spec fn narrowed(a8: u8, b8: u8, c8: u8) -> u16 {
    word(narrow(a8 as int, 31) as u8, narrow(b8 as int, 63) as u8, narrow(c8 as int, 31) as u8)
}

/// Splits a packed word into its channels `(a5, b6, c5)`.
pub fn unpack_565(packed: u16) -> (unpacked: (u8, u8, u8))
    ensures
        unpacked == channels(packed),
        unpacked.0 < 32,
        unpacked.1 < 64,
        unpacked.2 < 32,
{
    assert(packed >> 11 & 0b11111 == packed / 2048) by (bit_vector);
    assert(packed >> 5 & 0b111111 == packed / 32 % 64) by (bit_vector);
    assert(packed & 0b11111 == packed % 32) by (bit_vector);
    ((packed >> 11 & 0b11111) as u8, (packed >> 5 & 0b111111) as u8, (packed & 0b11111) as u8)
}

/// Joins the channels `(a5, b6, c5)` into a packed word.
///
/// A channel wider than its field would spill into its neighbour, so such
/// input is excluded rather than masked.
pub fn pack_565(unpacked: (u8, u8, u8)) -> (packed: u16)
    requires
        unpacked.0 < 32,
        unpacked.1 < 64,
        unpacked.2 < 32,
    ensures
        packed == word(unpacked.0, unpacked.1, unpacked.2),
{
    let a5: u16 = unpacked.0 as u16;
    let b6: u16 = unpacked.1 as u16;
    let c5: u16 = unpacked.2 as u16;
    assert(a5 << 11 | b6 << 5 | c5 == a5 * 2048 + b6 * 32 + c5) by (bit_vector)
        requires
            a5 < 32,
            b6 < 64,
            c5 < 32,
    ;
    a5 << 11 | b6 << 5 | c5
}

/// Exchanges the two 5-bit channels of a packed word and leaves the 6-bit
/// channel in place, which turns RGB565 into BGR565 and back.
pub fn swap_components(rgb565: u16) -> (bgr565: u16)
    ensures
        bgr565 == swapped(rgb565),
{
    assert(rgb565 & 0b11111100000 | rgb565 >> 11 | rgb565 << 11 == (rgb565 % 32) * 2048 + (rgb565
        / 32 % 64) * 32 + rgb565 / 2048) by (bit_vector);
    rgb565 & 0b11111100000 | rgb565 >> 11 | rgb565 << 11
}

/// Widens a 5-bit linear channel to 8 bits.
pub fn l5_to_l8(l5: u8) -> (l8: u8)
    requires
        l5 < 32,
    ensures
        l8 == widen(l5 as int, 31),
{
    (l5 as u16 * 255 / 0b11111) as u8
}

/// Widens a 6-bit linear channel to 8 bits.
pub fn l6_to_l8(l6: u8) -> (l8: u8)
    requires
        l6 < 64,
    ensures
        l8 == widen(l6 as int, 63),
{
    (l6 as u16 * 255 / 0b111111) as u8
}

/// Narrows an 8-bit linear channel to 5 bits.
pub fn l8_to_l5(l8: u8) -> (l5: u8)
    ensures
        l5 == narrow(l8 as int, 31),
        l5 < 32,
{
    ((l8 as u16 + 1) * 0b11111 / 255) as u8
}

/// Narrows an 8-bit linear channel to 6 bits.
pub fn l8_to_l6(l8: u8) -> (l6: u8)
    ensures
        l6 == narrow(l8 as int, 63),
        l6 < 64,
{
    ((l8 as u16 + 1) * 0b111111 / 255) as u8
}

/// Converts a packed word to its three linear 8-bit components.
pub fn l565_to_l888(l565: u16) -> (l888: [u8; 3])
    ensures
        l888@ == widened(l565),
{
    let (a5, b6, c5) = unpack_565(l565);
    let l888 = [l5_to_l8(a5), l6_to_l8(b6), l5_to_l8(c5)];
    assert(l888@ =~= widened(l565));
    l888
}

/// Converts three linear 8-bit components to a packed word.
pub fn l888_to_l565(l888: [u8; 3]) -> (l565: u16)
    ensures
        l565 == narrowed(l888[0], l888[1], l888[2]),
{
    pack_565((l8_to_l5(l888[0]), l8_to_l6(l888[1]), l8_to_l5(l888[2])))
}

/// Converts a packed word to its three sRGB 8-bit components: the 5-bit
/// channels by `l5_to_s8`, the 6-bit channel by `l6_to_s8`.
pub fn l565_to_s888<F5: Fn(u8) -> u8, F6: Fn(u8) -> u8>(
    l565: u16,
    l5_to_s8: &L5ToS8Lut<F5>,
    l6_to_s8: &L6ToS8Lut<F6>,
) -> (s888: [u8; 3])
    requires
        l5_to_s8.accepts(channels(l565).0),
        l6_to_s8.accepts(channels(l565).1),
        l5_to_s8.accepts(channels(l565).2),
    ensures
        l5_to_s8.maps(channels(l565).0, s888[0]),
        l6_to_s8.maps(channels(l565).1, s888[1]),
        l5_to_s8.maps(channels(l565).2, s888[2]),
{
    let (a5, b6, c5) = unpack_565(l565);
    [l5_to_s8.map(a5), l6_to_s8.map(b6), l5_to_s8.map(c5)]
}

/// Converts three sRGB 8-bit components to a packed word: the outer
/// components by `s8_to_l5`, the middle one by `s8_to_l6`.
///
/// What the two transforms give on the components has to fit the fields of
/// the word.
pub fn s888_to_l565<F5: Fn(u8) -> u8, F6: Fn(u8) -> u8>(
    s888: [u8; 3],
    s8_to_l5: &S8ToL5Lut<F5>,
    s8_to_l6: &S8ToL6Lut<F6>,
) -> (l565: u16)
    requires
        s8_to_l5.accepts(s888[0]),
        s8_to_l6.accepts(s888[1]),
        s8_to_l5.accepts(s888[2]),
        forall|a5: u8| s8_to_l5.maps(s888[0], a5) ==> a5 < 32,
        forall|b6: u8| s8_to_l6.maps(s888[1], b6) ==> b6 < 64,
        forall|c5: u8| s8_to_l5.maps(s888[2], c5) ==> c5 < 32,
    ensures
        s8_to_l5.maps(s888[0], channels(l565).0),
        s8_to_l6.maps(s888[1], channels(l565).1),
        s8_to_l5.maps(s888[2], channels(l565).2),
{
    let a5 = s8_to_l5.map(s888[0]);
    let b6 = s8_to_l6.map(s888[1]);
    let c5 = s8_to_l5.map(s888[2]);
    proof {
        lemma_unpack_pack(a5, b6, c5);
    }
    pack_565((a5, b6, c5))
}

/// Unpacking a word and packing the channels again gives the word back.
pub proof fn lemma_pack_unpack(packed: u16)
    ensures
        ({
            let (a5, b6, c5) = channels(packed);
            word(a5, b6, c5) == packed
        }),
{
}

/// Packing channels that fit their fields and unpacking the word gives the
/// channels back.
pub proof fn lemma_unpack_pack(a5: u8, b6: u8, c5: u8)
    requires
        a5 < 32,
        b6 < 64,
        c5 < 32,
    ensures
        channels(word(a5, b6, c5)) == (a5, b6, c5),
{
}

/// Exchanging the 5-bit channels twice gives the word back.
pub proof fn lemma_swap_twice(packed: u16)
    ensures
        swapped(swapped(packed)) == packed,
{
    let (a5, b6, c5) = channels(packed);
    lemma_unpack_pack(c5, b6, a5);
    lemma_pack_unpack(packed);
}

/// Widening a channel whose full scale is below 255 and narrowing the result
/// gives the channel back.
pub proof fn lemma_narrow_widen(level: int, max: int)
    requires
        0 < max < 255,
        0 <= level <= max,
    ensures
        0 <= widen(level, max) <= 255,
        narrow(widen(level, max), max) == level,
{
    let wide = level * 255 / max;
    lemma_fundamental_div_mod(level * 255, max);
    lemma_mod_pos_bound(level * 255, max);
    assert(max * wide <= level * 255 < max * wide + max);
    assert(0 <= wide <= 255) by (nonlinear_arith)
        requires
            0 < max,
            0 <= level <= max,
            max * wide <= level * 255 < max * wide + max,
    ;
    let back = (wide + 1) * max;
    assert(255 * level <= back < 255 * level + 255) by (nonlinear_arith)
        requires
            back == (wide + 1) * max,
            max < 255,
            max * wide <= level * 255 < max * wide + max,
    ;
    lemma_fundamental_div_mod(back, 255);
    lemma_mod_pos_bound(back, 255);
}

/// Converting a packed word to linear 8-bit components and back gives the
/// word back.
pub proof fn lemma_linear_round_trip(packed: u16)
    ensures
        narrowed(widened(packed)[0], widened(packed)[1], widened(packed)[2]) == packed,
{
    let (a5, b6, c5) = channels(packed);
    lemma_narrow_widen(a5 as int, 31);
    lemma_narrow_widen(b6 as int, 63);
    lemma_narrow_widen(c5 as int, 31);
    lemma_pack_unpack(packed);
}

} // verus!
