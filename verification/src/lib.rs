//! Colours in the 16-bit RGB565 format, which gives red five bits, green six
//! and blue five, with conversions from and to the BGR channel order, both
//! byte orders, and 8-bit components in linear and in sRGB space.
//!
//! The linear conversions are computed by integer formulas. The sRGB
//! conversions follow a gamma curve and are handed in as a [`lut::Lutable`],
//! which is backed by a table or by the function that computes the curve.

pub mod endian;
pub mod lut;
pub mod transforms;

use crate::endian::{
    be_bytes, be_word, le_bytes, le_word, lemma_word_round_trip, word_from_be, word_from_le,
    word_to_be, word_to_le,
};
use crate::lut::{L565ToS888Lut, S888ToL565Lut};
use crate::transforms::{
    channels, l565_to_l888, l888_to_l565, lemma_swap_twice, narrowed, swap_components, swapped,
    widened, word,
};
use vstd::prelude::*;

verus! {

/// A colour in RGB565 format.
#[derive(Copy, Clone, Eq, PartialEq, Structural, Ord, PartialOrd, Debug, Hash)]
pub struct Rgb565(u16);

impl View for Rgb565 {
    type V = u16;

    /// The colour as a packed word in RGB order: `rrrrrggggggbbbbb`.
    closed spec fn view(&self) -> u16 {
        self.0
    }
}

impl Default for Rgb565 {
    /// Black.
    fn default() -> (color: Self)
        ensures
            color@ == 0,
    {
        Rgb565(0)
    }
}

impl Rgb565 {
    /// Unpacks r5, g6 and b5 from a packed RGB565 word. For a BGR565 word
    /// the first and the last are b5 and r5.
    pub fn unpack_565(packed: u16) -> (unpacked: (u8, u8, u8))
        ensures
            unpacked == channels(packed),
            unpacked.0 < 32,
            unpacked.1 < 64,
            unpacked.2 < 32,
    {
        transforms::unpack_565(packed)
    }

    /// Packs r5, g6 and b5 into an RGB565 word. To pack into BGR565, give
    /// b5 first and r5 last.
    pub fn pack_565(unpacked: (u8, u8, u8)) -> (packed: u16)
        requires
            unpacked.0 < 32,
            unpacked.1 < 64,
            unpacked.2 < 32,
        ensures
            packed == word(unpacked.0, unpacked.1, unpacked.2),
    {
        transforms::pack_565(unpacked)
    }

    /// From a word packed as `rrrrrggggggbbbbb`.
    pub fn from_rgb565(packed: u16) -> (color: Self)
        ensures
            color@ == packed,
    {
        Self(packed)
    }

    /// From a word packed as `bbbbbggggggrrrrr`.
    pub fn from_bgr565(packed: u16) -> (color: Self)
        ensures
            color@ == swapped(packed),
    {
        Self(swap_components(packed))
    }

    /// To a word packed as `rrrrrggggggbbbbb`.
    pub fn to_rgb565(&self) -> (packed: u16)
        ensures
            packed == self@,
    {
        self.0
    }

    /// To a word packed as `bbbbbggggggrrrrr`.
    pub fn to_bgr565(&self) -> (packed: u16)
        ensures
            packed == swapped(self@),
    {
        swap_components(self.0)
    }

    /// From the bytes `[gggbbbbb, rrrrrggg]`.
    pub fn from_rgb565_le(bytes: [u8; 2]) -> (color: Self)
        ensures
            color@ == le_word(bytes@),
    {
        Self::from_rgb565(word_from_le(bytes))
    }

    /// From the bytes `[rrrrrggg, gggbbbbb]`.
    pub fn from_rgb565_be(bytes: [u8; 2]) -> (color: Self)
        ensures
            color@ == be_word(bytes@),
    {
        Self::from_rgb565(word_from_be(bytes))
    }

    /// From the bytes `[gggrrrrr, bbbbbggg]`.
    pub fn from_bgr565_le(bytes: [u8; 2]) -> (color: Self)
        ensures
            color@ == swapped(le_word(bytes@)),
    {
        Self::from_bgr565(word_from_le(bytes))
    }

    /// From the bytes `[bbbbbggg, gggrrrrr]`.
    pub fn from_bgr565_be(bytes: [u8; 2]) -> (color: Self)
        ensures
            color@ == swapped(be_word(bytes@)),
    {
        Self::from_bgr565(word_from_be(bytes))
    }

    /// To the bytes `[gggbbbbb, rrrrrggg]`.
    pub fn to_rgb565_le(&self) -> (bytes: [u8; 2])
        ensures
            bytes@ == le_bytes(self@),
    {
        word_to_le(self.to_rgb565())
    }

    /// To the bytes `[rrrrrggg, gggbbbbb]`.
    pub fn to_rgb565_be(&self) -> (bytes: [u8; 2])
        ensures
            bytes@ == be_bytes(self@),
    {
        word_to_be(self.to_rgb565())
    }

    /// To the bytes `[gggrrrrr, bbbbbggg]`.
    pub fn to_bgr565_le(&self) -> (bytes: [u8; 2])
        ensures
            bytes@ == le_bytes(swapped(self@)),
    {
        word_to_le(self.to_bgr565())
    }

    /// To the bytes `[bbbbbggg, gggrrrrr]`.
    pub fn to_bgr565_be(&self) -> (bytes: [u8; 2])
        ensures
            bytes@ == be_bytes(swapped(self@)),
    {
        word_to_be(self.to_bgr565())
    }

    /// From components in the depth of the format: `r` and `b` of five bits,
    /// `g` of six.
    pub fn from_rgb565_components(r: u8, g: u8, b: u8) -> (color: Self)
        requires
            r < 32,
            g < 64,
            b < 32,
        ensures
            color@ == word(r, g, b),
    {
        Self(Self::pack_565((r, g, b)))
    }

    /// From linear 8-bit components.
    pub fn from_rgb888_components(r: u8, g: u8, b: u8) -> (color: Self)
        ensures
            color@ == narrowed(r, g, b),
    {
        Self(l888_to_l565([r, g, b]))
    }

    /// From sRGB 8-bit components, by the given transform from three sRGB
    /// components to a packed word.
    pub fn from_srgb888_components<F: Fn([u8; 3]) -> u16>(
        r: u8,
        g: u8,
        b: u8,
        s888_to_l565: &S888ToL565Lut<F>,
    ) -> (color: Self)
        requires
            s888_to_l565.accepts([r, g, b]),
        ensures
            s888_to_l565.maps([r, g, b], color@),
    {
        Self(s888_to_l565.map([r, g, b]))
    }

    /// To components in the depth of the format: `r` and `b` of five bits,
    /// `g` of six.
    pub fn to_rgb565_components(&self) -> (components: [u8; 3])
        ensures
            components@ == seq![channels(self@).0, channels(self@).1, channels(self@).2],
    {
        let (r, g, b) = Self::unpack_565(self.0);
        let components = [r, g, b];
        assert(components@ =~= seq![channels(self@).0, channels(self@).1, channels(self@).2]);
        components
    }

    /// To linear 8-bit components.
    pub fn to_rgb888_components(&self) -> (components: [u8; 3])
        ensures
            components@ == widened(self@),
    {
        l565_to_l888(self.0)
    }

    /// To sRGB 8-bit components, by the given transform from a packed word
    /// to three sRGB components.
    pub fn to_srgb888_components<F: Fn(u16) -> [u8; 3]>(
        &self,
        l565_to_s888: &L565ToS888Lut<F>,
    ) -> (components: [u8; 3])
        requires
            l565_to_s888.accepts(self@),
        ensures
            l565_to_s888.maps(self@, components),
    {
        l565_to_s888.map(self.0)
    }
}

/// Two colours with the same packed word are the same colour.
pub proof fn lemma_same_word_same_color(first: Rgb565, second: Rgb565)
    requires
        first@ == second@,
    ensures
        first == second,
{
}

/// A colour written in any of the four layouts (RGB or BGR order, low or high
/// byte first) and read from the same layout is the colour that was written.
pub proof fn lemma_layout_round_trip(packed: u16)
    ensures
        le_word(le_bytes(packed)) == packed,
        be_word(be_bytes(packed)) == packed,
        swapped(le_word(le_bytes(swapped(packed)))) == packed,
        swapped(be_word(be_bytes(swapped(packed)))) == packed,
{
    lemma_word_round_trip(packed);
    lemma_word_round_trip(swapped(packed));
    lemma_swap_twice(packed);
}

} // verus!
