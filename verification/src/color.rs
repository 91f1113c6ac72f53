//! Colours, materials, and the step from a blended channel to a byte.

use crate::scalar::{Scalar, ZERO};
use vstd::arithmetic::power2::{lemma2_to64, lemma2_to64_rest};
use vstd::prelude::*;

verus! {

/// The pattern of 255.0, the brightest a channel can be.
pub const CHANNEL_MAX: u64 = 0x406F_E000_0000_0000;

/// An 8-bit RGB colour.
#[derive(Clone, Copy, Debug, PartialEq, Eq, Structural)]
pub struct Color {
    pub r: u8,
    pub g: u8,
    pub b: u8,
}

/// What a surface is made of. Transparency and reflectivity lie between 0 and
/// 1; shading reads the colour only.
#[derive(Clone, Copy, Debug)]
pub struct Material {
    pub transparency: Scalar,
    pub reflectivity: Scalar,
    pub color: Color,
}

/// A blended channel held to 0..=255.
pub open spec fn capped_channel(v: Scalar) -> Scalar {
    v.clamped(Scalar { bits: ZERO }, Scalar { bits: CHANNEL_MAX })
}

/// Holding a channel to 0..=255 before the cast changes no byte: the cast
/// alone already saturates.
pub proof fn lemma_capped_channel_byte(v: Scalar)
    ensures
        capped_channel(v).byte() == v.byte(),
{
    let zero = Scalar { bits: ZERO };
    let top = Scalar { bits: CHANNEL_MAX };
    lemma2_to64();
    lemma2_to64_rest();
    zero.lemma_whole_by_exponent();
    top.lemma_whole_by_exponent();
    assert(top.whole() == 0x1F_E000_0000_0000int / 0x2000_0000_0000int);
    if v.lt(zero) {
        assert(v.negative());
    } else if v.gt(top) {
        v.lemma_whole_by_exponent();
        if v.exponent() == 1030 {
            assert(v.whole() == v.significand() / 0x2000_0000_0000int);
        }
    }
}

impl Color {
    /// The colour of a pixel that nothing lights.
    pub fn black() -> (c: Color)
        ensures
            c == (Color { r: 0, g: 0, b: 0 }),
    {
        Color { r: 0, g: 0, b: 0 }
    }

    /// Turns three blended channels into a colour: each is held to 0..=255
    /// and cut to its integer part; a channel that is not a number gives 0.
    pub fn from_channels(r: Scalar, g: Scalar, b: Scalar) -> (c: Color)
        ensures
            c.r == r.byte(),
            c.g == g.byte(),
            c.b == b.byte(),
    {
        let floor = Scalar { bits: ZERO };
        let max = Scalar { bits: CHANNEL_MAX };
        proof {
            lemma_capped_channel_byte(r);
            lemma_capped_channel_byte(g);
            lemma_capped_channel_byte(b);
        }
        Color {
            r: r.capped(&floor, &max).to_byte(),
            g: g.capped(&floor, &max).to_byte(),
            b: b.capped(&floor, &max).to_byte(),
        }
    }
}

} // verus!
