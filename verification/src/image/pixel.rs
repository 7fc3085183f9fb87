//! Pixels, before and after display encoding.

use vstd::prelude::*;
use vstd::arithmetic::power2::pow2;
use vstd::bits::lemma_u64_shr_is_div;
use crate::utility::scalar::Scalar;
use crate::utility::scalar::HIDDEN_BIT;

verus! {

/// A pixel in linear light, as the renderer produces it.
#[derive(Clone, Copy, Debug, PartialEq, Eq, Structural)]
pub struct FPixel {
    pub red: Scalar,
    pub green: Scalar,
    pub blue: Scalar,
}

/// A pixel as a display takes it: one byte per channel.
#[derive(Clone, Copy, Debug, PartialEq, Eq, Structural)]
pub struct UPixel {
    pub red: u8,
    pub green: u8,
    pub blue: u8,
}

/// The pattern of `0.999`: the brightest a channel is allowed to be.
pub const MAX_INTENSITY_BITS: u64 = 0x3FEF_F7CE_D916_872B;

/// The exponent field of `1 / 256`: a number below it has no whole 256ths.
pub const LOWEST_LEVEL_EXPONENT: u64 = 1015;

/// The whole number of 256ths in a channel, once the channel is held to
/// `[0, 0.999]`; a channel that is no number has none.
///
/// For a number of exponent field `e` from 1015 to 1022, 256 times the
/// number is `(2^52 + fraction) / 2^(1067 - e)`, and a smaller number has no
/// whole 256th at all.
pub open spec fn level(channel: Scalar) -> nat {
    let held = channel.spec_clamp(Scalar { bits: 0 }, Scalar { bits: MAX_INTENSITY_BITS });
    if held.nan() || held.exponent() < LOWEST_LEVEL_EXPONENT {
        0
    } else {
        (HIDDEN_BIT + held.fraction()) as nat / pow2((1067 - held.exponent()) as nat)
    }
}

impl FPixel {
    /// The pixel a display takes, for a pixel whose channels are already
    /// gamma-encoded: each channel held to `[0, 0.999]`, scaled by 256 and
    /// cut to a whole number.
    pub open spec fn spec_quantize(&self) -> UPixel {
        UPixel {
            red: level(self.red) as u8,
            green: level(self.green) as u8,
            blue: level(self.blue) as u8,
        }
    }

    /// The display pixel of a gamma-encoded pixel.
    #[verifier::when_used_as_spec(spec_quantize)]
    pub fn quantize(&self) -> (p: UPixel)
        ensures
            p == self.spec_quantize(),
    {
        UPixel {
            red: quantize_channel(self.red),
            green: quantize_channel(self.green),
            blue: quantize_channel(self.blue),
        }
    }
}

/// The byte of one gamma-encoded channel.
pub fn quantize_channel(channel: Scalar) -> (b: u8)
    ensures
        b == level(channel),
{
    let held = channel.clamp(Scalar::zero(), Scalar::from_bits(MAX_INTENSITY_BITS));
    if held.is_nan() {
        return 0;
    }
    let bits: u64 = held.abs().to_bits();
    let exponent: u64 = bits / HIDDEN_BIT;
    let fraction: u64 = bits % HIDDEN_BIT;
    if exponent < LOWEST_LEVEL_EXPONENT {
        return 0;
    }
    assert(exponent <= 1022);
    let shift: u64 = 1067 - exponent;
    let significand: u64 = HIDDEN_BIT + fraction;
    proof {
        lemma_u64_shr_is_div(significand, shift);
        assert(significand >> shift < 256) by (bit_vector)
            requires
                significand < 0x0020_0000_0000_0000,
                45 <= shift <= 52,
        ;
    }
    (significand >> shift) as u8
}

/// A level is a byte: from 0, for a channel at or below zero, to 255, for
/// one at or above `0.999`.
pub proof fn lemma_level_is_byte(channel: Scalar)
    ensures
        level(channel) <= 255,
        !(Scalar { bits: 0 }).spec_lt(channel) ==> level(channel) == 0,
        (Scalar { bits: MAX_INTENSITY_BITS }).spec_le(channel) ==> level(channel) == 255,
{
    let held = channel.spec_clamp(Scalar { bits: 0 }, Scalar { bits: MAX_INTENSITY_BITS });
    if !held.nan() && held.exponent() >= LOWEST_LEVEL_EXPONENT {
        let e = held.exponent();
        let shift = (1067 - e) as nat;
        let significand = (HIDDEN_BIT + held.fraction()) as nat;
        assert(held.magnitude() <= MAX_INTENSITY_BITS);
        assert(e <= 1022);
        lemma_u64_shr_is_div(significand as u64, shift as u64);
        let x = significand as u64;
        let k = shift as u64;
        assert(x >> k < 256) by (bit_vector)
            requires
                x < 0x0020_0000_0000_0000,
                45 <= k <= 52,
        ;
        if (Scalar { bits: MAX_INTENSITY_BITS }).spec_le(channel) {
            assert(held == Scalar { bits: MAX_INTENSITY_BITS });
            assert(MAX_INTENSITY_BITS / HIDDEN_BIT == 1022);
            assert(MAX_INTENSITY_BITS % HIDDEN_BIT == 0x000F_F7CE_D916_872B);
            assert((0x001F_F7CE_D916_872Bu64 >> 45u64) == 255) by (bit_vector);
        }
    }
}

/// A brighter channel never gets a darker byte.
pub proof fn lemma_level_rises(darker: Scalar, brighter: Scalar)
    requires
        darker.spec_le(brighter),
    ensures
        level(darker) <= level(brighter),
{
    let zero = Scalar { bits: 0 };
    let top = Scalar { bits: MAX_INTENSITY_BITS };
    let a = darker.spec_clamp(zero, top);
    let b = brighter.spec_clamp(zero, top);
    assert(a.magnitude() <= b.magnitude() <= MAX_INTENSITY_BITS);
    let ea = a.exponent();
    let eb = b.exponent();
    assert(ea <= eb <= 1022);
    if ea >= LOWEST_LEVEL_EXPONENT {
        let xa = (HIDDEN_BIT + a.fraction()) as u64;
        let xb = (HIDDEN_BIT + b.fraction()) as u64;
        let sa = (1067 - ea) as u64;
        let sb = (1067 - eb) as u64;
        lemma_u64_shr_is_div(xa, sa);
        lemma_u64_shr_is_div(xb, sb);
        if ea == eb {
            assert(xa >> sa <= xb >> sb) by (bit_vector)
                requires
                    xa <= xb,
                    sa == sb,
                    sa < 64,
            ;
        } else {
            assert(xa >> sa <= xb >> sb) by (bit_vector)
                requires
                    0x0010_0000_0000_0000 <= xa < 0x0020_0000_0000_0000,
                    0x0010_0000_0000_0000 <= xb < 0x0020_0000_0000_0000,
                    45 <= sb < sa <= 52,
            ;
        }
    }
}

impl Default for FPixel {
    /// Black.
    fn default() -> (p: FPixel)
        ensures
            p.red.bits == 0,
            p.green.bits == 0,
            p.blue.bits == 0,
    {
        FPixel { red: Scalar::zero(), green: Scalar::zero(), blue: Scalar::zero() }
    }
}

impl Default for UPixel {
    /// Black.
    fn default() -> (p: UPixel)
        ensures
            p.red == 0,
            p.green == 0,
            p.blue == 0,
    {
        UPixel { red: 0, green: 0, blue: 0 }
    }
}

} // verus!
