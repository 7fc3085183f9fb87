//! Linear-light colours.

use vstd::prelude::*;
use crate::image::pixel::FPixel;
use crate::utility::scalar::Scalar;
use crate::utility::scalar::HALF_BITS;
use crate::utility::scalar::ONE_BITS;

verus! {

/// The pattern of `0.7`.
pub const SEVEN_TENTHS_BITS: u64 = 0x3FE6_6666_6666_6666;

/// An amount of light per channel, before any display encoding.
#[derive(Clone, Copy, Debug, PartialEq, Eq, Structural)]
pub struct Color {
    pub red: Scalar,
    pub green: Scalar,
    pub blue: Scalar,
}

impl Color {
    /// The pixel that holds this colour.
    pub open spec fn spec_to_fpixel(&self) -> FPixel {
        FPixel { red: self.red, green: self.green, blue: self.blue }
    }

    /// The colour of the sky at the horizon: white, `(1, 1, 1)`.
    pub open spec fn spec_white() -> Color {
        Color {
            red: Scalar { bits: ONE_BITS },
            green: Scalar { bits: ONE_BITS },
            blue: Scalar { bits: ONE_BITS },
        }
    }

    /// The colour of the sky overhead: a light blue, `(0.5, 0.7, 1)`.
    pub open spec fn spec_sky_blue() -> Color {
        Color {
            red: Scalar { bits: HALF_BITS },
            green: Scalar { bits: SEVEN_TENTHS_BITS },
            blue: Scalar { bits: ONE_BITS },
        }
    }

    /// The colour of the sky straight below, where the gradient of the
    /// background begins.
    #[verifier::when_used_as_spec(spec_white)]
    pub fn white() -> (c: Color)
        ensures
            c == Color::spec_white(),
    {
        Color { red: Scalar::one(), green: Scalar::one(), blue: Scalar::one() }
    }

    /// The colour of the sky straight above, where the gradient of the
    /// background ends.
    #[verifier::when_used_as_spec(spec_sky_blue)]
    pub fn sky_blue() -> (c: Color)
        ensures
            c == Color::spec_sky_blue(),
    {
        Color {
            red: Scalar::from_bits(HALF_BITS),
            green: Scalar::from_bits(SEVEN_TENTHS_BITS),
            blue: Scalar::one(),
        }
    }

    /// The colour with the given channels.
    pub fn new(red: Scalar, green: Scalar, blue: Scalar) -> (c: Color)
        ensures
            c.red == red,
            c.green == green,
            c.blue == blue,
    {
        Color { red, green, blue }
    }

    /// The colour as a pixel of an image, channel for channel.
    #[verifier::when_used_as_spec(spec_to_fpixel)]
    pub fn to_fpixel(&self) -> (p: FPixel)
        ensures
            p == self.spec_to_fpixel(),
    {
        FPixel { red: self.red, green: self.green, blue: self.blue }
    }
}

impl Default for Color {
    /// Black.
    fn default() -> (c: Color)
        ensures
            c.red.bits == 0,
            c.green.bits == 0,
            c.blue.bits == 0,
    {
        Color { red: Scalar::zero(), green: Scalar::zero(), blue: Scalar::zero() }
    }
}

} // verus!
