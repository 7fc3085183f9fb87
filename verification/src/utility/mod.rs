//! Numbers as the renderer sees them: scalars, intervals of scalars, and
//! random draws.

use vstd::prelude::*;
use crate::utility::scalar::Scalar;
use crate::utility::scalar::HALF_BITS;
use crate::utility::scalar::ONE_BITS;
use crate::utility::scalar::SIGN_BIT;
use crate::utility::scalar::UNIT_STEPS;

pub mod interval;
pub mod scalar;

verus! {

/// The standard generator of the `rand` crate, from which the renderer
/// draws. The library hands it on and looks into it nowhere.
#[verifier::external_type_specification]
#[verifier::external_body]
pub struct ExStdRng(rand::rngs::StdRng);

/// The number of low bits of a random word that go unused when a double is
/// made of it.
pub const SPARE_BITS: u64 = 11;

/// Draws 64 bits from the generator, by `rand::Rng::random`. Nothing is
/// claimed of the bits drawn, nor of the state the generator is left in.
#[verifier::external_body]
fn random_word(rng: &mut rand::rngs::StdRng) -> (word: u64) {
    rand::Rng::random(rng)
}

/// The double that is made of a random word: the 53 high bits of the word,
/// read as a whole number of `2^53`rds. Words spread evenly over all 64-bit
/// patterns give doubles spread evenly over `[0, 1)`.
pub fn unit_of_word(word: u64) -> (r: Scalar)
    ensures
        r.is_unit_fraction((word / 2048) as nat),
        (Scalar { bits: 0 }).spec_le(r),
        r.spec_lt(Scalar { bits: ONE_BITS }),
{
    assert(word >> SPARE_BITS == word / 2048 && word >> SPARE_BITS < UNIT_STEPS) by (bit_vector);
    Scalar::from_unit(word >> SPARE_BITS)
}

/// A random number in `[0, 1)`: the double made of the next word that the
/// generator gives. Whatever the word, the number is a whole number of
/// `2^53`rds from 0 up to but not including 1.
pub fn random_double(rng: &mut rand::rngs::StdRng) -> (r: Scalar)
    ensures
        exists|k: nat| k < UNIT_STEPS && r.is_unit_fraction(k),
        (Scalar { bits: 0 }).spec_le(r),
        r.spec_lt(Scalar { bits: ONE_BITS }),
{
    let word = random_word(rng);
    let r = unit_of_word(word);
    assert(r.is_unit_fraction((word / 2048) as nat) && word / 2048 < UNIT_STEPS);
    r
}

/// A random number in `[-0.5, 0.5)`: the double made of the next word that
/// the generator gives, less a half. Whatever the word, the number is a
/// whole number of `2^53`rds from a half below zero up to but not including
/// a half above.
pub fn random_offset(rng: &mut rand::rngs::StdRng) -> (r: Scalar)
    ensures
        exists|k: nat| k < UNIT_STEPS && r.is_centered_fraction(k),
        (Scalar { bits: (HALF_BITS + SIGN_BIT) as u64 }).spec_le(r),
        r.spec_lt(Scalar { bits: HALF_BITS }),
{
    let word = random_word(rng);
    assert(word >> SPARE_BITS < UNIT_STEPS) by (bit_vector);
    let k = word >> SPARE_BITS;
    let r = Scalar::centered_unit(k);
    assert(r.is_centered_fraction(k as nat) && k < UNIT_STEPS);
    r
}

} // verus!
