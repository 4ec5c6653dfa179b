//! The source of chance for the rain: a small, fast generator of the `rand`
//! crate, and the draws the rules make from it.

use std::ops::Range;

use rand::rngs::SmallRng;
use rand::RngExt;
use vstd::prelude::*;

verus! {

/// The generator the library draws its random choices from.
#[verifier::external_type_specification]
#[verifier::external_body]
pub struct ExSmallRng(SmallRng);

/// Calls `rand::make_rng`, which seeds a `SmallRng` from the thread's
/// generator, itself seeded from the operating system. Nothing is promised
/// of the seed; `rand` documents a panic when the operating system gives no
/// entropy, a state of the machine that no `requires` can name.
#[verifier::external_body]
pub(crate) fn new_rng() -> (rng: SmallRng) {
    rand::make_rng()
}

/// Calls `RngExt::random_range` on a non-empty range of `usize`; the
/// documentation of `rand` promises a value in the half-open range, and the
/// call panics on an empty range, which `requires` leaves out. Which value
/// comes is chance.
#[verifier::external_body]
pub(crate) fn random_range(rng: &mut SmallRng, range: Range<usize>) -> (r: usize)
    requires
        range.start < range.end,
    ensures
        range.start <= r < range.end,
{
    rng.random_range(range)
}

/// Calls `RngExt::random` at `u8`: any byte can come.
#[verifier::external_body]
pub(crate) fn random_byte(rng: &mut SmallRng) -> (b: u8) {
    rng.random::<u8>()
}

/// Calls `RngExt::random` at `bool`: either value can come.
#[verifier::external_body]
pub(crate) fn coin_flip(rng: &mut SmallRng) -> (b: bool) {
    rng.random::<bool>()
}

/// The characters the rain is made of: the printable ASCII range from `!`
/// to `}`.
pub open spec fn is_rain_char(c: char) -> bool {
    33 <= (c as u32) <= 125
}

/// Maps a byte onto the rain's alphabet, as the byte modulo 93 past `!`.
pub fn rain_char_of(b: u8) -> (c: char)
    ensures
        c as u32 == (b % 93) + 33,
        is_rain_char(c),
{
    let n: u8 = b % 93 + 33;
    n as char
}

/// A random character of the rain's alphabet.
pub fn rand_char(rng: &mut SmallRng) -> (c: char)
    ensures
        is_rain_char(c),
{
    let b = random_byte(rng);
    rain_char_of(b)
}

} // verus!
