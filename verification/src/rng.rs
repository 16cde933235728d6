//! Random draws, made through the rand crate. A draw's value depends on
//! the thread's generator, so each wrapper states only what holds of
//! every outcome; callers take the drawn value as an argument and are
//! verified for every value of it.

use vstd::prelude::*;

verus! {

/// Relies on rand::random::<u16>: a uniformly drawn hue over the full
/// u16 range. Nothing can be promised of a random value; the outside
/// call itself can abort if the operating system's entropy source
/// fails when the thread's generator is first set up.
#[verifier::external_body]
pub fn random_u16() -> u16 {
    rand::random::<u16>()
}

/// Relies on rand::random::<u8>: a uniformly drawn byte, which callers
/// shape into a saturation value. Nothing can be promised of a random
/// value; the outside call itself can abort if the operating system's
/// entropy source fails when the thread's generator is first set up.
#[verifier::external_body]
pub fn random_u8() -> u8 {
    rand::random::<u8>()
}

/// Relies on rand::seq::SliceRandom::choose on a slice, which returns
/// one of the slice's elements, uniformly at random, and None exactly
/// when the slice is empty. The outside call itself can abort if the
/// operating system's entropy source fails when the thread's generator
/// is first set up.
#[verifier::external_body]
pub fn choose_string(items: &Vec<String>) -> (r: Option<String>)
    ensures
        r is Some <==> items@.len() > 0,
        r matches Some(s) ==> exists|i: int| 0 <= i < items@.len() && #[trigger] items@[i]@ == s@,
{
    rand::seq::SliceRandom::choose(items.as_slice(), &mut rand::thread_rng()).cloned()
}

} // verus!
