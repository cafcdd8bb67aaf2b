//! The source of the byte that the random instruction draws.

use vstd::prelude::*;
use rand::Rng;

verus! {

/// A number from `low` up to but not including `high`, drawn from the
/// thread's generator of the `rand` crate: `rand::thread_rng()`, then
/// `Rng::gen_range(low, high)` on it.
///
/// `gen_range` documents that its result lies in the half-open range and
/// that it panics unless `low < high`, which is why that is required here.
/// Which number of the range comes is the generator's affair and is not
/// stated. `thread_rng` seeds the generator from the operating system when a
/// thread first asks for it, and panics if the system gives no seed.
#[verifier::external_body]
fn random_in_range(low: u16, high: u16) -> (number: u16)
    requires
        low < high,
    ensures
        low <= number < high,
{
    rand::thread_rng().gen_range(low, high)
}

/// A random byte, any of 0 to 255.
pub(crate) fn random_byte() -> (byte: u8) {
    let number: u16 = random_in_range(0, 256);
    byte_of(number)
}

/// A number below 256 as the byte of the same value.
fn byte_of(number: u16) -> (byte: u8)
    requires
        number < 256,
    ensures
        byte == number,
{
    number as u8
}

} // verus!
