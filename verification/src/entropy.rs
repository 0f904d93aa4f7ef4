use vstd::prelude::*;
use rand::Rng;
use rand_chacha::rand_core::SeedableRng;

verus! {

#[verifier::external_type_specification]
#[verifier::external_body]
pub struct ExChaCha20Rng(rand_chacha::ChaCha20Rng);

#[verifier::external_type_specification]
#[verifier::external_body]
pub struct ExThreadRng(rand::rngs::ThreadRng);

/// `ChaCha20Rng::from_os_rng`: a generator seeded from the operating system.
/// Nothing is claimed of the state it starts from.
#[verifier::external_body]
pub(crate) fn os_seeded_rng() -> rand_chacha::ChaCha20Rng {
    rand_chacha::ChaCha20Rng::from_os_rng()
}

/// `Rng::random_range(32..127)` on a ChaCha generator, as a `char`: a printable ASCII
/// character. Only the range of the outcome is claimed.
#[verifier::external_body]
pub(crate) fn printable_ascii(rng: &mut rand_chacha::ChaCha20Rng) -> (c: char)
    ensures
        32 <= c as u32 && (c as u32) < 127,
{
    char::from(rng.random_range(32u8..127u8))
}

/// `rand::rng()`: the thread-local generator.
#[verifier::external_body]
pub(crate) fn thread_rng() -> rand::rngs::ThreadRng {
    rand::rng()
}

/// `Rng::random_range(0..bound)` on the thread-local generator. The range panics
/// when it is empty, so `bound` must be positive; only the range of the outcome is
/// claimed.
#[verifier::external_body]
pub(crate) fn random_index(rng: &mut rand::rngs::ThreadRng, bound: usize) -> (i: usize)
    requires
        bound > 0,
    ensures
        i < bound,
{
    rng.random_range(0..bound)
}

} // verus!
