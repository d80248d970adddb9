//! Pseudo-random data for the built-in `Random` dependency.
use rand::rngs::ThreadRng;
use vstd::prelude::*;

verus! {

/// The thread-local generator of the `rand` crate.
#[verifier::external_type_specification]
#[verifier::external_body]
pub struct ExThreadRng(ThreadRng);

/// A handle to the thread-local random generator.
///
/// Trusted: calls `rand::thread_rng`; nothing is claimed of the handle.
#[verifier::external_body]
fn thread_rng() -> ThreadRng {
    rand::thread_rng()
}

/// Overwrites `bytes` with random data.
///
/// Trusted: calls `RngCore::fill_bytes` of `ThreadRng`, which writes into the
/// given slice and never resizes it; the bytes written are left unsaid, as
/// they come from the generator.
#[verifier::external_body]
fn fill_bytes(rng: &mut ThreadRng, bytes: &mut Vec<u8>)
    ensures
        final(bytes)@.len() == old(bytes)@.len(),
{
    rand::RngCore::fill_bytes(rng, bytes.as_mut_slice());
}

/// A value drawn from the thread-local generator.
///
/// Trusted: calls `rand::random::<u64>`; nothing is claimed of the value, as
/// it comes from the generator.
#[verifier::external_body]
fn draw_u64() -> u64 {
    rand::random::<u64>()
}

/// Returns one pseudo-random `u64` from the thread-local generator. Any value
/// may come back.
pub fn random_u64() -> u64 {
    draw_u64()
}

/// Returns `len` pseudo-random bytes from the thread-local generator.
pub fn random_bytes(len: usize) -> (bytes: Vec<u8>)
    ensures
        bytes@.len() == len,
{
    let mut bytes: Vec<u8> = vec![0; len];
    let mut rng = thread_rng();
    fill_bytes(&mut rng, &mut bytes);
    bytes
}

} // verus!
