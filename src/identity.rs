//! The seed from which the local key pair is made.
use vstd::prelude::*;

verus! {

/// Relies on rand::random: a value drawn from the thread's generator, of
/// which nothing can be promised.
pub assume_specification<T>[ rand::random::<T> ]() -> (r: T)
    where
        rand::distributions::Standard: rand::distributions::Distribution<T>,
;

/// Length of an ed25519 secret key.
pub const SECRET_KEY_LEN: usize = 32;

/// The secret key bytes: all zero but the first, which is the given seed, or
/// a random byte where none is given, so that a fixed seed gives the same
/// identity on every run.
pub fn secret_key_bytes(seed: Option<u8>) -> (r: Vec<u8>)
    ensures
        r@.len() == SECRET_KEY_LEN,
        seed matches Some(b) ==> r@[0] == b,
        forall|i: int| 1 <= i < SECRET_KEY_LEN ==> r@[i] == 0,
{
    let first: u8 = match seed {
        Some(b) => b,
        None => rand::random::<u8>(),
    };
    let mut bytes: Vec<u8> = Vec::new();
    bytes.push(first);
    while bytes.len() < SECRET_KEY_LEN
        invariant
            1 <= bytes@.len() <= SECRET_KEY_LEN,
            bytes@[0] == first,
            forall|i: int| 1 <= i < bytes@.len() ==> bytes@[i] == 0,
        decreases SECRET_KEY_LEN - bytes.len(),
    {
        bytes.push(0);
    }
    bytes
}

} // verus!
