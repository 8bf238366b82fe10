//! The random source of `Cxnn`: the thread-local generator of `rand`.
use rand::Rng;
use vstd::prelude::*;

verus! {

/// `rand::rngs::ThreadRng`, carried through verified code unopened.
#[verifier::external_type_specification]
#[verifier::external_body]
pub struct ExThreadRng(rand::rngs::ThreadRng);

/// One byte from `rand::Rng::gen::<u8>` on the thread-local generator.
/// Nothing is claimed of the byte: any `u8` may come back. The call
/// panics only if the operating system's random source fails while the
/// generator reseeds itself.
#[verifier::external_body]
pub(crate) fn random_byte(rng: &mut rand::rngs::ThreadRng) -> (byte: u8) {
    rng.gen::<u8>()
}

} // verus!

