//! Declarations of the outside types that the library carries, and the
//! wrappers through which it calls outside code.

use vstd::prelude::*;
use rand::Rng;
use rand_chacha::ChaCha8Rng;

verus! {

/// A block identifier of `bbx_dsp`. The library only carries such values
/// (it never looks inside them), so the type is opaque here.
#[verifier::external_type_specification]
#[verifier::external_body]
pub struct ExBlockId(bbx_dsp::block::BlockId);

/// The ChaCha8 random number generator of `rand_chacha`, carried opaquely.
#[verifier::external_type_specification]
#[verifier::external_body]
pub struct ExChaCha8Rng(rand_chacha::ChaCha8Rng);

/// Calls `Rng::gen_range(0..len)` of `rand` on the generator. Its
/// documentation promises a value inside the (exclusive) range and a panic
/// on an empty range, which `requires` excludes. Which value comes out
/// depends on the generator's state: nothing more is stated of it.
#[verifier::external_body]
pub(crate) fn random_index(rng: &mut ChaCha8Rng, len: usize) -> (r: usize)
    requires
        0 < len,
    ensures
        r < len,
{
    rng.gen_range(0..len)
}

} // verus!
