use rand::Rng;
use vstd::prelude::*;

verus! {

/// Draws one byte from `rand::thread_rng()` with `Rng::gen_range` over the
/// whole range `0x00..=0xFF`. Nothing is claimed of the byte beyond its type:
/// two calls may differ, and every value can come back.
#[verifier::external_body]
pub(crate) fn random_byte() -> (byte: u8) {
    rand::thread_rng().gen_range(0x00..=0xFF)
}

} // verus!
