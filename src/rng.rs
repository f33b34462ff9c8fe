//! The shared random generator.
use vstd::prelude::*;

use bevy_turborand::{DelegatedRng, GlobalRng};

verus! {

/// The generator that all draws come from; its state is opaque here.
#[verifier::external_type_specification]
#[verifier::external_body]
pub struct ExGlobalRng(GlobalRng);

/// Relies on bevy_turborand's `DelegatedRng::u32` over the full range `..`:
/// it returns some `u32` and advances the generator; with the full range it
/// does not panic. Nothing is known of which value comes out.
#[verifier::external_body]
pub(crate) fn draw(global_rng: &mut GlobalRng) -> (r: u32) {
    global_rng.u32(..)
}

} // verus!
