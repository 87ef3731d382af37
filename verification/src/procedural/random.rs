use vstd::prelude::*;
use rand::Rng;

verus! {

/// A fresh number from `rand::thread_rng()`, by `Rng::gen`. Nothing is
/// claimed of the value: any `u64` may come back, and two calls need not
/// agree.
#[verifier::external_body]
pub(crate) fn random_draw() -> (draw: u64) {
    rand::thread_rng().gen::<u64>()
}

} // verus!
