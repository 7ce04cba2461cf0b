//! The collaborators that the embedding environment supplies to the engine.

use vstd::prelude::*;

verus! {

/// What the embedding environment must provide: a uniform random-integer
/// source used for reward placement, and a notification sink that receives
/// win/loss messages.
///
/// Implementations live with the embedder; every proof in this crate rests
/// only on the stated bound, that `random_int` returns a value below
/// `max_exclusive`.  Nothing is assumed about which value comes back.
pub trait Host {
    /// Draws an integer in `[0, max_exclusive)`.
    fn random_int(&mut self, max_exclusive: usize) -> (r: usize)
        requires
            1 <= max_exclusive,
        ensures
            r < max_exclusive,
    ;

    /// Receives a message when the game is won or lost.
    fn notify(&mut self, message: &str);
}

/// A small deterministic linear congruential generator: a ready-made random
/// source for embedders (and tests) that need no randomness of their own.
/// Its `notify` discards the message.
pub struct Lcg {
    state: u64,
}

impl Lcg {
    /// A generator whose draws are determined by `seed`.
    pub fn new(seed: u64) -> (g: Lcg) {
        Lcg { state: seed }
    }
}

impl Host for Lcg {
    fn random_int(&mut self, max_exclusive: usize) -> (r: usize) {
        self.state = self.state.wrapping_mul(6364136223846793005).wrapping_add(
            1442695040888963407,
        );
        let draw = (self.state >> 33) % (max_exclusive as u64);
        proof {
            assert(draw < max_exclusive as u64);
        }
        draw as usize
    }

    fn notify(&mut self, message: &str) {
    }
}

} // verus!
