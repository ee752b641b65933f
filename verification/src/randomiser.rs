use vstd::prelude::*;

verus! {

/// Draws a fresh 64-bit seed from the thread-local generator of `rand`
/// (`rand::random::<u64>()`). Nothing is claimed of the value: it rests on
/// chance.
#[verifier::external_body]
fn random_seed() -> (seed: u64) {
    rand::random::<u64>()
}

/// Holds the seed from which enemy positions are drawn. The same seed always
/// gives the same position; `update_seed` moves on to a fresh one.
#[derive(Debug, Clone, Copy, PartialEq, Eq, Structural)]
pub struct PositionRandomiser {
    seed: u64,
}

impl PositionRandomiser {
    /// The seed that positions are currently drawn from.
    pub closed spec fn seed_spec(&self) -> u64 {
        self.seed
    }

    /// A randomiser with a freshly drawn seed.
    pub fn new() -> (randomiser: PositionRandomiser) {
        PositionRandomiser { seed: random_seed() }
    }

    /// A randomiser that draws from `seed`.
    pub fn with_seed(seed: u64) -> (randomiser: PositionRandomiser)
        ensures
            randomiser.seed_spec() == seed,
    {
        PositionRandomiser { seed }
    }

    /// The seed that positions are currently drawn from.
    pub fn seed(&self) -> (seed: u64)
        ensures
            seed == self.seed_spec(),
    {
        self.seed
    }

    /// Draws positions from `seed` from now on.
    pub fn reseed(&mut self, seed: u64)
        ensures
            final(self).seed_spec() == seed,
    {
        self.seed = seed;
    }

    /// Moves on to a freshly drawn seed.
    pub fn update_seed(&mut self) {
        let seed = random_seed();
        self.reseed(seed);
    }
}

} // verus!
