use vstd::prelude::*;

verus! {

/// Shared setup parameters for one session: a 32-byte common reference seed,
/// generated once at session start and immutable thereafter.
#[derive(Clone, Copy)]
pub struct Parameters {
    seed: [u8; 32],
}

impl Parameters {
    /// The seed bytes as a mathematical sequence; contracts speak of this.
    pub closed spec fn seed_spec(self) -> Seq<u8> {
        self.seed@
    }

    pub fn new(seed: [u8; 32]) -> (p: Parameters)
        ensures
            p.seed_spec() == seed@,
    {
        Parameters { seed }
    }

    /// Fresh parameters from the process's secure random source; called once,
    /// at session start.
    pub fn generate() -> (p: Parameters) {
        Parameters { seed: random_seed() }
    }

    /// Publishing is read-only and idempotent: every call returns exactly the
    /// stored seed bytes.
    pub fn publish(&self) -> (r: [u8; 32])
        ensures
            r@ == self.seed_spec(),
    {
        self.seed
    }
}

/// Relies on rand::random with the standard distribution: returns 32 bytes
/// drawn from the thread-local cryptographically secure generator. Nothing is
/// promised of the value itself.
#[verifier::external_body]
fn random_seed() -> (r: [u8; 32]) {
    rand::random()
}

/// Hands a caller the published seed for the session.
pub fn get_param(param: &Parameters) -> (r: [u8; 32])
    ensures
        r@ == param.seed_spec(),
{
    param.publish()
}

} // verus!
