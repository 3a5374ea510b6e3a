pub mod client;
pub mod params;
pub mod registry;

pub use client::User;
pub use params::get_param;
pub use params::Parameters;
pub use registry::Cipher;
pub use registry::Error;
pub use registry::RegisteredUser;
pub use registry::Registration;
pub use registry::RegistrationOut;
pub use registry::ServerKeyShare;
pub use registry::Session;
pub use registry::UserId;

use vstd::prelude::*;

verus! {

/// The fixed size of the participant group.
pub const TOTAL_USERS: usize = 3;

/// Greeting used by the service's liveness probe.
pub fn world() -> (r: &'static str)
    ensures
        r@ == "Hello, world!"@,
{
    "Hello, world!"
}

} // verus!
