//! Where a mock server listens: the choice of a port to try.

use rand::Rng;
use vstd::prelude::*;

verus! {

/// First port of the range that mock servers listen in.
pub const PORT_RANGE_START: u16 = 40000;

/// First port behind the range that mock servers listen in.
pub const PORT_RANGE_END: u16 = 60000;

/// `Rng::gen_range` on `rand::thread_rng()`, with the half-open range from
/// `low` to `high`: a number of that range, which one is left to chance. An
/// empty range is refused because `gen_range` panics on it.
#[verifier::external_body]
fn random_between(low: u16, high: u16) -> (n: u16)
    requires
        low < high,
    ensures
        low <= n < high,
{
    rand::thread_rng().gen_range(low..high)
}

/// Whether a mock server may listen on `port`.
pub open spec fn in_port_range(port: u16) -> bool {
    PORT_RANGE_START <= port < PORT_RANGE_END
}

/// A port for a mock server to try, picked at random from the range that
/// mock servers listen in. Whether it is free is for the caller to test.
pub fn candidate_port() -> (port: u16)
    ensures
        in_port_range(port),
{
    random_between(PORT_RANGE_START, PORT_RANGE_END)
}

} // verus!
