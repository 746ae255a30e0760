//! Settings of the service.

use vstd::prelude::*;

verus! {

/// Where the service listens.
#[derive(Clone, Debug, PartialEq, Eq, Hash)]
pub struct Config {
    pub server_addr: String,
}

} // verus!
