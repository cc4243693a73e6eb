//! Errors of the receiver-discovery collaborator.

use vstd::prelude::*;

verus! {

/// Why discovery did not yield a receiver address.
#[derive(Debug)]
pub enum Error {
    /// The browse finished without finding any matching host.
    NoHostsFound,
    /// Running or reading the browse failed.
    Io(std::io::Error),
}

impl From<std::io::Error> for Error {
    fn from(io_error: std::io::Error) -> (r: Self) {
        Error::Io(io_error)
    }
}

impl vstd::std_specs::convert::FromSpecImpl<std::io::Error> for Error {
    open spec fn obeys_from_spec() -> bool {
        true
    }

    open spec fn from_spec(t: std::io::Error) -> Self {
        Error::Io(t)
    }
}

} // verus!
