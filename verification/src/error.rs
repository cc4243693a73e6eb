//! The error type surfaced by this library.

use vstd::prelude::*;
use vstd::string::StringExecFns;

verus! {

/// Relies on `std::io::Error` being usable as an opaque payload; the
/// library never looks inside a value of it.
#[verifier::external_type_specification]
#[verifier::external_body]
pub struct ExIoError(std::io::Error);

/// Relies on `std::num::ParseIntError` being usable as an opaque
/// payload; the library never looks inside a value of it.
#[verifier::external_type_specification]
#[verifier::external_body]
pub struct ExParseIntError(std::num::ParseIntError);

/// Everything that can go wrong between the command line and the
/// receiver.
#[derive(Debug)]
pub enum Error {
    /// A numeric argument could not be read.
    ParseInt(std::num::ParseIntError),
    /// Discovery failed to produce a receiver address.
    Avahi(crate::avahi_error::Error),
    /// The transport failed, timed out, or was closed.
    IO(std::io::Error),
    /// A caller-supplied value lies outside the enumerated domain.
    Input(String),
}

impl From<std::num::ParseIntError> for Error {
    fn from(parse_error: std::num::ParseIntError) -> (r: Self) {
        Error::ParseInt(parse_error)
    }
}

impl vstd::std_specs::convert::FromSpecImpl<std::num::ParseIntError> for Error {
    open spec fn obeys_from_spec() -> bool {
        true
    }

    open spec fn from_spec(t: std::num::ParseIntError) -> Self {
        Error::ParseInt(t)
    }
}

impl From<crate::avahi_error::Error> for Error {
    fn from(avahi_error: crate::avahi_error::Error) -> (r: Self) {
        Error::Avahi(avahi_error)
    }
}

impl vstd::std_specs::convert::FromSpecImpl<crate::avahi_error::Error> for Error {
    open spec fn obeys_from_spec() -> bool {
        true
    }

    open spec fn from_spec(t: crate::avahi_error::Error) -> Self {
        Error::Avahi(t)
    }
}

impl From<std::io::Error> for Error {
    fn from(io_error: std::io::Error) -> (r: Self) {
        Error::IO(io_error)
    }
}

impl vstd::std_specs::convert::FromSpecImpl<std::io::Error> for Error {
    open spec fn obeys_from_spec() -> bool {
        true
    }

    open spec fn from_spec(t: std::io::Error) -> Self {
        Error::IO(t)
    }
}

impl From<String> for Error {
    fn from(value: String) -> (r: Self) {
        Error::Input(value)
    }
}

impl vstd::std_specs::convert::FromSpecImpl<String> for Error {
    open spec fn obeys_from_spec() -> bool {
        true
    }

    open spec fn from_spec(t: String) -> Self {
        Error::Input(t)
    }
}

/// The message given to `Error::Input` when a value matches no state.
pub open spec fn mismatch_message(value: Seq<char>) -> Seq<char> {
    "given value "@ + value + " does not match one of the states"@
}

impl Error {
    /// The `Input` error reported when `value` matches no known state.
    pub fn input_value_mismatch(value: &str) -> (r: Error)
        ensures
            r matches Error::Input(m) && m@ == mismatch_message(value@),
    {
        let mut m = String::from_str("given value ");
        m.append(value);
        m.append(" does not match one of the states");
        Error::Input(m)
    }
}

} // verus!
