//! The failures that the gateway reports.

use vstd::prelude::*;
use vstd::string::StringExecFns;
use crate::text::{decimal_digits, push_decimal};

verus! {

/// Why an operation of the gateway failed.
#[derive(Clone, Copy, Debug, PartialEq, Eq, Structural)]
pub enum GatewayError {
    /// The remote service could not be reached.
    Transport,
    /// The credentials were rejected, or a renewal after an unauthorized
    /// reply failed.
    Auth,
    /// The remote service answered with an error status other than
    /// unauthorized; the status is carried along.
    Upstream(u16),
    /// The remote service sent catalog data that could not be read.
    Parse,
}

/// The textual description of a failure.
pub open spec fn description(error: GatewayError) -> Seq<char> {
    match error {
        GatewayError::Transport => "transport error: the remote service could not be reached"@,
        GatewayError::Auth => "authentication failed"@,
        GatewayError::Upstream(status) => "upstream error: status "@ + decimal_digits(status as nat),
        GatewayError::Parse => "parse error: malformed data from the remote service"@,
    }
}

impl GatewayError {
    /// The textual description of the failure.
    pub fn describe(&self) -> (text: String)
        ensures
            text@ == description(*self),
    {
        match self {
            GatewayError::Transport => String::from_str(
                "transport error: the remote service could not be reached",
            ),
            GatewayError::Auth => String::from_str("authentication failed"),
            GatewayError::Upstream(status) => {
                let mut text = String::from_str("upstream error: status ");
                push_decimal(&mut text, *status as usize);
                text
            },
            GatewayError::Parse => String::from_str(
                "parse error: malformed data from the remote service",
            ),
        }
    }
}

} // verus!
