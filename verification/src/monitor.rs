//! The decision on a token that was presented.

use crate::access::AuthorizationReader;
use crate::identifier::{decode, parse_1w_id, OneWireId, ParseError};
use vstd::prelude::*;

verus! {

/// What is decided on a presented token.
#[derive(Clone, Copy, Debug, PartialEq, Eq, Structural)]
pub enum Decision {
    /// The token is authorized.
    Granted,
    /// The token is not authorized.
    Denied,
    /// The device's name is no identifier: nothing is decided.
    Unreadable(ParseError),
}

/// The decision on a device name that decoded to `decoded`, where `listed`
/// says whether the set held the identifier.
pub open spec fn decision_of(decoded: Result<OneWireId, ParseError>, listed: bool) -> Decision {
    match decoded {
        Err(error) => Decision::Unreadable(error),
        Ok(_) => if listed {
            Decision::Granted
        } else {
            Decision::Denied
        },
    }
}

/// Decides on a device name that decoded to `decoded`, where `listed` says
/// whether the set held the identifier.
pub fn decide(decoded: Result<OneWireId, ParseError>, listed: bool) -> (decision: Decision)
    ensures
        decision == decision_of(decoded, listed),
{
    match decoded {
        Err(error) => Decision::Unreadable(error),
        Ok(_) => if listed {
            Decision::Granted
        } else {
            Decision::Denied
        },
    }
}

/// Decides on the device that the bus announced under `name`.
///
/// A name that is no identifier is unreadable. Any other is granted or
/// denied by what the set holds at the moment of the lookup.
pub fn check_token(access_list: &AuthorizationReader, name: &str) -> (decision: Decision)
    ensures
        match decode(name@) {
            Err(error) => decision == Decision::Unreadable(error),
            Ok(_) => decision == Decision::Granted || decision == Decision::Denied,
        },
{
    let decoded = parse_1w_id(name);
    let listed = match decoded {
        Ok(id) => access_list.contains(&id),
        Err(_) => false,
    };
    decide(decoded, listed)
}

} // verus!
