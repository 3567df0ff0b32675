use vstd::prelude::*;

verus! {

/// The ways an operation against the router can fail.
///
/// `Transport` stands for a failed HTTP exchange, `Parse` for a response
/// body that does not have the expected shape, and `Authentication` for a
/// login response in which no session token could be found.
#[derive(Clone, Copy, Debug, PartialEq, Eq, Structural)]
pub enum TianyiError {
    Transport,
    Parse,
    Authentication,
}

} // verus!
