//! The errors that end a loop job.

use vstd::prelude::*;
use vstd::string::StringExecFns;
use crate::registry::ClientID;

verus! {

/// A client's connection ended.
#[derive(Clone, Debug, PartialEq, Eq)]
pub struct ClientDisconnectError {
    pub client_id: ClientID,
}

/// Reading a line of input failed.
#[derive(Clone, Copy, Debug, PartialEq, Eq, Structural)]
pub struct InputHandleError;

/// Something that should not happen happened.
#[derive(Clone, Copy, Debug, PartialEq, Eq, Structural)]
pub struct UnexpectedError;

/// The outcome of one step of a client's listen loop.
pub type ConnectionStatus = Result<(), ClientDisconnectError>;

/// The outcome of one step of a background loop.
pub type ExpectedSuccess = Result<(), UnexpectedError>;

impl ClientDisconnectError {
    /// `Client <id> Disconnected`.
    pub fn to_string(&self) -> (r: String)
        ensures
            r@ == "Client "@ + self.client_id@ + " Disconnected"@,
    {
        let mut s = "Client ".to_string();
        s.append(self.client_id.as_str());
        s.append(" Disconnected");
        s
    }
}

impl InputHandleError {
    pub fn to_string(&self) -> (r: String)
        ensures
            r@ == "Problem with handling input!"@,
    {
        "Problem with handling input!".to_string()
    }
}

impl UnexpectedError {
    pub fn to_string(&self) -> (r: String)
        ensures
            r@ == "Unexpected Error!"@,
    {
        "Unexpected Error!".to_string()
    }
}

} // verus!
