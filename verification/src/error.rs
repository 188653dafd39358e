//! Errors of the server-signal layer.

use vstd::prelude::*;

verus! {

/// `serde_json::Error`'s `Display`: the text of a serialization error. Which
/// text it is, is left unsaid.
#[verifier::external_body]
fn serde_error_text(e: &serde_json::Error) -> String {
    e.to_string()
}

/// Errors of the server-signal layer.
#[derive(Debug)]
pub enum ServerSignalError {
    MissingServerSignals,
    AddingSignalFailed,
    UpdateSignalFailed,
    SerializationFailed(serde_json::Error),
}

impl ServerSignalError {
    /// The error as text; a serialization failure reads as its cause.
    pub fn to_string(&self) -> (s: String)
        ensures
            self is MissingServerSignals ==> s@ == "No ServerSignals in State"@,
            self is AddingSignalFailed ==> s@ == "Could not add ServerSignal to ServerSignals"@,
            self is UpdateSignalFailed ==> s@ == "Could not update Signal"@,
    {
        match self {
            ServerSignalError::MissingServerSignals => "No ServerSignals in State".to_string(),
            ServerSignalError::AddingSignalFailed => "Could not add ServerSignal to ServerSignals".to_string(),
            ServerSignalError::UpdateSignalFailed => "Could not update Signal".to_string(),
            ServerSignalError::SerializationFailed(e) => serde_error_text(e),
        }
    }
}

impl From<serde_json::Error> for ServerSignalError {
    fn from(e: serde_json::Error) -> (r: Self) {
        ServerSignalError::SerializationFailed(e)
    }
}

impl vstd::std_specs::convert::FromSpecImpl<serde_json::Error> for ServerSignalError {
    open spec fn obeys_from_spec() -> bool {
        true
    }

    open spec fn from_spec(e: serde_json::Error) -> Self {
        ServerSignalError::SerializationFailed(e)
    }
}

} // verus!
