//! Messages of the server-signal protocol.

use vstd::prelude::*;

verus! {

#[verifier::external_type_specification]
#[verifier::external_body]
pub struct ExJsonPatch(json_patch::Patch);

#[verifier::external_type_specification]
#[verifier::external_body]
pub struct ExJsonPatchOperation(json_patch::PatchOperation);

/// The patch that `json_patch::diff` computes from `old` to `new`.
pub uninterp spec fn json_patch_diff(old: serde_json::Value, new: serde_json::Value) -> json_patch::Patch;

/// `json_patch::diff`: the JSON Patch (RFC 6902) that turns `old` into
/// `new`. The patch is named, not stated.
#[verifier::external_body]
fn diff_values(old: &serde_json::Value, new: &serde_json::Value) -> (p: json_patch::Patch)
    ensures
        p == json_patch_diff(*old, *new),
{
    json_patch::diff(old, new)
}

/// An update of a named server signal, as a patch of its JSON value.
#[derive(Debug)]
pub struct ServerSignalUpdate {
    pub name: String,
    pub patch: json_patch::Patch,
}

impl ServerSignalUpdate {
    /// The update of signal `name` from one JSON value to another.
    pub fn new_from_json(name: &str, old: &serde_json::Value, new: &serde_json::Value) -> (u: Self)
        ensures
            u.name@ == name@,
            u.patch == json_patch_diff(*old, *new),
    {
        ServerSignalUpdate { name: name.to_string(), patch: diff_values(old, new) }
    }
}

/// Messages of the server-signal protocol.
#[derive(Debug)]
pub enum ServerSignalMessage {
    Establish(String),
    EstablishResponse((String, serde_json::Value)),
    Update(ServerSignalUpdate),
}

/// Messages exchanged over the socket.
#[derive(Debug)]
pub enum Messages {
    ServerSignal(ServerSignalMessage),
}

} // verus!
