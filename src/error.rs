use vstd::prelude::*;

verus! {

/// What a keystore reports when a single access does not succeed.
#[derive(Clone, Debug)]
pub enum KeystoreError {
    /// No secret is stored under the key.
    NoEntry,
    /// The handle for the key could not be created; nothing was read or written.
    BadEntry(String),
    /// The keystore could not complete the access for another reason
    /// (unreachable, access denied, corrupted entry, ...).
    Backend(String),
}

/// The broker operation during which a failure came.
#[derive(Clone, Copy, Debug, PartialEq, Eq, Structural)]
pub enum Operation {
    /// Creating the keystore handle for a key.
    CreateEntry,
    Store,
    Retrieve,
    Delete,
}

/// A failure surfaced by the broker: the operation, the key it concerned and
/// the keystore's own text. It never holds a credential value.
#[derive(Clone, Debug)]
pub struct CredentialError {
    pub operation: Operation,
    pub key: String,
    pub detail: String,
}

pub open spec fn message_head(operation: Operation) -> Seq<char> {
    match operation {
        Operation::CreateEntry => "Failed to create keyring entry for '"@,
        Operation::Store => "Failed to store credential '"@,
        Operation::Retrieve => "Failed to retrieve credential '"@,
        Operation::Delete => "Failed to delete credential '"@,
    }
}

/// The human-readable text of a failure: the operation, the key in quotes,
/// and the keystore's text.
pub open spec fn message_text(operation: Operation, key: Seq<char>, detail: Seq<char>) -> Seq<char> {
    message_head(operation) + key + "': "@ + detail
}

impl CredentialError {
    pub fn new(operation: Operation, key: &str, detail: String) -> (r: CredentialError)
        ensures
            r.operation == operation,
            r.key@ == key@,
            r.detail@ == detail@,
    {
        CredentialError { operation, key: String::from_str(key), detail }
    }

    /// The text shown to a user: names the key and the keystore's reason.
    pub fn message(&self) -> (r: String)
        ensures
            r@ == message_text(self.operation, self.key@, self.detail@),
    {
        let head = match self.operation {
            Operation::CreateEntry => "Failed to create keyring entry for '",
            Operation::Store => "Failed to store credential '",
            Operation::Retrieve => "Failed to retrieve credential '",
            Operation::Delete => "Failed to delete credential '",
        };
        let mut r = String::from_str(head);
        r.append(self.key.as_str());
        r.append("': ");
        r.append(self.detail.as_str());
        r
    }
}

} // verus!
