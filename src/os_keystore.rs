//! The platform's credential store (Windows Credential Manager, macOS
//! Keychain, Linux keyutils), reached through the `keyring` crate under one
//! service namespace.
use vstd::prelude::*;
use crate::error::KeystoreError;
use crate::keystore::Keystore;
use crate::model::{Contents, Refused};

verus! {

/// The service namespace under which this application keeps its credentials.
pub const SERVICE_NAME: &'static str = "teams-agent-bridge";

#[verifier::external_type_specification]
#[verifier::external_body]
pub struct ExKeyringEntry(keyring::Entry);

#[verifier::external_type_specification]
#[verifier::external_body]
pub struct ExKeyringError(keyring::Error);

/// Relies on keyring::Entry::new: a handle on the credential of `user` under
/// `service`, or the reason none could be made. It panics only when the
/// crate's internal lock is poisoned.
pub assume_specification[ keyring::Entry::new ](service: &str, user: &str) -> keyring::Result<keyring::Entry>;

/// Relies on keyring::Entry::set_password: writes the secret of the entry.
pub assume_specification[ keyring::Entry::set_password ](entry: &keyring::Entry, password: &str) -> keyring::Result<()>;

/// Relies on keyring::Entry::get_password: reads the secret of the entry, or
/// fails with NoEntry when there is none.
pub assume_specification[ keyring::Entry::get_password ](entry: &keyring::Entry) -> keyring::Result<String>;

/// Relies on keyring::Entry::delete_credential: removes the entry's
/// credential, or fails with NoEntry when there is none.
#[verifier::external_body]
fn remove_entry(entry: &keyring::Entry) -> keyring::Result<()> {
    entry.delete_credential()
}

/// Relies on keyring::Error's variants: true for NoEntry, the error that
/// reports a missing credential.
#[verifier::external_body]
fn is_no_entry(e: &keyring::Error) -> bool {
    match e {
        keyring::Error::NoEntry => true,
        _ => false,
    }
}

/// What a keyring error means to the broker: a missing credential, or a
/// failure with the error's text.
fn keystore_error(e: keyring::Error) -> (r: KeystoreError)
    ensures
        r is NoEntry || r is Backend,
{
    if is_no_entry(&e) {
        KeystoreError::NoEntry
    } else {
        KeystoreError::Backend(e.to_string())
    }
}

/// The platform credential store, under a fixed service namespace. Other
/// programs share it, so nothing is known in advance of what an access
/// returns: it is not `exclusive`.
pub struct OsKeystore {
    service: String,
}

impl OsKeystore {
    /// A handle on the platform store under this application's namespace.
    pub fn new() -> (r: OsKeystore)
        ensures
            r.service_name() == SERVICE_NAME@,
    {
        OsKeystore { service: String::from_str(SERVICE_NAME) }
    }

    pub closed spec fn service_name(&self) -> Seq<char> {
        self.service@
    }

    /// The service namespace that every access is scoped to.
    pub fn service(&self) -> (r: &str)
        ensures
            r@ == self.service_name(),
    {
        self.service.as_str()
    }

    fn entry(&self, key: &str) -> (r: Result<keyring::Entry, KeystoreError>)
        ensures
            r is Err ==> r->Err_0 is BadEntry,
    {
        match keyring::Entry::new(self.service.as_str(), key) {
            Ok(entry) => Ok(entry),
            Err(e) => Err(KeystoreError::BadEntry(e.to_string())),
        }
    }
}

impl Keystore for OsKeystore {
    open spec fn exclusive(&self) -> bool {
        false
    }

    open spec fn contents(&self) -> Contents {
        Map::empty()
    }

    open spec fn refused(&self) -> Refused {
        Set::empty()
    }

    fn set_secret(&mut self, key: &str, value: &str) -> (r: Result<(), KeystoreError>) {
        let entry = self.entry(key)?;
        match entry.set_password(value) {
            Ok(()) => Ok(()),
            Err(e) => Err(keystore_error(e)),
        }
    }

    fn get_secret(&self, key: &str) -> (r: Result<String, KeystoreError>) {
        let entry = self.entry(key)?;
        match entry.get_password() {
            Ok(secret) => Ok(secret),
            Err(e) => Err(keystore_error(e)),
        }
    }

    fn delete_secret(&mut self, key: &str) -> (r: Result<(), KeystoreError>) {
        let entry = self.entry(key)?;
        match remove_entry(&entry) {
            Ok(()) => Ok(()),
            Err(e) => Err(keystore_error(e)),
        }
    }
}

} // verus!
