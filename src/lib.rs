//! A small credential broker: store, read and delete named secrets in a
//! keystore under one fixed service namespace, one key at a time or in
//! batches. A missing secret reads as absent, never as a failure; batches
//! run key by key and stop at the first failure, keeping what was done.

pub mod broker;
pub mod error;
pub mod json;
pub mod keystore;
pub mod laws;
pub mod model;
pub mod os_keystore;

pub use broker::{
    classify_delete, classify_read, classify_store, delete_credential, delete_credentials_batch,
    get_credential, get_credentials_batch, store_credential, store_credentials_batch,
};
pub use error::{CredentialError, KeystoreError, Operation};
pub use keystore::{Keystore, MemoryKeystore};
pub use os_keystore::{OsKeystore, SERVICE_NAME};
