//! The capability that the broker needs from a credential store, and an
//! in-memory store that meets it.
use vstd::prelude::*;
use vstd::hash_map::StringHashMap;
use crate::error::KeystoreError;
use crate::model::{after_delete, after_store, delete_result, get_result, store_result, Contents, Refused};

verus! {

/// Set, read and delete a secret by key, each access on its own.
///
/// When `exclusive` holds, every change to the store goes through this
/// handle, and each access behaves as `contents` and `refused` describe.
/// Otherwise (a store that other programs share) nothing is known of what an
/// access returns.
pub trait Keystore {
    spec fn exclusive(&self) -> bool;

    spec fn contents(&self) -> Contents;

    spec fn refused(&self) -> Refused;

    fn set_secret(&mut self, key: &str, value: &str) -> (r: Result<(), KeystoreError>)
        ensures
            final(self).exclusive() == old(self).exclusive(),
            final(self).refused() == old(self).refused(),
            old(self).exclusive() ==> {
                &&& final(self).contents() == after_store(
                    old(self).contents(),
                    old(self).refused(),
                    key@,
                    value@,
                )
                &&& match r {
                    Ok(()) => store_result(old(self).refused(), key@) == Ok::<(), Seq<char>>(()),
                    Err(e) => store_result(old(self).refused(), key@) == Err::<(), Seq<char>>(key@)
                        && e is Backend,
                }
            },
    ;

    fn get_secret(&self, key: &str) -> (r: Result<String, KeystoreError>)
        ensures
            self.exclusive() ==> match r {
                Ok(s) => get_result(self.contents(), self.refused(), key@) == Ok::<
                    Option<Seq<char>>,
                    Seq<char>,
                >(Some(s@)),
                Err(KeystoreError::NoEntry) => get_result(self.contents(), self.refused(), key@)
                    == Ok::<Option<Seq<char>>, Seq<char>>(None),
                Err(KeystoreError::Backend(_)) => get_result(
                    self.contents(),
                    self.refused(),
                    key@,
                ) == Err::<Option<Seq<char>>, Seq<char>>(key@),
                Err(KeystoreError::BadEntry(_)) => false,
            },
    ;

    fn delete_secret(&mut self, key: &str) -> (r: Result<(), KeystoreError>)
        ensures
            final(self).exclusive() == old(self).exclusive(),
            final(self).refused() == old(self).refused(),
            old(self).exclusive() ==> {
                &&& final(self).contents() == after_delete(
                    old(self).contents(),
                    old(self).refused(),
                    key@,
                )
                &&& match r {
                    Ok(()) => delete_result(old(self).contents(), old(self).refused(), key@)
                        == Ok::<bool, Seq<char>>(true),
                    Err(KeystoreError::NoEntry) => delete_result(
                        old(self).contents(),
                        old(self).refused(),
                        key@,
                    ) == Ok::<bool, Seq<char>>(false),
                    Err(KeystoreError::Backend(_)) => delete_result(
                        old(self).contents(),
                        old(self).refused(),
                        key@,
                    ) == Err::<bool, Seq<char>>(key@),
                    Err(KeystoreError::BadEntry(_)) => false,
                }
            },
    ;
}

/// A keystore held in memory, for callers that need no persistence and for
/// exercising the broker. Keys can be locked so that every access to them is
/// refused, as an unreachable or access-denied backend would.
pub struct MemoryKeystore {
    secrets: StringHashMap<String>,
    locked: StringHashMap<()>,
}

impl MemoryKeystore {
    /// An empty store with no locked key.
    pub fn new() -> (r: MemoryKeystore)
        ensures
            r.contents() == Map::<Seq<char>, Seq<char>>::empty(),
            r.refused() == Set::<Seq<char>>::empty(),
    {
        let r = MemoryKeystore { secrets: StringHashMap::new(), locked: StringHashMap::new() };
        assert(r.contents() =~= Map::<Seq<char>, Seq<char>>::empty());
        assert(r.refused() =~= Set::<Seq<char>>::empty());
        r
    }

    /// From now on every access to `key` is refused; what is stored stays.
    pub fn lock(&mut self, key: &str)
        ensures
            final(self).contents() == old(self).contents(),
            final(self).refused() == old(self).refused().insert(key@),
    {
        self.locked.insert(String::from_str(key), ());
        assert(final(self).refused() =~= old(self).refused().insert(key@));
    }

    /// Accesses to `key` are served again.
    pub fn unlock(&mut self, key: &str)
        ensures
            final(self).contents() == old(self).contents(),
            final(self).refused() == old(self).refused().remove(key@),
    {
        self.locked.remove(key);
        assert(final(self).refused() =~= old(self).refused().remove(key@));
    }

    fn refusal(key: &str) -> (r: KeystoreError)
        ensures
            r is Backend,
    {
        let mut detail = String::from_str("access to '");
        detail.append(key);
        detail.append("' is locked");
        KeystoreError::Backend(detail)
    }
}

impl Keystore for MemoryKeystore {
    open spec fn exclusive(&self) -> bool {
        true
    }

    closed spec fn contents(&self) -> Contents {
        self.secrets@.map_values(|v: String| v@)
    }

    closed spec fn refused(&self) -> Refused {
        self.locked@.dom()
    }

    fn set_secret(&mut self, key: &str, value: &str) -> (r: Result<(), KeystoreError>) {
        if self.locked.contains_key(key) {
            return Err(MemoryKeystore::refusal(key));
        }
        self.secrets.insert(String::from_str(key), String::from_str(value));
        assert(self.contents() =~= old(self).contents().insert(key@, value@));
        Ok(())
    }

    fn get_secret(&self, key: &str) -> (r: Result<String, KeystoreError>) {
        if self.locked.contains_key(key) {
            return Err(MemoryKeystore::refusal(key));
        }
        match self.secrets.get(key) {
            Some(v) => Ok(v.clone()),
            None => Err(KeystoreError::NoEntry),
        }
    }

    fn delete_secret(&mut self, key: &str) -> (r: Result<(), KeystoreError>) {
        if self.locked.contains_key(key) {
            return Err(MemoryKeystore::refusal(key));
        }
        if !self.secrets.contains_key(key) {
            return Err(KeystoreError::NoEntry);
        }
        self.secrets.remove(key);
        assert(self.contents() =~= old(self).contents().remove(key@));
        Ok(())
    }
}

} // verus!
