//! The broker's operations: single-key and batch store, read and delete
//! over a keystore, with "absent" kept apart from failure.
use vstd::prelude::*;
use crate::error::{CredentialError, KeystoreError, Operation};
use crate::keystore::Keystore;
use crate::json::{insert_string, json_member_keys, json_string_members};
use crate::model::{
    after_delete, after_store, delete_result, first_refused, found, get_result, keys_of,
    none_refused, present_count, store_all, store_result,
};

verus! {

/// `e` is a failure of `operation` on `key`.
pub open spec fn fails_with(e: CredentialError, operation: Operation, key: Seq<char>) -> bool {
    e.operation == operation && e.key@ == key
}

/// The failure that a keystore error becomes during `operation` on `key`:
/// a handle that could not be created is reported as such, anything else
/// as a failure of the operation.
pub open spec fn failure_of(e: CredentialError, outcome: KeystoreError, operation: Operation, key: Seq<char>) -> bool {
    match outcome {
        KeystoreError::BadEntry(d) => fails_with(e, Operation::CreateEntry, key) && e.detail@ == d@,
        KeystoreError::Backend(d) => fails_with(e, operation, key) && e.detail@ == d@,
        KeystoreError::NoEntry => fails_with(e, operation, key) && e.detail@ == no_entry_text(),
    }
}

pub open spec fn no_entry_text() -> Seq<char> {
    "no entry"@
}

fn failure(outcome: KeystoreError, operation: Operation, key: &str) -> (e: CredentialError)
    ensures
        failure_of(e, outcome, operation, key@),
{
    match outcome {
        KeystoreError::BadEntry(d) => CredentialError::new(Operation::CreateEntry, key, d),
        KeystoreError::Backend(d) => CredentialError::new(operation, key, d),
        KeystoreError::NoEntry => CredentialError::new(operation, key, String::from_str("no entry")),
    }
}

/// What a write's outcome means to the caller: any keystore error is a
/// failure of the store.
pub fn classify_store(key: &str, outcome: Result<(), KeystoreError>) -> (r: Result<(), CredentialError>)
    ensures
        match outcome {
            Ok(()) => r is Ok,
            Err(o) => r is Err && failure_of(r->Err_0, o, Operation::Store, key@),
        },
{
    match outcome {
        Ok(()) => Ok(()),
        Err(o) => Err(failure(o, Operation::Store, key)),
    }
}

/// What a read's outcome means to the caller: a missing entry is an absent
/// value, not a failure.
pub fn classify_read(key: &str, outcome: Result<String, KeystoreError>) -> (r: Result<Option<String>, CredentialError>)
    ensures
        match outcome {
            Ok(s) => r is Ok && r->Ok_0 is Some && r->Ok_0->Some_0@ == s@,
            Err(KeystoreError::NoEntry) => r == Ok::<Option<String>, CredentialError>(None),
            Err(o) => r is Err && failure_of(r->Err_0, o, Operation::Retrieve, key@),
        },
{
    match outcome {
        Ok(s) => Ok(Some(s)),
        Err(KeystoreError::NoEntry) => Ok(None),
        Err(o) => Err(failure(o, Operation::Retrieve, key)),
    }
}

/// What a deletion's outcome means to the caller: `true` when a value was
/// removed, `false` when there was none, which is not a failure.
pub fn classify_delete(key: &str, outcome: Result<(), KeystoreError>) -> (r: Result<bool, CredentialError>)
    ensures
        match outcome {
            Ok(()) => r == Ok::<bool, CredentialError>(true),
            Err(KeystoreError::NoEntry) => r == Ok::<bool, CredentialError>(false),
            Err(o) => r is Err && failure_of(r->Err_0, o, Operation::Delete, key@),
        },
{
    match outcome {
        Ok(()) => Ok(true),
        Err(KeystoreError::NoEntry) => Ok(false),
        Err(o) => Err(failure(o, Operation::Delete, key)),
    }
}

/// The failing key of a result, or success.
pub open spec fn unit_outcome(r: Result<(), CredentialError>) -> Result<(), Seq<char>> {
    match r {
        Ok(()) => Ok(()),
        Err(e) => Err(e.key@),
    }
}

pub open spec fn read_outcome(r: Result<Option<String>, CredentialError>) -> Result<Option<Seq<char>>, Seq<char>> {
    match r {
        Ok(Some(s)) => Ok(Some(s@)),
        Ok(None) => Ok(None),
        Err(e) => Err(e.key@),
    }
}

pub open spec fn bool_outcome(r: Result<bool, CredentialError>) -> Result<bool, Seq<char>> {
    match r {
        Ok(b) => Ok(b),
        Err(e) => Err(e.key@),
    }
}

/// Stores `value` under `key`, replacing any earlier value.
pub fn store_credential<K: Keystore>(store: &mut K, key: String, value: String) -> (r: Result<(), CredentialError>)
    ensures
        final(store).exclusive() == old(store).exclusive(),
        final(store).refused() == old(store).refused(),
        r is Err ==> r->Err_0.key@ == key@ && (r->Err_0.operation == Operation::Store
            || r->Err_0.operation == Operation::CreateEntry),
        old(store).exclusive() ==> {
            &&& final(store).contents() == after_store(old(store).contents(), old(store).refused(), key@, value@)
            &&& unit_outcome(r) == store_result(old(store).refused(), key@)
            &&& r is Err ==> r->Err_0.operation == Operation::Store
        },
{
    let outcome = store.set_secret(key.as_str(), value.as_str());
    classify_store(key.as_str(), outcome)
}

/// Reads the value stored under `key`; `Ok(None)` when there is none.
pub fn get_credential<K: Keystore>(store: &K, key: String) -> (r: Result<Option<String>, CredentialError>)
    ensures
        r is Err ==> r->Err_0.key@ == key@ && (r->Err_0.operation == Operation::Retrieve
            || r->Err_0.operation == Operation::CreateEntry),
        store.exclusive() ==> {
            &&& read_outcome(r) == get_result(store.contents(), store.refused(), key@)
            &&& r is Err ==> r->Err_0.operation == Operation::Retrieve
        },
{
    let outcome = store.get_secret(key.as_str());
    classify_read(key.as_str(), outcome)
}

/// Deletes the value stored under `key`: `Ok(true)` when one was removed,
/// `Ok(false)` when there was none.
pub fn delete_credential<K: Keystore>(store: &mut K, key: String) -> (r: Result<bool, CredentialError>)
    ensures
        final(store).exclusive() == old(store).exclusive(),
        final(store).refused() == old(store).refused(),
        r is Err ==> r->Err_0.key@ == key@ && (r->Err_0.operation == Operation::Delete
            || r->Err_0.operation == Operation::CreateEntry),
        old(store).exclusive() ==> {
            &&& final(store).contents() == after_delete(old(store).contents(), old(store).refused(), key@)
            &&& bool_outcome(r) == delete_result(old(store).contents(), old(store).refused(), key@)
            &&& r is Err ==> r->Err_0.operation == Operation::Delete
        },
{
    let outcome = store.delete_secret(key.as_str());
    classify_delete(key.as_str(), outcome)
}

/// The keys and values of a sequence of pairs.
pub open spec fn pair_views(pairs: Seq<(String, String)>) -> Seq<(Seq<char>, Seq<char>)> {
    pairs.map_values(|p: (String, String)| (p.0@, p.1@))
}

/// The text of each key.
pub open spec fn key_views(keys: Seq<String>) -> Seq<Seq<char>> {
    keys.map_values(|k: String| k@)
}

/// Stores each pair in order and stops at the first failure, which it
/// returns; what was stored before it stays stored. On success returns the
/// number of pairs.
pub fn store_credentials_batch<K: Keystore>(store: &mut K, credentials: Vec<(String, String)>) -> (r: Result<usize, CredentialError>)
    ensures
        final(store).exclusive() == old(store).exclusive(),
        final(store).refused() == old(store).refused(),
        r is Ok ==> r->Ok_0 == credentials.len(),
        r is Err ==> exists|i: int| 0 <= i < credentials.len() && r->Err_0.key@ == (#[trigger] credentials@[i]).0@
            && (r->Err_0.operation == Operation::Store || r->Err_0.operation == Operation::CreateEntry),
        old(store).exclusive() ==> {
            let pairs = pair_views(credentials@);
            let keys = keys_of(pairs);
            &&& r is Ok <==> none_refused(old(store).refused(), keys)
            &&& r is Ok ==> final(store).contents() == store_all(old(store).contents(), pairs)
            &&& r is Err ==> exists|i: int| #[trigger] first_refused(old(store).refused(), keys, i)
                && fails_with(r->Err_0, Operation::Store, keys[i])
                && final(store).contents() == store_all(old(store).contents(), pairs.subrange(0, i))
        },
{
    let ghost pairs = pair_views(credentials@);
    let ghost keys = keys_of(pairs);
    let mut count: usize = 0;
    while count < credentials.len()
        invariant
            count <= credentials.len(),
            pairs == pair_views(credentials@),
            keys == keys_of(pairs),
            store.exclusive() == old(store).exclusive(),
            store.refused() == old(store).refused(),
            old(store).exclusive() ==> {
                &&& none_refused(old(store).refused(), keys.subrange(0, count as int))
                &&& store.contents() == store_all(old(store).contents(), pairs.subrange(0, count as int))
            },
        decreases credentials.len() - count,
    {
        let key = credentials[count].0.as_str();
        let value = credentials[count].1.as_str();
        let outcome = store.set_secret(key, value);
        match classify_store(key, outcome) {
            Ok(()) => {},
            Err(e) => {
                proof {
                    if old(store).exclusive() {
                        assert(first_refused(old(store).refused(), keys, count as int)) by {
                            assert forall|j: int| 0 <= j < count implies !old(store).refused().contains(#[trigger] keys[j]) by {
                                assert(keys.subrange(0, count as int)[j] == keys[j]);
                            }
                        }
                    }
                }
                return Err(e);
            },
        }
        proof {
            if old(store).exclusive() {
                assert(pairs.subrange(0, count + 1).drop_last() =~= pairs.subrange(0, count as int));
                assert forall|j: int| 0 <= j < count + 1 implies !old(store).refused().contains(#[trigger] keys.subrange(0, count + 1)[j]) by {
                    if j < count {
                        assert(keys.subrange(0, count + 1)[j] == keys.subrange(0, count as int)[j]);
                    }
                }
            }
        }
        count = count + 1;
    }
    proof {
        assert(pairs.subrange(0, count as int) =~= pairs);
        assert(keys.subrange(0, count as int) =~= keys);
    }
    Ok(count)
}

/// Reads each key in order. Keys with no stored value are left out of the
/// object; the first failure stops the read and is returned.
pub fn get_credentials_batch<K: Keystore>(store: &K, keys: Vec<String>) -> (r: Result<serde_json::Map<String, serde_json::Value>, CredentialError>)
    ensures
        r is Ok ==> json_member_keys(r->Ok_0) == json_string_members(r->Ok_0).dom()
            && json_member_keys(r->Ok_0).subset_of(key_views(keys@).to_set()),
        r is Err ==> exists|i: int| 0 <= i < keys.len() && r->Err_0.key@ == (#[trigger] keys@[i])@
            && (r->Err_0.operation == Operation::Retrieve || r->Err_0.operation == Operation::CreateEntry),
        store.exclusive() ==> {
            let ks = key_views(keys@);
            &&& r is Ok <==> none_refused(store.refused(), ks)
            &&& r is Ok ==> json_string_members(r->Ok_0) == found(store.contents(), ks)
            &&& r is Err ==> exists|i: int| #[trigger] first_refused(store.refused(), ks, i)
                && fails_with(r->Err_0, Operation::Retrieve, ks[i])
        },
{
    let ghost ks = key_views(keys@);
    let mut result = serde_json::Map::new();
    let mut i: usize = 0;
    while i < keys.len()
        invariant
            i <= keys.len(),
            ks == key_views(keys@),
            json_member_keys(result) == json_string_members(result).dom(),
            json_member_keys(result).subset_of(ks.subrange(0, i as int).to_set()),
            store.exclusive() ==> {
                &&& none_refused(store.refused(), ks.subrange(0, i as int))
                &&& json_string_members(result) == found(store.contents(), ks.subrange(0, i as int))
            },
        decreases keys.len() - i,
    {
        let key = keys[i].as_str();
        let outcome = store.get_secret(key);
        proof {
            assert(ks.subrange(0, i + 1) =~= ks.subrange(0, i as int).push(ks[i as int]));
            ks.subrange(0, i as int).lemma_push_to_set_commute(ks[i as int]);
        }
        match classify_read(key, outcome) {
            Ok(Some(value)) => {
                insert_string(&mut result, keys[i].clone(), value);
            },
            Ok(None) => {},
            Err(e) => {
                proof {
                    if store.exclusive() {
                        assert(first_refused(store.refused(), ks, i as int)) by {
                            assert forall|j: int| 0 <= j < i implies !store.refused().contains(#[trigger] ks[j]) by {
                                assert(ks.subrange(0, i as int)[j] == ks[j]);
                            }
                        }
                    }
                }
                return Err(e);
            },
        }
        proof {
            if store.exclusive() {
                assert(found(store.contents(), ks.subrange(0, i + 1)) =~= json_string_members(result));
                assert forall|j: int| 0 <= j < i + 1 implies !store.refused().contains(#[trigger] ks.subrange(0, i + 1)[j]) by {
                    if j < i {
                        assert(ks.subrange(0, i + 1)[j] == ks.subrange(0, i as int)[j]);
                    }
                }
            }
        }
        i = i + 1;
    }
    proof {
        assert(ks.subrange(0, i as int) =~= ks);
    }
    Ok(result)
}

/// Deletes each key in order and counts the values actually removed; keys
/// with no stored value are skipped. The first failure stops the deletion
/// and is returned; what was deleted before it stays deleted.
pub fn delete_credentials_batch<K: Keystore>(store: &mut K, keys: Vec<String>) -> (r: Result<usize, CredentialError>)
    ensures
        final(store).exclusive() == old(store).exclusive(),
        final(store).refused() == old(store).refused(),
        r is Ok ==> r->Ok_0 <= keys.len(),
        r is Err ==> exists|i: int| 0 <= i < keys.len() && r->Err_0.key@ == (#[trigger] keys@[i])@
            && (r->Err_0.operation == Operation::Delete || r->Err_0.operation == Operation::CreateEntry),
        old(store).exclusive() ==> {
            let ks = key_views(keys@);
            &&& r is Ok <==> none_refused(old(store).refused(), ks)
            &&& r is Ok ==> r->Ok_0 == present_count(old(store).contents(), ks)
                && final(store).contents() == old(store).contents().remove_keys(ks.to_set())
            &&& r is Err ==> exists|i: int| #[trigger] first_refused(old(store).refused(), ks, i)
                && fails_with(r->Err_0, Operation::Delete, ks[i])
                && final(store).contents() == old(store).contents().remove_keys(ks.subrange(0, i).to_set())
        },
{
    let ghost ks = key_views(keys@);
    let ghost start = old(store).contents();
    let mut count: usize = 0;
    let mut i: usize = 0;
    proof {
        assert(ks.subrange(0, 0).to_set() =~= Set::<Seq<char>>::empty());
        assert(start.remove_keys(Set::<Seq<char>>::empty()) =~= start);
        assert(Set::<Seq<char>>::empty().intersect(start.dom()) =~= Set::<Seq<char>>::empty());
    }
    while i < keys.len()
        invariant
            i <= keys.len(),
            count <= i,
            ks == key_views(keys@),
            start == old(store).contents(),
            store.exclusive() == old(store).exclusive(),
            store.refused() == old(store).refused(),
            old(store).exclusive() ==> {
                &&& none_refused(old(store).refused(), ks.subrange(0, i as int))
                &&& store.contents() == start.remove_keys(ks.subrange(0, i as int).to_set())
                &&& count == present_count(start, ks.subrange(0, i as int))
            },
        decreases keys.len() - i,
    {
        let key = keys[i].as_str();
        let ghost prefix = ks.subrange(0, i as int).to_set();
        proof {
            assert(ks.subrange(0, i + 1) =~= ks.subrange(0, i as int).push(ks[i as int]));
            ks.subrange(0, i as int).lemma_push_to_set_commute(ks[i as int]);
        }
        let outcome = store.delete_secret(key);
        match classify_delete(key, outcome) {
            Ok(true) => {
                proof {
                    if old(store).exclusive() {
                        let k = ks[i as int];
                        assert(start.contains_key(k) && !prefix.contains(k));
                        assert(prefix.insert(k).intersect(start.dom()) =~= prefix.intersect(start.dom()).insert(k));
                    }
                }
                count = count + 1;
            },
            Ok(false) => {
                proof {
                    if old(store).exclusive() {
                        let k = ks[i as int];
                        assert(prefix.insert(k).intersect(start.dom()) =~= prefix.intersect(start.dom()));
                    }
                }
            },
            Err(e) => {
                proof {
                    if old(store).exclusive() {
                        assert(first_refused(old(store).refused(), ks, i as int)) by {
                            assert forall|j: int| 0 <= j < i implies !old(store).refused().contains(#[trigger] ks[j]) by {
                                assert(ks.subrange(0, i as int)[j] == ks[j]);
                            }
                        }
                    }
                }
                return Err(e);
            },
        }
        proof {
            if old(store).exclusive() {
                let k = ks[i as int];
                assert(store.contents() =~= start.remove_keys(prefix.insert(k)));
                assert forall|j: int| 0 <= j < i + 1 implies !old(store).refused().contains(#[trigger] ks.subrange(0, i + 1)[j]) by {
                    if j < i {
                        assert(ks.subrange(0, i + 1)[j] == ks.subrange(0, i as int)[j]);
                    }
                }
            }
        }
        i = i + 1;
    }
    proof {
        assert(ks.subrange(0, i as int) =~= ks);
    }
    Ok(count)
}

} // verus!
