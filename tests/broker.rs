use credential_broker::{
    classify_delete, classify_read, classify_store, delete_credential, delete_credentials_batch,
    get_credential, get_credentials_batch, store_credential, store_credentials_batch,
    CredentialError, KeystoreError, MemoryKeystore, Operation, OsKeystore, SERVICE_NAME,
};
use serde_json::Value;

fn s(text: &str) -> String {
    text.to_string()
}

fn pairs(items: &[(&str, &str)]) -> Vec<(String, String)> {
    items.iter().map(|(k, v)| (s(k), s(v))).collect()
}

fn keys(items: &[&str]) -> Vec<String> {
    items.iter().map(|k| s(k)).collect()
}

#[test]
fn store_then_get_round_trip() {
    let mut store = MemoryKeystore::new();
    store_credential(&mut store, s("acs.accessKey"), s("secret1")).unwrap();
    assert_eq!(get_credential(&store, s("acs.accessKey")).unwrap(), Some(s("secret1")));
}

#[test]
fn store_twice_keeps_latest_value() {
    let mut store = MemoryKeystore::new();
    store_credential(&mut store, s("k"), s("first")).unwrap();
    store_credential(&mut store, s("k"), s("second")).unwrap();
    assert_eq!(get_credential(&store, s("k")).unwrap(), Some(s("second")));
}

#[test]
fn delete_twice_reports_true_then_false() {
    let mut store = MemoryKeystore::new();
    store_credential(&mut store, s("k"), s("v")).unwrap();
    assert_eq!(delete_credential(&mut store, s("k")).unwrap(), true);
    assert_eq!(delete_credential(&mut store, s("k")).unwrap(), false);
    assert_eq!(get_credential(&store, s("k")).unwrap(), None);
}

#[test]
fn delete_absent_key_is_not_an_error() {
    let mut store = MemoryKeystore::new();
    assert_eq!(delete_credential(&mut store, s("never")).unwrap(), false);
}

#[test]
fn get_never_stored_key_is_absent() {
    let store = MemoryKeystore::new();
    assert_eq!(get_credential(&store, s("never")).unwrap(), None);
}

#[test]
fn empty_key_and_value_round_trip() {
    let mut store = MemoryKeystore::new();
    store_credential(&mut store, s(""), s("")).unwrap();
    assert_eq!(get_credential(&store, s("")).unwrap(), Some(s("")));
}

#[test]
fn store_on_locked_key_fails_naming_key() {
    let mut store = MemoryKeystore::new();
    store.lock("k");
    let e = store_credential(&mut store, s("k"), s("topsecret")).unwrap_err();
    assert_eq!(e.operation, Operation::Store);
    assert_eq!(e.key, s("k"));
    assert!(!e.message().contains("topsecret"));
    store.unlock("k");
    assert_eq!(get_credential(&store, s("k")).unwrap(), None);
}

#[test]
fn get_on_locked_key_is_an_error_not_absent() {
    let mut store = MemoryKeystore::new();
    store_credential(&mut store, s("k"), s("v")).unwrap();
    store.lock("k");
    let e = get_credential(&store, s("k")).unwrap_err();
    assert_eq!(e.operation, Operation::Retrieve);
    assert_eq!(e.key, s("k"));
}

#[test]
fn delete_on_locked_key_fails_and_keeps_value() {
    let mut store = MemoryKeystore::new();
    store_credential(&mut store, s("k"), s("v")).unwrap();
    store.lock("k");
    let e = delete_credential(&mut store, s("k")).unwrap_err();
    assert_eq!(e.operation, Operation::Delete);
    store.unlock("k");
    assert_eq!(get_credential(&store, s("k")).unwrap(), Some(s("v")));
}

#[test]
fn store_batch_stops_at_first_failure() {
    let mut store = MemoryKeystore::new();
    store.lock("B");
    let e = store_credentials_batch(&mut store, pairs(&[("A", "1"), ("B", "2"), ("C", "3")]))
        .unwrap_err();
    assert_eq!(e.key, s("B"));
    assert_eq!(e.operation, Operation::Store);
    store.unlock("B");
    assert_eq!(get_credential(&store, s("A")).unwrap(), Some(s("1")));
    assert_eq!(get_credential(&store, s("B")).unwrap(), None);
    assert_eq!(get_credential(&store, s("C")).unwrap(), None);
}

#[test]
fn store_batch_counts_all_pairs() {
    let mut store = MemoryKeystore::new();
    let n = store_credentials_batch(&mut store, pairs(&[("A", "1"), ("B", "2"), ("A", "3")])).unwrap();
    assert_eq!(n, 3);
    assert_eq!(get_credential(&store, s("A")).unwrap(), Some(s("3")));
    assert_eq!(get_credential(&store, s("B")).unwrap(), Some(s("2")));
}

#[test]
fn store_batch_empty() {
    let mut store = MemoryKeystore::new();
    assert_eq!(store_credentials_batch(&mut store, Vec::new()).unwrap(), 0);
}

#[test]
fn get_batch_omits_absent_keys() {
    let mut store = MemoryKeystore::new();
    store_credential(&mut store, s("A"), s("valueA")).unwrap();
    store_credential(&mut store, s("C"), s("valueC")).unwrap();
    let found = get_credentials_batch(&store, keys(&["A", "B", "C"])).unwrap();
    assert_eq!(found.len(), 2);
    assert_eq!(found.get("A"), Some(&Value::String(s("valueA"))));
    assert_eq!(found.get("C"), Some(&Value::String(s("valueC"))));
    assert_eq!(found.get("B"), None);
}

#[test]
fn get_batch_empty_and_duplicates() {
    let mut store = MemoryKeystore::new();
    assert!(get_credentials_batch(&store, Vec::new()).unwrap().is_empty());
    store_credential(&mut store, s("A"), s("1")).unwrap();
    let found = get_credentials_batch(&store, keys(&["A", "A"])).unwrap();
    assert_eq!(found.len(), 1);
    assert_eq!(found.get("A"), Some(&Value::String(s("1"))));
}

#[test]
fn get_batch_stops_at_failure() {
    let mut store = MemoryKeystore::new();
    store_credential(&mut store, s("A"), s("1")).unwrap();
    store.lock("B");
    let e = get_credentials_batch(&store, keys(&["A", "B", "C"])).unwrap_err();
    assert_eq!(e.key, s("B"));
    assert_eq!(e.operation, Operation::Retrieve);
}

#[test]
fn delete_batch_counts_removed_only() {
    let mut store = MemoryKeystore::new();
    store_credential(&mut store, s("A"), s("1")).unwrap();
    store_credential(&mut store, s("B"), s("2")).unwrap();
    assert_eq!(delete_credentials_batch(&mut store, keys(&["A", "B", "C"])).unwrap(), 2);
    assert_eq!(get_credential(&store, s("A")).unwrap(), None);
    assert_eq!(get_credential(&store, s("B")).unwrap(), None);
}

#[test]
fn delete_batch_repeated_key_counts_once() {
    let mut store = MemoryKeystore::new();
    store_credential(&mut store, s("A"), s("1")).unwrap();
    assert_eq!(delete_credentials_batch(&mut store, keys(&["A", "A"])).unwrap(), 1);
}

#[test]
fn delete_batch_stops_at_failure() {
    let mut store = MemoryKeystore::new();
    store_credential(&mut store, s("A"), s("1")).unwrap();
    store_credential(&mut store, s("C"), s("3")).unwrap();
    store.lock("B");
    let e = delete_credentials_batch(&mut store, keys(&["A", "B", "C"])).unwrap_err();
    assert_eq!(e.key, s("B"));
    assert_eq!(e.operation, Operation::Delete);
    assert_eq!(get_credential(&store, s("A")).unwrap(), None);
    assert_eq!(get_credential(&store, s("C")).unwrap(), Some(s("3")));
}

#[test]
fn end_to_end_store_read_delete() {
    let mut store = MemoryKeystore::new();
    store_credential(&mut store, s("acs.accessKey"), s("secret1")).unwrap();
    let found = get_credentials_batch(&store, keys(&["acs.accessKey", "missing.key"])).unwrap();
    assert_eq!(
        Value::Object(found),
        serde_json::from_str::<Value>(r#"{"acs.accessKey":"secret1"}"#).unwrap()
    );
    let n = delete_credentials_batch(&mut store, keys(&["acs.accessKey", "missing.key"])).unwrap();
    assert_eq!(n, 1);
}

#[test]
fn classify_read_outcomes() {
    assert_eq!(classify_read("k", Ok(s("v"))).unwrap(), Some(s("v")));
    assert_eq!(classify_read("k", Err(KeystoreError::NoEntry)).unwrap(), None);
    let e = classify_read("k", Err(KeystoreError::Backend(s("daemon down")))).unwrap_err();
    assert_eq!(e.operation, Operation::Retrieve);
    assert_eq!(e.detail, s("daemon down"));
    let e = classify_read("k", Err(KeystoreError::BadEntry(s("too long")))).unwrap_err();
    assert_eq!(e.operation, Operation::CreateEntry);
    assert_eq!(e.key, s("k"));
}

#[test]
fn classify_store_and_delete_outcomes() {
    assert!(classify_store("k", Ok(())).is_ok());
    let e = classify_store("k", Err(KeystoreError::Backend(s("denied")))).unwrap_err();
    assert_eq!(e.operation, Operation::Store);
    let e = classify_store("k", Err(KeystoreError::NoEntry)).unwrap_err();
    assert_eq!(e.operation, Operation::Store);
    assert_eq!(e.detail, s("no entry"));
    assert_eq!(classify_delete("k", Ok(())).unwrap(), true);
    assert_eq!(classify_delete("k", Err(KeystoreError::NoEntry)).unwrap(), false);
    let e = classify_delete("k", Err(KeystoreError::BadEntry(s("bad")))).unwrap_err();
    assert_eq!(e.operation, Operation::CreateEntry);
}

#[test]
fn error_messages_name_key_and_reason() {
    let cases = [
        (Operation::CreateEntry, "Failed to create keyring entry for 'k': why"),
        (Operation::Store, "Failed to store credential 'k': why"),
        (Operation::Retrieve, "Failed to retrieve credential 'k': why"),
        (Operation::Delete, "Failed to delete credential 'k': why"),
    ];
    for (operation, text) in cases {
        let e = CredentialError::new(operation, "k", s("why"));
        assert_eq!(e.message(), s(text));
    }
}

#[test]
fn os_keystore_uses_fixed_namespace() {
    let store = OsKeystore::new();
    assert_eq!(store.service(), SERVICE_NAME);
    assert_eq!(SERVICE_NAME, "teams-agent-bridge");
}
