//! Laws that hold of the broker's operations on a keystore model.
use vstd::prelude::*;
use crate::model::{
    after_delete, after_store, delete_result, found, get_result, lookup, store_result, Contents,
    Refused,
};

verus! {

/// A store followed by a read of the same key yields the stored value; the
/// store succeeds whenever the key is not refused.
pub proof fn lemma_store_then_get(contents: Contents, refused: Refused, key: Seq<char>, value: Seq<char>)
    ensures
        !refused.contains(key) ==> store_result(refused, key) is Ok,
        store_result(refused, key) is Ok ==> get_result(
            after_store(contents, refused, key, value),
            refused,
            key,
        ) == Ok::<Option<Seq<char>>, Seq<char>>(Some(value)),
{
}

/// Storing twice under one key leaves only the second value: the contents
/// are those of the second store alone, and a read yields the second value.
pub proof fn lemma_overwrite(
    contents: Contents,
    refused: Refused,
    key: Seq<char>,
    first: Seq<char>,
    second: Seq<char>,
)
    ensures
        after_store(after_store(contents, refused, key, first), refused, key, second)
            == after_store(contents, refused, key, second),
        !refused.contains(key) ==> get_result(
            after_store(after_store(contents, refused, key, first), refused, key, second),
            refused,
            key,
        ) == Ok::<Option<Seq<char>>, Seq<char>>(Some(second)),
{
    if !refused.contains(key) {
        assert(contents.insert(key, first).insert(key, second) =~= contents.insert(key, second));
    }
}

/// Deleting an absent key reports `false` and changes nothing; deleting a
/// present key twice in a row reports `true`, then `false`.
pub proof fn lemma_delete_idempotent(contents: Contents, refused: Refused, key: Seq<char>)
    requires
        !refused.contains(key),
    ensures
        !contents.contains_key(key) ==> delete_result(contents, refused, key) == Ok::<bool, Seq<char>>(false)
            && after_delete(contents, refused, key) == contents,
        contents.contains_key(key) ==> delete_result(contents, refused, key) == Ok::<bool, Seq<char>>(true),
        delete_result(after_delete(contents, refused, key), refused, key) == Ok::<bool, Seq<char>>(false),
{
    if !contents.contains_key(key) {
        assert(contents.remove(key) =~= contents);
    }
}

/// Reading a key that holds no value reports its absence, not a failure,
/// when the keystore serves the key.
pub proof fn lemma_absent_is_not_failure(contents: Contents, refused: Refused, key: Seq<char>)
    requires
        !refused.contains(key),
        !contents.contains_key(key),
    ensures
        get_result(contents, refused, key) == Ok::<Option<Seq<char>>, Seq<char>>(None),
{
}

/// After a batch deletion of `keys` succeeds, a read of any of those keys
/// reports it absent.
pub proof fn lemma_batch_delete_leaves_absent(
    contents: Contents,
    refused: Refused,
    keys: Seq<Seq<char>>,
    key: Seq<char>,
)
    requires
        keys.contains(key),
        !refused.contains(key),
    ensures
        get_result(contents.remove_keys(keys.to_set()), refused, key) == Ok::<
            Option<Seq<char>>,
            Seq<char>,
        >(None),
{
}

/// A batch read yields, for each requested key, exactly what a single read
/// of it would: its value when it has one, and no member when it has none.
pub proof fn lemma_batch_read_agrees_with_get(
    contents: Contents,
    refused: Refused,
    keys: Seq<Seq<char>>,
    key: Seq<char>,
)
    requires
        keys.contains(key),
        !refused.contains(key),
    ensures
        get_result(contents, refused, key) == Ok::<Option<Seq<char>>, Seq<char>>(
            lookup(found(contents, keys), key),
        ),
{
}

} // verus!
