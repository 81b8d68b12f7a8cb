//! The mathematical model of a keystore that the broker speaks of: the
//! secrets it holds (`contents`) and the keys whose every access it refuses
//! (`refused`), and what each broker operation yields on them. A failure is
//! modelled by the key that it names.
use vstd::prelude::*;

verus! {

pub type Contents = Map<Seq<char>, Seq<char>>;

pub type Refused = Set<Seq<char>>;

/// The value stored under `key`, if any.
pub open spec fn lookup(contents: Contents, key: Seq<char>) -> Option<Seq<char>> {
    if contents.contains_key(key) {
        Some(contents[key])
    } else {
        None
    }
}

/// What storing `value` under `key` reports.
pub open spec fn store_result(refused: Refused, key: Seq<char>) -> Result<(), Seq<char>> {
    if refused.contains(key) {
        Err(key)
    } else {
        Ok(())
    }
}

/// The contents after storing `value` under `key`: last write wins.
pub open spec fn after_store(
    contents: Contents,
    refused: Refused,
    key: Seq<char>,
    value: Seq<char>,
) -> Contents {
    if refused.contains(key) {
        contents
    } else {
        contents.insert(key, value)
    }
}

/// What reading `key` reports: the value or its absence, which is no failure.
pub open spec fn get_result(contents: Contents, refused: Refused, key: Seq<char>) -> Result<
    Option<Seq<char>>,
    Seq<char>,
> {
    if refused.contains(key) {
        Err(key)
    } else {
        Ok(lookup(contents, key))
    }
}

/// What deleting `key` reports: whether a value was there to remove.
pub open spec fn delete_result(contents: Contents, refused: Refused, key: Seq<char>) -> Result<
    bool,
    Seq<char>,
> {
    if refused.contains(key) {
        Err(key)
    } else {
        Ok(contents.contains_key(key))
    }
}

/// The contents after deleting `key`.
pub open spec fn after_delete(contents: Contents, refused: Refused, key: Seq<char>) -> Contents {
    if refused.contains(key) {
        contents
    } else {
        contents.remove(key)
    }
}

/// The contents after storing each pair in order, with no failure among them.
pub open spec fn store_all(contents: Contents, pairs: Seq<(Seq<char>, Seq<char>)>) -> Contents
    decreases pairs.len(),
{
    if pairs.len() == 0 {
        contents
    } else {
        store_all(contents, pairs.drop_last()).insert(pairs.last().0, pairs.last().1)
    }
}

/// `i` is the first position of `keys` that the keystore refuses.
pub open spec fn first_refused(refused: Refused, keys: Seq<Seq<char>>, i: int) -> bool {
    &&& 0 <= i < keys.len()
    &&& refused.contains(keys[i])
    &&& forall|j: int| 0 <= j < i ==> !refused.contains(#[trigger] keys[j])
}

/// No key of `keys` is refused.
pub open spec fn none_refused(refused: Refused, keys: Seq<Seq<char>>) -> bool {
    forall|j: int| 0 <= j < keys.len() ==> !refused.contains(#[trigger] keys[j])
}

/// The keys of a sequence of pairs.
pub open spec fn keys_of(pairs: Seq<(Seq<char>, Seq<char>)>) -> Seq<Seq<char>> {
    pairs.map_values(|p: (Seq<char>, Seq<char>)| p.0)
}

/// The stored values of those of `keys` that have one.
pub open spec fn found(contents: Contents, keys: Seq<Seq<char>>) -> Contents {
    contents.restrict(keys.to_set())
}

/// How many distinct keys of `keys` have a stored value.
pub open spec fn present_count(contents: Contents, keys: Seq<Seq<char>>) -> nat {
    keys.to_set().intersect(contents.dom()).len()
}

} // verus!
