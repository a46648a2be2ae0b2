//! The in-memory tables of the local backend, held in `dashmap` maps.

use vstd::prelude::*;

verus! {

/// `dashmap::DashMap`, a concurrent hash map.
#[verifier::external_type_specification]
#[verifier::external_body]
#[verifier::reject_recursive_types(K)]
#[verifier::reject_recursive_types(V)]
#[verifier::reject_recursive_types(S)]
pub struct ExDashMap<K, V, S>(dashmap::DashMap<K, V, S>);

/// What a table from texts to texts holds.
pub uninterp spec fn text_entries(table: dashmap::DashMap<String, String>) -> Map<
    Seq<char>,
    Seq<char>,
>;

/// What a table from texts to a size, an ETag and an extension holds.
pub uninterp spec fn meta_entries(table: dashmap::DashMap<String, (u64, String, String)>) -> Map<
    Seq<char>,
    (u64, Seq<char>, Seq<char>),
>;

/// `DashMap::new`: the new table holds nothing.
#[verifier::external_body]
pub(crate) fn new_texts() -> (table: dashmap::DashMap<String, String>)
    ensures
        text_entries(table) =~= (Map::<Seq<char>, Seq<char>>::empty()),
{
    dashmap::DashMap::new()
}

/// `DashMap::insert`: the key now has the value, the other keys keep theirs, and the value that the
/// key had before is returned.
#[verifier::external_body]
pub(crate) fn insert_text(
    table: &mut dashmap::DashMap<String, String>,
    key: String,
    value: String,
) -> (r: Option<String>)
    ensures
        text_entries(*final(table)) == text_entries(*old(table)).insert(key@, value@),
        match r {
            Some(before) => text_entries(*old(table)).dom().contains(key@) && before@
                == text_entries(*old(table))[key@],
            None => !text_entries(*old(table)).dom().contains(key@),
        },
{
    table.insert(key, value)
}

/// `DashMap::get`: a copy of the value of the key, where it has one.
#[verifier::external_body]
pub(crate) fn get_text(table: &dashmap::DashMap<String, String>, key: &str) -> (r: Option<String>)
    ensures
        match r {
            Some(value) => text_entries(*table).dom().contains(key@) && value@ == text_entries(
                *table,
            )[key@],
            None => !text_entries(*table).dom().contains(key@),
        },
{
    table.get(key).map(|entry| entry.value().clone())
}

/// `DashMap::contains_key`: whether the key has a value.
#[verifier::external_body]
pub(crate) fn has_text(table: &dashmap::DashMap<String, String>, key: &str) -> (r: bool)
    ensures
        r == text_entries(*table).dom().contains(key@),
{
    table.contains_key(key)
}

/// `DashMap::remove`: the key has no value any more, and the other keys keep theirs.
#[verifier::external_body]
pub(crate) fn remove_text(table: &mut dashmap::DashMap<String, String>, key: &str)
    ensures
        text_entries(*final(table)) == text_entries(*old(table)).remove(key@),
{
    table.remove(key);
}

/// `DashMap::new`: the new table holds nothing.
#[verifier::external_body]
pub(crate) fn new_metas() -> (table: dashmap::DashMap<String, (u64, String, String)>)
    ensures
        meta_entries(table) =~= (Map::<Seq<char>, (u64, Seq<char>, Seq<char>)>::empty()),
{
    dashmap::DashMap::new()
}

/// `DashMap::insert`: the key now has the value, and the other keys keep theirs.
#[verifier::external_body]
pub(crate) fn insert_meta(
    table: &mut dashmap::DashMap<String, (u64, String, String)>,
    key: String,
    value: (u64, String, String),
)
    ensures
        meta_entries(*final(table)) == meta_entries(*old(table)).insert(
            key@,
            (value.0, value.1@, value.2@),
        ),
{
    table.insert(key, value);
}

/// `DashMap::get`: a copy of the value of the key, where it has one.
#[verifier::external_body]
pub(crate) fn get_meta(
    table: &dashmap::DashMap<String, (u64, String, String)>,
    key: &str,
) -> (r: Option<(u64, String, String)>)
    ensures
        match r {
            Some(value) => meta_entries(*table).dom().contains(key@) && (value.0, value.1@, value.2@)
                == meta_entries(*table)[key@],
            None => !meta_entries(*table).dom().contains(key@),
        },
{
    table.get(key).map(|entry| entry.value().clone())
}

/// `DashMap::remove`: the key has no value any more, and the other keys keep theirs.
#[verifier::external_body]
pub(crate) fn remove_meta(table: &mut dashmap::DashMap<String, (u64, String, String)>, key: &str)
    ensures
        meta_entries(*final(table)) == meta_entries(*old(table)).remove(key@),
{
    table.remove(key);
}

} // verus!
