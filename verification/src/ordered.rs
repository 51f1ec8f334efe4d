//! Insertion-ordered sets and maps, kept in `indexmap` collections, and what
//! the verified code may take for granted about them.

use indexmap::IndexMap;
use indexmap::IndexSet;
use vstd::prelude::*;

use crate::stats_report::StatsEntrypoint;
use crate::stats_report::StatsEntrypointView;

verus! {

/// `indexmap::IndexSet`: a set that keeps its items in insertion order.
#[verifier::external_type_specification]
#[verifier::external_body]
#[verifier::reject_recursive_types(T)]
#[verifier::reject_recursive_types(S)]
pub struct ExIndexSet<T, S>(IndexSet<T, S>);

/// `indexmap::IndexMap`: a map that keeps its entries in insertion order.
#[verifier::external_type_specification]
#[verifier::external_body]
#[verifier::reject_recursive_types(K)]
#[verifier::reject_recursive_types(V)]
#[verifier::reject_recursive_types(S)]
pub struct ExIndexMap<K, V, S>(IndexMap<K, V, S>);

/// The handles that an ordered set of handles holds, in insertion order.
pub uninterp spec fn handle_items(set: IndexSet<usize>) -> Seq<usize>;

/// The strings that an ordered set of strings holds, in insertion order.
pub uninterp spec fn text_items(set: IndexSet<String>) -> Seq<Seq<char>>;

/// The entries that an ordered map from names to module handles holds, in
/// insertion order.
pub uninterp spec fn module_entries(map: IndexMap<String, usize>) -> Seq<(Seq<char>, usize)>;

/// The entries that an ordered map from names to entrypoints holds, in
/// insertion order.
pub uninterp spec fn entrypoint_entries(map: IndexMap<String, StatsEntrypoint>) -> Seq<
    (Seq<char>, StatsEntrypointView),
>;

/// An ordered set after `value` is inserted: a value that is already in it
/// changes nothing, a new one goes last.
pub open spec fn inserted<T>(items: Seq<T>, value: T) -> Seq<T> {
    if items.contains(value) {
        items
    } else {
        items.push(value)
    }
}

/// The keys of an ordered map, in order.
pub open spec fn keys<K, V>(entries: Seq<(K, V)>) -> Seq<K> {
    Seq::new(entries.len(), |i: int| entries[i].0)
}

/// An ordered map after `key` is set to `value`: an existing key keeps its
/// place and gets the new value, a new key goes last.
pub open spec fn with_entry<K, V>(entries: Seq<(K, V)>, key: K, value: V) -> Seq<(K, V)> {
    if keys(entries).contains(key) {
        Seq::new(
            entries.len(),
            |i: int|
                if entries[i].0 == key {
                    (entries[i].0, value)
                } else {
                    entries[i]
                },
        )
    } else {
        entries.push((key, value))
    }
}

/// Inserting into a set without repetitions leaves it without repetitions.
pub proof fn lemma_inserted_no_duplicates<T>(items: Seq<T>, value: T)
    requires
        items.no_duplicates(),
    ensures
        inserted(items, value).no_duplicates(),
        inserted(items, value).contains(value),
{
    if !items.contains(value) {
        assert(items.push(value)[items.len() as int] == value);
    }
}

/// `IndexSet::new`: a set that holds nothing.
#[verifier::external_body]
pub(crate) fn new_handle_set() -> (out: IndexSet<usize>)
    ensures
        handle_items(out) == Seq::<usize>::empty(),
{
    IndexSet::new()
}

/// `IndexSet::insert_full`: a handle that the set already holds stays where it
/// is and the set is unchanged; a new one is appended. Either way the handle's
/// position comes back, with whether it was new.
#[verifier::external_body]
pub(crate) fn insert_handle(set: &mut IndexSet<usize>, handle: usize) -> (out: (usize, bool))
    ensures
        handle_items(*final(set)) == inserted(handle_items(*old(set)), handle),
        out.1 == !handle_items(*old(set)).contains(handle),
        out.1 ==> out.0 == handle_items(*old(set)).len(),
        out.0 < handle_items(*final(set)).len(),
        handle_items(*final(set))[out.0 as int] == handle,
{
    set.insert_full(handle)
}

/// `IndexSet::iter`: the handles of the set, in insertion order.
#[verifier::external_body]
pub(crate) fn handle_list(set: &IndexSet<usize>) -> (out: Vec<usize>)
    ensures
        out@ == handle_items(*set),
{
    set.iter().copied().collect()
}

/// `IndexSet::new`: a set that holds nothing.
#[verifier::external_body]
pub(crate) fn new_text_set() -> (out: IndexSet<String>)
    ensures
        text_items(out) == Seq::<Seq<char>>::empty(),
{
    IndexSet::new()
}

/// `IndexSet::insert`: a string that the set already holds changes nothing; a
/// new one is appended.
#[verifier::external_body]
pub(crate) fn insert_text(set: &mut IndexSet<String>, value: String)
    ensures
        text_items(*final(set)) == inserted(text_items(*old(set)), value@),
{
    set.insert(value);
}

/// `IndexSet::iter`: the strings of the set, in insertion order.
#[verifier::external_body]
pub(crate) fn text_list(set: &IndexSet<String>) -> (out: Vec<String>)
    ensures
        out.deep_view() == text_items(*set),
{
    set.iter().cloned().collect()
}

/// `IndexMap::new`: a map that holds nothing.
#[verifier::external_body]
pub(crate) fn new_module_map() -> (out: IndexMap<String, usize>)
    ensures
        module_entries(out) == Seq::<(Seq<char>, usize)>::empty(),
{
    IndexMap::new()
}

/// `IndexMap::insert`: a key that the map already holds keeps its place and
/// gets the new value; a new key is appended with its value.
#[verifier::external_body]
pub(crate) fn insert_module(map: &mut IndexMap<String, usize>, key: String, module: usize)
    ensures
        module_entries(*final(map)) == with_entry(module_entries(*old(map)), key@, module),
{
    map.insert(key, module);
}

/// `IndexMap::new`: a map that holds nothing.
#[verifier::external_body]
pub(crate) fn new_entrypoint_map() -> (out: IndexMap<String, StatsEntrypoint>)
    ensures
        entrypoint_entries(out) == Seq::<(Seq<char>, StatsEntrypointView)>::empty(),
{
    IndexMap::new()
}

/// `IndexMap::insert`: a key that the map already holds keeps its place and
/// gets the new value; a new key is appended with its value.
#[verifier::external_body]
pub(crate) fn insert_entrypoint(
    map: &mut IndexMap<String, StatsEntrypoint>,
    key: String,
    entrypoint: StatsEntrypoint,
)
    ensures
        entrypoint_entries(*final(map)) == with_entry(
            entrypoint_entries(*old(map)),
            key@,
            entrypoint@,
        ),
{
    map.insert(key, entrypoint);
}

} // verus!
