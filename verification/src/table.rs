//! The concurrent tables of `dashmap`, seen as maps.
//!
//! The state of the library lies in `DashMap` tables. Each kind of table has a
//! name for its contents, a map from the views of its keys to the views of its
//! values. The functions here are the only ones that touch a table; what they
//! say of it is believed, not proved.

use dashmap::{DashMap, DashSet};
use std::collections::HashSet;
use std::hash::Hash;
use vstd::prelude::*;

verus! {

/// `dashmap::DashMap`.
#[verifier::external_type_specification]
#[verifier::external_body]
#[verifier::reject_recursive_types(K)]
#[verifier::reject_recursive_types(V)]
#[verifier::reject_recursive_types(S)]
pub struct ExDashMap<K, V, S>(DashMap<K, V, S>);

/// `dashmap::DashSet`.
#[verifier::external_type_specification]
#[verifier::external_body]
#[verifier::reject_recursive_types(K)]
#[verifier::reject_recursive_types(S)]
pub struct ExDashSet<K, S>(DashSet<K, S>);

/// The keys of the tables: integers and strings, whose equality and hash are
/// those of their views.
pub trait TableKey: View + Eq + Hash + Clone {

}

impl TableKey for i32 {

}

impl TableKey for u64 {

}

impl TableKey for String {

}

/// A type that is kept in a table with keys `K`.
pub trait Stored<K: TableKey>: View + Sized {
    /// The contents of a table: the name that belongs to this kind of table.
    spec fn entries(table: DashMap<K, Self>) -> Map<<K as View>::V, <Self as View>::V>;
}

/// A stored type that can be read out of a table.
pub trait Copied: View + Sized {
    fn copied(&self) -> (out: Self)
        ensures
            out@ == self@,
    ;
}

/// `DashMap::insert`: maps the key to the value.
#[verifier::external_body]
pub(crate) fn table_insert<K: TableKey, T: Stored<K>>(table: &mut DashMap<K, T>, key: K, value: T)
    ensures
        T::entries(*final(table)) == T::entries(*old(table)).insert(key@, value@),
{
    table.insert(key, value);
}

/// `DashMap::remove`: takes out the entry of a key and hands its value over,
/// nothing if there is none.
#[verifier::external_body]
pub(crate) fn table_remove<K: TableKey, T: Stored<K>>(table: &mut DashMap<K, T>, key: &K) -> (taken:
    Option<T>)
    ensures
        T::entries(*final(table)) == T::entries(*old(table)).remove(key@),
        taken is Some <==> T::entries(*old(table)).contains_key(key@),
        taken matches Some(value) ==> value@ == T::entries(*old(table))[key@],
{
    table.remove(key).map(|entry| entry.1)
}

/// `DashMap::get`: a copy of the value of a key, nothing if there is none.
#[verifier::external_body]
pub(crate) fn table_get<K: TableKey, T: Stored<K> + Copied>(table: &DashMap<K, T>, key: &K) -> (found:
    Option<T>)
    ensures
        found is Some <==> T::entries(*table).contains_key(key@),
        found matches Some(value) ==> value@ == T::entries(*table)[key@],
{
    table.get(key).map(|entry| entry.value().copied())
}

/// `DashMap::contains_key`: whether the key has an entry.
#[verifier::external_body]
pub(crate) fn table_contains<K: TableKey, T: Stored<K>>(table: &DashMap<K, T>, key: &K) -> (r: bool)
    ensures
        r == T::entries(*table).contains_key(key@),
{
    table.contains_key(key)
}

/// `DashMap::len`: the number of entries.
#[verifier::external_body]
pub(crate) fn table_len<K: TableKey, T: Stored<K>>(table: &DashMap<K, T>) -> (n: usize)
    ensures
        n == T::entries(*table).dom().len(),
{
    table.len()
}

/// Whether a list enumerates a set: each element once, in some order.
pub open spec fn enumerates<A>(list: Seq<A>, set: Set<A>) -> bool {
    &&& list.no_duplicates()
    &&& forall|a: A| list.contains(a) <==> #[trigger] set.contains(a)
}

/// The views of a list of keys.
pub open spec fn key_views<K: View>(keys: Seq<K>) -> Seq<K::V> {
    keys.map_values(|k: K| k@)
}

/// `DashMap::iter`: the keys of all entries, each once. Their order is not
/// stated.
#[verifier::external_body]
pub(crate) fn table_keys<K: TableKey, T: Stored<K>>(table: &DashMap<K, T>) -> (keys: Vec<K>)
    ensures
        enumerates(key_views(keys@), T::entries(*table).dom()),
{
    table.iter().map(|entry| entry.key().clone()).collect()
}

/// The contents of a table of numbers.
pub uninterp spec fn number_entries(table: DashMap<i32, u64>) -> Map<i32, u64>;

impl Stored<i32> for u64 {
    open spec fn entries(table: DashMap<i32, u64>) -> Map<i32, u64> {
        number_entries(table)
    }
}

impl Copied for u64 {
    fn copied(&self) -> (out: u64) {
        *self
    }
}

/// `DashMap::new`: an empty table of numbers.
#[verifier::external_body]
pub(crate) fn new_number_table() -> (table: DashMap<i32, u64>)
    ensures
        number_entries(table) == (Map::<i32, u64>::empty()),
{
    DashMap::new()
}

/// The contents of a `DashSet` of numbers.
pub uninterp spec fn set_items(set: DashSet<u64>) -> Set<u64>;

/// `DashSet::new`: an empty set.
#[verifier::external_body]
pub(crate) fn new_set() -> (set: DashSet<u64>)
    ensures
        set_items(set) == (Set::<u64>::empty()),
{
    DashSet::new()
}

/// `DashSet::insert`: puts the item in and says whether it is new.
#[verifier::external_body]
pub(crate) fn set_insert(set: &mut DashSet<u64>, item: u64) -> (added: bool)
    ensures
        set_items(*final(set)) == set_items(*old(set)).insert(item),
        added == !set_items(*old(set)).contains(item),
{
    set.insert(item)
}

/// `DashSet::remove`: takes the item out and says whether it was there.
#[verifier::external_body]
pub(crate) fn set_remove(set: &mut DashSet<u64>, item: u64) -> (removed: bool)
    ensures
        set_items(*final(set)) == set_items(*old(set)).remove(item),
        removed == set_items(*old(set)).contains(item),
{
    set.remove(&item).is_some()
}

/// `DashSet::contains`: whether the item is there.
#[verifier::external_body]
pub(crate) fn set_contains(set: &DashSet<u64>, item: u64) -> (r: bool)
    ensures
        r == set_items(*set).contains(item),
{
    set.contains(&item)
}

/// The members of a set of numbers, each once.
pub fn set_to_vec(set: &HashSet<i32>) -> (out: Vec<i32>)
    ensures
        enumerates(out@, set@),
        out@.len() == set@.len(),
{
    broadcast use vstd::std_specs::hash::group_hash_axioms;

    let mut out: Vec<i32> = Vec::new();
    for item in iter: set.iter()
        invariant
            out@ == iter.seq().unref().take(iter.index() as int),
            iter.seq().unref().no_duplicates(),
            iter.seq().unref().to_set() == set@,
            iter.seq().unref().len() == set@.len(),
            iter.index() == iter.seq().len() ==> out@ == iter.seq().unref(),
    {
        out.push(*item);
    }
    assert forall|a: i32| out@.contains(a) <==> #[trigger] set@.contains(a) by {
        assert(out@.to_set().contains(a) <==> set@.contains(a));
    }
    out
}

/// A copy of a set of numbers.
pub fn copy_set(set: &HashSet<i32>) -> (out: HashSet<i32>)
    ensures
        out@ == set@,
{
    broadcast use vstd::std_specs::hash::group_hash_axioms;

    let list = set_to_vec(set);
    let mut out: HashSet<i32> = HashSet::new();
    for i in 0..list.len()
        invariant
            out@ == list@.take(i as int).to_set(),
    {
        proof {
            lemma_take_to_set(list@, i as int);
        }
        out.insert(list[i]);
    }
    proof {
        assert(list@.take(list@.len() as int) =~= list@);
        lemma_enumerates(list@, set@);
    }
    out
}

/// A list that enumerates a set has as many items, and the set is finite.
pub proof fn lemma_enumerates<A>(list: Seq<A>, set: Set<A>)
    requires
        enumerates(list, set),
    ensures
        set.finite(),
        set.len() == list.len(),
        list.to_set() == set,
{
    list.unique_seq_to_set();
    assert(list.to_set() =~= set);
    vstd::seq_lib::seq_to_set_is_finite(list);
}

/// Whether a list holds an item after a push.
pub proof fn lemma_push_contains<A>(list: Seq<A>, item: A, a: A)
    ensures
        list.push(item).contains(a) == (list.contains(a) || a == item),
{
    let longer = list.push(item);
    if longer.contains(a) {
        let j = choose|j: int| 0 <= j < longer.len() && longer[j] == a;
        if j < list.len() {
            assert(list[j] == a);
        }
    }
    if list.contains(a) {
        let j = choose|j: int| 0 <= j < list.len() && list[j] == a;
        assert(longer[j] == a);
    }
    assert(longer[list.len() as int] == item);
}

/// The set of the first `n + 1` items of a list.
pub proof fn lemma_take_to_set<A>(list: Seq<A>, n: int)
    requires
        0 <= n < list.len(),
    ensures
        list.take(n + 1).to_set() == list.take(n).to_set().insert(list[n]),
{
    assert(list.take(n + 1) =~= list.take(n).push(list[n]));
    let longer = list.take(n + 1).to_set();
    let grown = list.take(n).to_set().insert(list[n]);
    assert forall|a: A| #[trigger] longer.contains(a) == grown.contains(a) by {
        lemma_push_contains(list.take(n), list[n], a);
        assert(longer.contains(a) == list.take(n + 1).contains(a));
        assert(list.take(n).to_set().contains(a) == list.take(n).contains(a));
    }
    assert(longer =~= grown);
}

/// What a filter leaves comes from the list.
pub proof fn lemma_filter_member<A>(list: Seq<A>, pred: spec_fn(A) -> bool, i: int)
    requires
        0 <= i < list.filter(pred).len(),
    ensures
        list.contains(list.filter(pred)[i]),
        pred(list.filter(pred)[i]),
    decreases list.len(),
{
    reveal(Seq::filter);
    let shorter = list.drop_last();
    if i < shorter.filter(pred).len() {
        lemma_filter_member(shorter, pred, i);
        let j = choose|j: int| 0 <= j < shorter.len() && shorter[j] == shorter.filter(pred)[i];
        assert(list[j] == list.filter(pred)[i]);
    } else {
        assert(list[list.len() - 1] == list.filter(pred)[i]);
    }
}

/// A filter that everything passes leaves the list as it is.
pub proof fn lemma_filter_all<A>(list: Seq<A>, pred: spec_fn(A) -> bool)
    requires
        forall|i: int| 0 <= i < list.len() ==> pred(#[trigger] list[i]),
    ensures
        list.filter(pred) == list,
    decreases list.len(),
{
    reveal(Seq::filter);
    if list.len() > 0 {
        let shorter = list.drop_last();
        assert forall|i: int| 0 <= i < shorter.len() implies pred(#[trigger] shorter[i]) by {
            assert(shorter[i] == list[i]);
        }
        lemma_filter_all(shorter, pred);
        assert(pred(list[list.len() - 1]));
        assert(list =~= shorter.push(list.last()));
    }
}

} // verus!
