//! Insertion-ordered maps keyed by strings (`indexmap::IndexMap`).
//!
//! A map is modelled by its entries: the sequence of (key, value) pairs in
//! insertion order. Looking a key up finds its first entry; inserting a key that
//! is present replaces that entry's value in place, and a new key goes last.
use vstd::prelude::*;

verus! {

#[verifier::external_type_specification]
#[verifier::external_body]
#[verifier::reject_recursive_types(K)]
#[verifier::reject_recursive_types(V)]
#[verifier::reject_recursive_types(S)]
pub struct ExIndexMap<K, V, S>(indexmap::IndexMap<K, V, S>);

/// The position of the first entry with key `k`, or -1 when there is none.
pub open spec fn key_pos<V>(e: Seq<(Seq<char>, V)>, k: Seq<char>) -> int
    decreases e.len(),
{
    if e.len() == 0 {
        -1
    } else {
        let p = key_pos(e.drop_last(), k);
        if p >= 0 {
            p
        } else if e.last().0 == k {
            e.len() - 1
        } else {
            -1
        }
    }
}

/// The value stored under `k`, if any.
pub open spec fn lookup<V>(e: Seq<(Seq<char>, V)>, k: Seq<char>) -> Option<V> {
    let p = key_pos(e, k);
    if p >= 0 { Some(e[p].1) } else { None }
}

/// The entries after inserting `v` under `k`: an existing entry keeps its place and
/// takes the new value; a new key goes last.
pub open spec fn insert_entry<V>(e: Seq<(Seq<char>, V)>, k: Seq<char>, v: V) -> Seq<(Seq<char>, V)> {
    let p = key_pos(e, k);
    if p >= 0 { e.update(p, (k, v)) } else { e.push((k, v)) }
}

/// The entries after removing the entry of `k`, the following ones shifted down.
pub open spec fn remove_entry<V>(e: Seq<(Seq<char>, V)>, k: Seq<char>) -> Seq<(Seq<char>, V)> {
    let p = key_pos(e, k);
    if p >= 0 { e.remove(p) } else { e }
}

/// No key occurs twice.
pub open spec fn keys_unique<V>(e: Seq<(Seq<char>, V)>) -> bool {
    forall|i: int, j: int| 0 <= i < j < e.len() ==> e[i].0 != e[j].0
}

/// `key_pos` finds the first entry with the key.
pub proof fn lemma_key_pos<V>(e: Seq<(Seq<char>, V)>, k: Seq<char>)
    ensures
        -1 <= key_pos(e, k) < e.len(),
        key_pos(e, k) >= 0 ==> e[key_pos(e, k)].0 == k,
        forall|j: int| 0 <= j < e.len() && (key_pos(e, k) < 0 || j < key_pos(e, k)) ==> e[j].0 != k,
    decreases e.len(),
{
    if e.len() > 0 {
        lemma_key_pos(e.drop_last(), k);
        assert forall|j: int| 0 <= j < e.len() - 1 implies e.drop_last()[j] == e[j] by {}
    }
}

/// The first entry of a key in a prefix is its first entry in the whole sequence.
pub proof fn lemma_key_pos_prefix<V>(e: Seq<(Seq<char>, V)>, n: int, k: Seq<char>)
    requires
        0 <= n <= e.len(),
        key_pos(e.take(n), k) >= 0,
    ensures
        key_pos(e, k) == key_pos(e.take(n), k),
    decreases e.len() - n,
{
    if n < e.len() {
        assert(e.drop_last().take(n) =~= e.take(n));
        lemma_key_pos_prefix(e.drop_last(), n, k);
    } else {
        assert(e.take(n) =~= e);
    }
}

/// Inserting under a key makes the key map to the inserted value and leaves the
/// other keys as they were.
pub proof fn lemma_insert_lookup<V>(e: Seq<(Seq<char>, V)>, k: Seq<char>, v: V, other: Seq<char>)
    ensures
        lookup(insert_entry(e, k, v), k) == Some(v),
        other != k ==> lookup(insert_entry(e, k, v), other) == lookup(e, other),
{
    let e2 = insert_entry(e, k, v);
    lemma_key_pos(e, k);
    lemma_key_pos(e, other);
    lemma_key_pos(e2, k);
    lemma_key_pos(e2, other);
    let p = key_pos(e, k);
    if p >= 0 {
        assert(e2[p].0 == k);
        let q = key_pos(e2, k);
        if q >= 0 && q < p {
            assert(e2[q] == e[q]);
        }
        if q < 0 || q > p {
            assert(e2[p].0 == k);
        }
        let po = key_pos(e, other);
        let qo = key_pos(e2, other);
        if other != k {
            if qo >= 0 && (po < 0 || qo < po) {
                assert(e2[qo] == e[qo] || qo == p);
            }
            if po >= 0 && (qo < 0 || po < qo) {
                assert(e2[po] == e[po] || po == p);
            }
            if po >= 0 && qo >= 0 {
                assert(po == qo);
                assert(po != p);
            }
        }
    } else {
        assert(e2 == e.push((k, v)));
        let q = key_pos(e2, k);
        if q >= 0 && q < e.len() {
            assert(e2[q] == e[q]);
        }
        let po = key_pos(e, other);
        let qo = key_pos(e2, other);
        if other != k {
            if qo >= 0 && (po < 0 || qo < po) {
                assert(e2[qo] == e[qo] || qo == e.len());
            }
            if po >= 0 && (qo < 0 || po < qo) {
                assert(e2[po] == e[po]);
            }
        }
    }
}

/// Inserting keeps keys unique.
pub proof fn lemma_insert_unique<V>(e: Seq<(Seq<char>, V)>, k: Seq<char>, v: V)
    requires
        keys_unique(e),
    ensures
        keys_unique(insert_entry(e, k, v)),
        insert_entry(e, k, v).len() == if lookup(e, k) is Some { e.len() } else { e.len() + 1 },
{
    lemma_key_pos(e, k);
    let e2 = insert_entry(e, k, v);
    let p = key_pos(e, k);
    if p >= 0 {
        assert forall|i: int, j: int| 0 <= i < j < e2.len() implies e2[i].0 != e2[j].0 by {
            assert(e2[i].0 == e[i].0);
            assert(e2[j].0 == e[j].0);
        }
    } else {
        assert forall|i: int, j: int| 0 <= i < j < e2.len() implies e2[i].0 != e2[j].0 by {
            if j == e.len() {
                assert(e[i].0 != k);
            }
        }
    }
}


// ---------------------------------------------------------------------------
// Maps from strings to strings
// ---------------------------------------------------------------------------

/// The entries of a map from strings to strings.
pub uninterp spec fn string_map_entries(m: indexmap::IndexMap<String, String>) -> Seq<(Seq<char>, Seq<char>)>;

/// `IndexMap::new`: an empty map.
#[verifier::external_body]
pub(crate) fn string_map_new() -> (r: indexmap::IndexMap<String, String>)
    ensures
        string_map_entries(r) == Seq::<(Seq<char>, Seq<char>)>::empty(),
{
    indexmap::IndexMap::new()
}

/// `IndexMap::insert`: an existing key keeps its place and takes the new value;
/// a new key goes last.
#[verifier::external_body]
pub(crate) fn string_map_insert(m: &mut indexmap::IndexMap<String, String>, key: String, value: String)
    ensures
        string_map_entries(*final(m)) == insert_entry(string_map_entries(*old(m)), key@, value@),
{
    m.insert(key, value);
}

/// `IndexMap::get`: the value stored under the key.
#[verifier::external_body]
pub(crate) fn string_map_get<'a>(m: &'a indexmap::IndexMap<String, String>, key: &str) -> (r: Option<&'a String>)
    ensures
        match r {
            Some(v) => lookup(string_map_entries(*m), key@) == Some(v@),
            None => lookup(string_map_entries(*m), key@) is None,
        },
{
    m.get(key)
}

/// `IndexMap::len`: the number of entries.
#[verifier::external_body]
pub(crate) fn string_map_len(m: &indexmap::IndexMap<String, String>) -> (r: usize)
    ensures
        r == string_map_entries(*m).len(),
{
    m.len()
}

/// `IndexMap::get_index`: the entry at a position; an `IndexMap` holds each key once,
/// so no earlier entry has the same key.
#[verifier::external_body]
pub(crate) fn string_map_get_index<'a>(m: &'a indexmap::IndexMap<String, String>, index: usize) -> (r: Option<(&'a String, &'a String)>)
    ensures
        match r {
            Some((k, v)) => index < string_map_entries(*m).len() && string_map_entries(*m)[index as int] == (k@, v@)
                && crate::maps::key_pos(string_map_entries(*m), k@) == index,
            None => index >= string_map_entries(*m).len(),
        },
{
    m.get_index(index)
}

/// `IndexMap::clone`: a map with the same entries.
#[verifier::external_body]
pub(crate) fn string_map_clone(m: &indexmap::IndexMap<String, String>) -> (r: indexmap::IndexMap<String, String>)
    ensures
        string_map_entries(r) == string_map_entries(*m),
{
    m.clone()
}

/// `IndexMap::shift_remove`: removes the key's entry; the entries after it move up.
#[verifier::external_body]
pub(crate) fn string_map_shift_remove(m: &mut indexmap::IndexMap<String, String>, key: &str)
    ensures
        string_map_entries(*final(m)) == remove_entry(string_map_entries(*old(m)), key@),
{
    m.shift_remove(key);
}

// ---------------------------------------------------------------------------
// Maps from strings to JSON values
// ---------------------------------------------------------------------------

/// The entries of a map from strings to JSON values.
pub uninterp spec fn json_map_entries(m: indexmap::IndexMap<String, crate::json::JsonValue>) -> Seq<(Seq<char>, crate::json::Json)>;

/// `IndexMap::new`: an empty map.
#[verifier::external_body]
pub(crate) fn json_map_new() -> (r: indexmap::IndexMap<String, crate::json::JsonValue>)
    ensures
        json_map_entries(r) == Seq::<(Seq<char>, crate::json::Json)>::empty(),
{
    indexmap::IndexMap::new()
}

/// `IndexMap::insert`: an existing key keeps its place and takes the new value;
/// a new key goes last.
#[verifier::external_body]
pub(crate) fn json_map_insert(m: &mut indexmap::IndexMap<String, crate::json::JsonValue>, key: String, value: crate::json::JsonValue)
    ensures
        json_map_entries(*final(m)) == insert_entry(json_map_entries(*old(m)), key@, value@),
{
    m.insert(key, value);
}

/// `IndexMap::len`: the number of entries.
#[verifier::external_body]
pub(crate) fn json_map_len(m: &indexmap::IndexMap<String, crate::json::JsonValue>) -> (r: usize)
    ensures
        r == json_map_entries(*m).len(),
{
    m.len()
}

/// `IndexMap::get_index`: the entry at a position; an `IndexMap` holds each key once,
/// so no earlier entry has the same key.
#[verifier::external_body]
pub(crate) fn json_map_get_index<'a>(m: &'a indexmap::IndexMap<String, crate::json::JsonValue>, index: usize) -> (r: Option<(&'a String, &'a crate::json::JsonValue)>)
    ensures
        match r {
            Some((k, v)) => index < json_map_entries(*m).len() && json_map_entries(*m)[index as int] == (k@, v@)
                && crate::maps::key_pos(json_map_entries(*m), k@) == index,
            None => index >= json_map_entries(*m).len(),
        },
{
    m.get_index(index)
}

} // verus!
