//! Sparse cell and chunk storage.
//!
//! The alive set, the initial pattern, the dirty-chunk set and the
//! candidate-count map are hash collections keyed by coordinate pairs,
//! using `rustc_hash`'s fast deterministic hasher. Verus sees them through
//! two model functions, `cell_set_model` and `count_map_model`, and a small
//! set of trusted wrappers whose contracts state what each call does to the
//! model.

use vstd::prelude::*;

use std::collections::HashMap;
use std::collections::HashSet;

verus! {

/// `rustc_hash::FxBuildHasher` builds the deterministic, unseeded `FxHasher`;
/// with it, `HashSet` and `HashMap` behave as plain sets and maps over `Eq` keys.
#[verifier::external_type_specification]
#[verifier::external_body]
pub struct ExFxBuildHasher(rustc_hash::FxBuildHasher);

/// A hash set of coordinate pairs (cells, or chunk keys).
pub type CellSet = HashSet<(i64, i64), rustc_hash::FxBuildHasher>;

/// A hash map from candidate cell to its alive-neighbor count.
pub type CountMap = HashMap<(i64, i64), usize, rustc_hash::FxBuildHasher>;

/// The set of coordinate pairs a `CellSet` holds, as mathematical integers.
pub uninterp spec fn cell_set_model(s: CellSet) -> Set<(int, int)>;

/// The key-value pairs a `CountMap` holds, as mathematical integers.
pub uninterp spec fn count_map_model(m: CountMap) -> Map<(int, int), usize>;

/// A machine coordinate pair, widened to mathematical integers.
pub open spec fn to_int_pair(c: (i64, i64)) -> (int, int) {
    (c.0 as int, c.1 as int)
}

/// A sequence of machine coordinate pairs, widened pointwise.
pub open spec fn to_int_pairs(s: Seq<(i64, i64)>) -> Seq<(int, int)> {
    s.map_values(|c: (i64, i64)| to_int_pair(c))
}

/// The count recorded for a key, defaulting to zero for absent keys.
pub open spec fn count_of(m: Map<(int, int), usize>, k: (int, int)) -> int {
    if m.contains_key(k) {
        m[k] as int
    } else {
        0
    }
}

/// Relies on `HashSet::default`: a fresh set is empty.
#[verifier::external_body]
pub(crate) fn new_cell_set() -> (r: CellSet)
    ensures
        cell_set_model(r) == Set::<(int, int)>::empty(),
{
    CellSet::default()
}

/// Relies on `HashSet::insert`: afterwards the set holds the old elements
/// plus `c`; the call returns true iff `c` was absent.
#[verifier::external_body]
pub(crate) fn cell_set_insert(s: &mut CellSet, c: (i64, i64)) -> (r: bool)
    ensures
        cell_set_model(*final(s)) == cell_set_model(*old(s)).insert(to_int_pair(c)),
        r == !cell_set_model(*old(s)).contains(to_int_pair(c)),
{
    s.insert(c)
}

/// Relies on `HashSet::remove`: afterwards the set holds the old elements
/// minus `c`; the call returns true iff `c` was present.
#[verifier::external_body]
pub(crate) fn cell_set_remove(s: &mut CellSet, c: (i64, i64)) -> (r: bool)
    ensures
        cell_set_model(*final(s)) == cell_set_model(*old(s)).remove(to_int_pair(c)),
        r == cell_set_model(*old(s)).contains(to_int_pair(c)),
{
    s.remove(&c)
}

/// Relies on `HashSet::contains`.
#[verifier::external_body]
pub(crate) fn cell_set_contains(s: &CellSet, c: (i64, i64)) -> (r: bool)
    ensures
        r == cell_set_model(*s).contains(to_int_pair(c)),
{
    s.contains(&c)
}

/// Relies on `HashSet::len`: the number of elements held.
#[verifier::external_body]
pub(crate) fn cell_set_len(s: &CellSet) -> (r: usize)
    ensures
        r == cell_set_model(*s).len(),
{
    s.len()
}

/// Relies on `HashSet::clear`: afterwards the set is empty.
#[verifier::external_body]
pub(crate) fn cell_set_clear(s: &mut CellSet)
    ensures
        cell_set_model(*final(s)) == Set::<(int, int)>::empty(),
{
    s.clear()
}

/// Relies on `HashSet::clone`: the copy holds the same elements.
#[verifier::external_body]
pub(crate) fn cell_set_clone(s: &CellSet) -> (r: CellSet)
    ensures
        cell_set_model(r) == cell_set_model(*s),
{
    s.clone()
}

/// Relies on `HashSet::iter`: the elements, each exactly once, in no
/// promised order.
#[verifier::external_body]
pub(crate) fn cell_set_items(s: &CellSet) -> (r: Vec<(i64, i64)>)
    ensures
        to_int_pairs(r@).no_duplicates(),
        to_int_pairs(r@).to_set() == cell_set_model(*s),
{
    s.iter().copied().collect()
}

/// The empty count map model.
pub open spec fn empty_counts() -> Map<(int, int), usize> {
    Map::empty()
}

/// Relies on `HashMap::default`: a fresh map is empty.
#[verifier::external_body]
pub(crate) fn new_count_map() -> (r: CountMap)
    ensures
        count_map_model(r) == empty_counts(),
{
    CountMap::default()
}

/// Relies on `HashMap::get`: the value recorded for `k`, if any.
#[verifier::external_body]
pub(crate) fn count_map_get(m: &CountMap, k: (i64, i64)) -> (r: Option<usize>)
    ensures
        match r {
            Some(v) => count_map_model(*m).contains_key(to_int_pair(k))
                && count_map_model(*m)[to_int_pair(k)] == v,
            None => !count_map_model(*m).contains_key(to_int_pair(k)),
        },
{
    m.get(&k).copied()
}

/// Relies on `HashMap::insert`: afterwards `k` maps to `v` and every other
/// key keeps its value.
#[verifier::external_body]
pub(crate) fn count_map_insert(m: &mut CountMap, k: (i64, i64), v: usize)
    ensures
        count_map_model(*final(m)) == count_map_model(*old(m)).insert(to_int_pair(k), v),
{
    m.insert(k, v);
}

/// Relies on `HashMap::iter`: the key-value pairs, each key exactly once,
/// in no promised order.
#[verifier::external_body]
pub(crate) fn count_map_items(m: &CountMap) -> (r: Vec<((i64, i64), usize)>)
    ensures
        to_int_pairs(r@.map_values(|e: ((i64, i64), usize)| e.0)).no_duplicates(),
        to_int_pairs(r@.map_values(|e: ((i64, i64), usize)| e.0)).to_set()
            == count_map_model(*m).dom(),
        forall|i: int|
            0 <= i < r@.len() ==> count_map_model(*m).contains_key(
                to_int_pair(#[trigger] r@[i].0),
            ) && count_map_model(*m)[to_int_pair(r@[i].0)] == r@[i].1,
{
    m.iter().map(|(k, v)| (*k, *v)).collect()
}

} // verus!
