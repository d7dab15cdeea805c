//! Per-kind tallies kept in a map ordered by kind.

use vstd::prelude::*;
use std::collections::BTreeMap;

verus! {

broadcast use {vstd::laws_cmp::group_laws_cmp, vstd::std_specs::btree::group_btree_axioms};

/// The tally of `kind`, if there is one.
pub fn tally_get(counts: &BTreeMap<u8, (u16, u16)>, kind: u8) -> (r: Option<(u16, u16)>)
    ensures
        r == (if counts@.contains_key(kind) {
            Some(counts@[kind])
        } else {
            None
        }),
{
    match counts.get(&kind) {
        Some(e) => Some(*e),
        None => None,
    }
}

/// Set the tally of `kind`.
pub fn tally_set(counts: &mut BTreeMap<u8, (u16, u16)>, kind: u8, entry: (u16, u16))
    ensures
        final(counts)@ == old(counts)@.insert(kind, entry),
{
    counts.insert(kind, entry);
}

} // verus!
