//! Walking the registries.

use std::collections::HashSet;
use vstd::prelude::*;
use vstd::std_specs::hash::*;
use vstd::std_specs::iter::IteratorSpec;

verus! {

broadcast use vstd::std_specs::hash::group_hash_axioms;

/// The registered device ids, each once, in the order in which the registry
/// hands them out.
pub(crate) fn device_ids(set: &HashSet<u16>) -> (ids: Vec<u16>)
    ensures
        ids@.no_duplicates(),
        ids@.to_set() == set@,
{
    let mut ids: Vec<u16> = Vec::new();
    let ghost all = set.iter().remaining().unref();
    for id in it: set.iter()
        invariant
            it.seq().unref() == all,
            ids@ == all.take(it.index() as int),
    {
        ids.push(*id);
    }
    assert(ids@ =~= all);
    ids
}

/// The subscribed listener ids, each once, in the order in which the
/// registry hands them out.
pub(crate) fn listener_ids(set: &HashSet<usize>) -> (ids: Vec<usize>)
    ensures
        ids@.no_duplicates(),
        ids@.to_set() == set@,
{
    let mut ids: Vec<usize> = Vec::new();
    let ghost all = set.iter().remaining().unref();
    for id in it: set.iter()
        invariant
            it.seq().unref() == all,
            ids@ == all.take(it.index() as int),
    {
        ids.push(*id);
    }
    assert(ids@ =~= all);
    ids
}

} // verus!
