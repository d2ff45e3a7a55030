//! The variant map: group name to the class values of that group, in the
//! order the groups were declared. Held in an `IndexMap`.

use indexmap::IndexMap;
use vstd::prelude::*;

verus! {

/// A group name and the class values of that group, as plain sequences.
pub type GroupEntry = (Seq<char>, Seq<Seq<char>>);

#[verifier::external_type_specification]
#[verifier::external_body]
#[verifier::reject_recursive_types(K)]
#[verifier::reject_recursive_types(V)]
#[verifier::reject_recursive_types(S)]
pub struct ExIndexMap<K, V, S>(IndexMap<K, V, S>);

/// What a variant map holds: its entries, in the map's order.
pub uninterp spec fn group_entries(m: IndexMap<String, Vec<String>>) -> Seq<GroupEntry>;

/// The character sequences of a list of strings.
pub open spec fn strs(v: Seq<String>) -> Seq<Seq<char>> {
    v.map_values(|s: String| s@)
}

/// Index of the first entry at or after `i` whose group name is `k`, or -1.
pub open spec fn find_from(m: Seq<GroupEntry>, k: Seq<char>, i: int) -> int
    decreases m.len() - i,
{
    if i < 0 || i >= m.len() {
        -1
    } else if m[i].0 == k {
        i
    } else {
        find_from(m, k, i + 1)
    }
}

/// Index of the entry whose group name is `k`, or -1.
pub open spec fn find_group(m: Seq<GroupEntry>, k: Seq<char>) -> int {
    find_from(m, k, 0)
}

/// The entries after putting `(k, v)`: an existing group keeps its place and
/// gets the new values; a new group goes last.
pub open spec fn put_group(m: Seq<GroupEntry>, k: Seq<char>, v: Seq<Seq<char>>) -> Seq<GroupEntry> {
    let i = find_group(m, k);
    if i >= 0 {
        m.update(i, (k, v))
    } else {
        m.push((k, v))
    }
}

/// The class values of group `k`; none where the group is not in the map.
pub open spec fn group_values(m: Seq<GroupEntry>, k: Seq<char>) -> Seq<Seq<char>> {
    let i = find_group(m, k);
    if i >= 0 {
        m[i].1
    } else {
        seq![]
    }
}

/// The group names, in the map's order.
pub open spec fn group_names(m: Seq<GroupEntry>) -> Seq<Seq<char>> {
    m.map_values(|e: GroupEntry| e.0)
}

/// Relies on `IndexMap::new`: a new map is empty.
#[verifier::external_body]
pub(crate) fn new_map() -> (m: IndexMap<String, Vec<String>>)
    ensures
        group_entries(m) == Seq::<GroupEntry>::empty(),
{
    IndexMap::new()
}

/// Relies on `IndexMap::insert`: an equal key keeps its place in the order and
/// takes the new value; otherwise the pair goes last.
#[verifier::external_body]
pub(crate) fn put(m: &mut IndexMap<String, Vec<String>>, k: String, v: Vec<String>)
    ensures
        group_entries(*final(m)) == put_group(group_entries(*old(m)), k@, strs(v@)),
{
    m.insert(k, v);
}

/// Relies on `IndexMap::get`: the value stored under an equal key, if any.
#[verifier::external_body]
pub(crate) fn get<'a>(m: &'a IndexMap<String, Vec<String>>, k: &String) -> (r: Option<&'a Vec<String>>)
    ensures
        match r {
            Some(v) => find_group(group_entries(*m), k@) >= 0 && strs(v@)
                == group_entries(*m)[find_group(group_entries(*m), k@)].1,
            None => find_group(group_entries(*m), k@) < 0,
        },
{
    m.get(k)
}

/// Relies on `IndexMap::keys`: the keys, in the map's order.
#[verifier::external_body]
pub(crate) fn keys(m: &IndexMap<String, Vec<String>>) -> (r: Vec<String>)
    ensures
        strs(r@) == group_names(group_entries(*m)),
{
    m.keys().cloned().collect()
}

} // verus!
