//! Expanding the selected variant groups across the size prefixes, and the
//! text of the marker that carries the result.

use crate::extract::{Selection, SelectionModel, Settings, SettingsModel};
use crate::variant_map::{get, group_entries, group_names, group_values, keys, strs, GroupEntry};
use indexmap::IndexMap;
use vstd::prelude::*;
use vstd::string::StringExecFns;

verus! {

/// The group names that a selection stands for.
pub open spec fn selected_names(m: Seq<GroupEntry>, sel: SelectionModel) -> Seq<Seq<char>> {
    match sel {
        Some(Some(names)) => names,
        Some(None) => group_names(m),
        None => seq![],
    }
}

/// The class values of the named groups: group after group in the order of
/// `names`, each group's values in their declared order. Unknown names add
/// nothing.
pub open spec fn collected(m: Seq<GroupEntry>, names: Seq<Seq<char>>) -> Seq<Seq<char>>
    decreases names.len(),
{
    if names.len() == 0 {
        seq![]
    } else {
        collected(m, names.drop_last()) + group_values(m, names.last())
    }
}

/// One entry of the output: `prefix:class`.
pub open spec fn entry(prefix: Seq<char>, class: Seq<char>) -> Seq<char> {
    prefix + seq![':'] + class
}

/// Every prefix with every class: prefixes outer, classes inner.
pub open spec fn prefixed(prefixes: Seq<Seq<char>>, classes: Seq<Seq<char>>) -> Seq<Seq<char>>
    decreases prefixes.len(),
{
    if prefixes.len() == 0 {
        seq![]
    } else {
        prefixed(prefixes.drop_last(), classes) + classes.map_values(
            |c: Seq<char>| entry(prefixes.last(), c),
        )
    }
}

/// The output of one definition with the given configuration.
pub open spec fn output_of(s: SettingsModel) -> Seq<Seq<char>> {
    prefixed(s.2, collected(s.0, selected_names(s.0, s.1)))
}

/// The entries joined with single spaces.
pub open spec fn joined(es: Seq<Seq<char>>) -> Seq<char>
    decreases es.len(),
{
    if es.len() == 0 {
        seq![]
    } else if es.len() == 1 {
        es[0]
    } else {
        joined(es.drop_last()) + seq![' '] + es.last()
    }
}

/// The text of a marker: `/* tag:entries */`.
pub open spec fn marker_text(tag: Seq<char>, es: Seq<Seq<char>>) -> Seq<char> {
    seq!['/', '*', ' '] + tag + seq![':'] + joined(es) + seq![' ', '*', '/']
}

/// The marker for an output: none where the output is empty.
pub open spec fn marker_of(tag: Seq<char>, es: Seq<Seq<char>>) -> Option<Seq<char>> {
    if es.len() == 0 {
        None
    } else {
        Some(marker_text(tag, es))
    }
}

/// Appends copies of the strings of `src` to `dst`.
fn append_all(dst: &mut Vec<String>, src: &Vec<String>)
    ensures
        strs(final(dst)@) == strs(old(dst)@) + strs(src@),
{
    let ghost start = strs(dst@);
    let mut j: usize = 0;
    while j < src.len()
        invariant
            j <= src@.len(),
            strs(dst@) == start + strs(src@.subrange(0, j as int)),
        decreases src@.len() - j,
    {
        let ghost prev = dst@;
        dst.push(src[j].clone());
        assert(strs(dst@) =~= strs(prev).push(src@[j as int]@));
        assert(strs(src@.subrange(0, j + 1)) =~= strs(src@.subrange(0, j as int)).push(src@[j as int]@));
        assert(strs(dst@) =~= start + strs(src@.subrange(0, j + 1)));
        j = j + 1;
    }
    assert(src@.subrange(0, src@.len() as int) =~= src@);
}

/// The class values of the named groups, in order.
pub fn collect_classes(groups: &IndexMap<String, Vec<String>>, names: &Vec<String>) -> (r: Vec<String>)
    ensures
        strs(r@) == collected(group_entries(*groups), strs(names@)),
{
    let ghost m = group_entries(*groups);
    let mut r: Vec<String> = Vec::new();
    let mut i: usize = 0;
    while i < names.len()
        invariant
            i <= names@.len(),
            m == group_entries(*groups),
            strs(r@) == collected(m, strs(names@.subrange(0, i as int))),
        decreases names@.len() - i,
    {
        let ghost before = strs(r@);
        assert(strs(names@.subrange(0, i + 1)).drop_last() =~= strs(names@.subrange(0, i as int)));
        assert(strs(names@.subrange(0, i + 1)).last() == names@[i as int]@);
        match get(groups, &names[i]) {
            Some(vals) => {
                append_all(&mut r, vals);
            },
            None => {
                assert(group_values(m, names@[i as int]@) =~= seq![]);
                assert(before + group_values(m, names@[i as int]@) =~= before);
            },
        }
        i = i + 1;
    }
    assert(names@.subrange(0, names@.len() as int) =~= names@);
    r
}

/// The class values that a selection picks from the groups.
pub fn selected_classes(groups: &IndexMap<String, Vec<String>>, sel: &Selection) -> (r: Vec<String>)
    ensures
        strs(r@) == collected(
            group_entries(*groups),
            selected_names(group_entries(*groups), sel.model()),
        ),
{
    match sel {
        Selection::Groups(names) => collect_classes(groups, names),
        Selection::All => {
            let names = keys(groups);
            collect_classes(groups, &names)
        },
        Selection::Nothing => Vec::new(),
    }
}

/// Every prefix with every class, as `prefix:class`: prefixes outer, classes
/// inner.
pub fn prefix_classes(prefixes: &Vec<String>, classes: &Vec<String>) -> (r: Vec<String>)
    ensures
        strs(r@) == prefixed(strs(prefixes@), strs(classes@)),
{
    let mut r: Vec<String> = Vec::new();
    let mut i: usize = 0;
    while i < prefixes.len()
        invariant
            i <= prefixes@.len(),
            strs(r@) == prefixed(strs(prefixes@.subrange(0, i as int)), strs(classes@)),
        decreases prefixes@.len() - i,
    {
        let ghost ps = strs(prefixes@.subrange(0, i + 1));
        let ghost before = strs(r@);
        assert(ps.drop_last() =~= strs(prefixes@.subrange(0, i as int)));
        assert(ps.last() == prefixes@[i as int]@);
        let mut j: usize = 0;
        while j < classes.len()
            invariant
                i < prefixes@.len(),
                j <= classes@.len(),
                strs(r@) == before + strs(classes@.subrange(0, j as int)).map_values(
                    |c: Seq<char>| entry(prefixes@[i as int]@, c),
                ),
            decreases classes@.len() - j,
        {
            let mut e = prefixes[i].clone();
            e.append(":");
            e.append(classes[j].as_str());
            proof {
                reveal_strlit(":");
            }
            assert(e@ == entry(prefixes@[i as int]@, classes@[j as int]@));
            let ghost prev = r@;
            r.push(e);
            assert(strs(r@) =~= strs(prev).push(entry(prefixes@[i as int]@, classes@[j as int]@)));
            assert(strs(r@) =~= before + strs(classes@.subrange(0, j + 1)).map_values(
                |c: Seq<char>| entry(prefixes@[i as int]@, c),
            ));
            j = j + 1;
        }
        assert(classes@.subrange(0, classes@.len() as int) =~= classes@);
        assert(strs(r@) =~= prefixed(ps, strs(classes@)));
        i = i + 1;
    }
    assert(prefixes@.subrange(0, prefixes@.len() as int) =~= prefixes@);
    r
}

/// The marker for the given entries: `/* tag:e1 e2 ... */`, or none where
/// there are no entries.
pub fn marker_for(tag: &str, es: &Vec<String>) -> (r: Option<String>)
    ensures
        r.is_some() == (es@.len() > 0),
        r matches Some(t) ==> t@ == marker_text(tag@, strs(es@)),
{
    if es.len() == 0 {
        return None;
    }
    let mut t = String::from_str("/* ");
    t.append(tag);
    t.append(":");
    let ghost head = t@;
    t.append(es[0].as_str());
    assert(joined(strs(es@.subrange(0, 1))) == es@[0]@);
    let mut i: usize = 1;
    while i < es.len()
        invariant
            1 <= i <= es@.len(),
            t@ == head + joined(strs(es@.subrange(0, i as int))),
        decreases es@.len() - i,
    {
        t.append(" ");
        t.append(es[i].as_str());
        proof {
            reveal_strlit(" ");
            let s = strs(es@.subrange(0, i + 1));
            assert(s.drop_last() =~= strs(es@.subrange(0, i as int)));
        }
        i = i + 1;
    }
    t.append(" */");
    proof {
        reveal_strlit("/* ");
        reveal_strlit(":");
        reveal_strlit(" */");
        assert(es@.subrange(0, es@.len() as int) =~= es@);
    }
    Some(t)
}

impl Settings {
    /// The marker that a definition with this configuration yields.
    pub fn marker(&self, tag: &str) -> (r: Option<String>)
        ensures
            r.is_some() == marker_of(tag@, output_of(self.model())).is_some(),
            r matches Some(t) ==> marker_of(tag@, output_of(self.model())) == Some(t@),
    {
        let classes = selected_classes(&self.groups, &self.selection);
        let es = prefix_classes(&self.sizes, &classes);
        marker_for(tag, &es)
    }
}

} // verus!
