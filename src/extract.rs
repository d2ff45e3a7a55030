//! Reading the configuration of a style definition out of its object literal:
//! the variant map, the responsive selection and the size prefixes.

use crate::ast::{Expr, Prop, PropKey};
use crate::text::same_text;
use crate::variant_map::{new_map, put, put_group, strs, GroupEntry};
use indexmap::IndexMap;
use vstd::prelude::*;
use vstd::string::StringExecFns;

verus! {

/// Which variant groups are expanded across the size prefixes.
pub enum Selection {
    /// The named groups, in this order.
    Groups(Vec<String>),
    /// Every group, in the order the groups were declared.
    All,
    /// No group.
    Nothing,
}

/// The selection as plain sequences: `None` is "nothing", `Some(None)` is
/// "every group", `Some(Some(names))` the named groups.
pub type SelectionModel = Option<Option<Seq<Seq<char>>>>;

impl Selection {
    /// The selection as plain sequences.
    pub open spec fn model(&self) -> SelectionModel {
        match self {
            Selection::Groups(v) => Some(Some(strs(v@))),
            Selection::All => Some(None),
            Selection::Nothing => None,
        }
    }
}

/// The configuration read from one style definition.
pub struct Settings {
    pub groups: IndexMap<String, Vec<String>>,
    pub selection: Selection,
    pub sizes: Vec<String>,
}

/// The configuration as plain values: groups, selection, size prefixes.
pub type SettingsModel = (Seq<GroupEntry>, SelectionModel, Seq<Seq<char>>);

/// The size prefixes used where the definition gives none.
pub open spec fn default_sizes() -> Seq<Seq<char>> {
    seq!["xs"@, "sm"@, "md"@, "lg"@, "xl"@, "2xl"@]
}

/// The string literals among the values of some object properties, in order;
/// the keys are ignored.
pub open spec fn string_values(ps: Seq<Prop>) -> Seq<Seq<char>>
    decreases ps.len(),
{
    if ps.len() == 0 {
        seq![]
    } else {
        let rest = string_values(ps.drop_last());
        match ps.last() {
            Prop::KeyValue(_, Expr::Str(s)) => rest.push(s@),
            _ => rest,
        }
    }
}

/// The string literals among some array elements, in order.
pub open spec fn string_elems(es: Seq<Expr>) -> Seq<Seq<char>>
    decreases es.len(),
{
    if es.len() == 0 {
        seq![]
    } else {
        let rest = string_elems(es.drop_last());
        match es.last() {
            Expr::Str(s) => rest.push(s@),
            _ => rest,
        }
    }
}

/// The groups after reading the properties of a `variants` object: each
/// `name: { ... }` property puts the group `name` with its string values.
pub open spec fn put_groups(m: Seq<GroupEntry>, ps: Seq<Prop>) -> Seq<GroupEntry>
    decreases ps.len(),
{
    if ps.len() == 0 {
        m
    } else {
        let before = put_groups(m, ps.drop_last());
        match ps.last() {
            Prop::KeyValue(PropKey::Ident(g), Expr::Object(vals)) => put_group(
                before,
                g@,
                string_values(vals@),
            ),
            _ => before,
        }
    }
}

/// The configuration after reading one more property of the definition.
pub open spec fn read_field(c: SettingsModel, p: Prop) -> SettingsModel {
    match p {
        Prop::KeyValue(PropKey::Ident(k), v) => {
            if k@ == "variants"@ {
                match v {
                    Expr::Object(ps) => (put_groups(c.0, ps@), c.1, c.2),
                    _ => c,
                }
            } else if k@ == "responsiveVariants"@ {
                match v {
                    Expr::Array(es) => (c.0, Some(Some(string_elems(es@))), c.2),
                    Expr::Bool(b) => if b {
                        (c.0, Some(None), c.2)
                    } else {
                        c
                    },
                    _ => c,
                }
            } else if k@ == "responsiveSizes"@ {
                match v {
                    Expr::Array(es) => (c.0, c.1, string_elems(es@)),
                    _ => c,
                }
            } else {
                c
            }
        },
        _ => c,
    }
}

/// The configuration read from the properties of a definition, in order.
pub open spec fn read_fields(ps: Seq<Prop>) -> SettingsModel
    decreases ps.len(),
{
    if ps.len() == 0 {
        (seq![], None, default_sizes())
    } else {
        read_field(read_fields(ps.drop_last()), ps.last())
    }
}

/// The string literals among some array elements.
fn elems_of(es: &Vec<Expr>) -> (r: Vec<String>)
    ensures
        strs(r@) == string_elems(es@),
{
    let mut r: Vec<String> = Vec::new();
    let mut i: usize = 0;
    while i < es.len()
        invariant
            i <= es@.len(),
            strs(r@) == string_elems(es@.subrange(0, i as int)),
        decreases es@.len() - i,
    {
        assert(es@.subrange(0, i + 1).drop_last() =~= es@.subrange(0, i as int));
        if let Expr::Str(s) = &es[i] {
            r.push(s.clone());
        }
        assert(strs(r@) =~= string_elems(es@.subrange(0, i + 1)));
        i = i + 1;
    }
    assert(es@.subrange(0, es@.len() as int) =~= es@);
    r
}

/// The string literals among the values of some object properties.
fn values_of(ps: &Vec<Prop>) -> (r: Vec<String>)
    ensures
        strs(r@) == string_values(ps@),
{
    let mut r: Vec<String> = Vec::new();
    let mut i: usize = 0;
    while i < ps.len()
        invariant
            i <= ps@.len(),
            strs(r@) == string_values(ps@.subrange(0, i as int)),
        decreases ps@.len() - i,
    {
        assert(ps@.subrange(0, i + 1).drop_last() =~= ps@.subrange(0, i as int));
        if let Prop::KeyValue(_, Expr::Str(s)) = &ps[i] {
            r.push(s.clone());
        }
        assert(strs(r@) =~= string_values(ps@.subrange(0, i + 1)));
        i = i + 1;
    }
    assert(ps@.subrange(0, ps@.len() as int) =~= ps@);
    r
}

/// Puts the groups declared by the properties of a `variants` object.
fn read_groups(m: &mut IndexMap<String, Vec<String>>, ps: &Vec<Prop>)
    ensures
        crate::variant_map::group_entries(*final(m)) == put_groups(
            crate::variant_map::group_entries(*old(m)),
            ps@,
        ),
{
    let ghost start = crate::variant_map::group_entries(*m);
    let mut i: usize = 0;
    while i < ps.len()
        invariant
            i <= ps@.len(),
            crate::variant_map::group_entries(*m) == put_groups(start, ps@.subrange(0, i as int)),
        decreases ps@.len() - i,
    {
        assert(ps@.subrange(0, i + 1).drop_last() =~= ps@.subrange(0, i as int));
        if let Prop::KeyValue(PropKey::Ident(g), Expr::Object(vals)) = &ps[i] {
            let values = values_of(vals);
            put(m, g.clone(), values);
        }
        i = i + 1;
    }
    assert(ps@.subrange(0, ps@.len() as int) =~= ps@);
}

/// The size prefixes used where the definition gives none.
fn default_size_list() -> (r: Vec<String>)
    ensures
        strs(r@) == default_sizes(),
{
    let r = vec![
        String::from_str("xs"),
        String::from_str("sm"),
        String::from_str("md"),
        String::from_str("lg"),
        String::from_str("xl"),
        String::from_str("2xl"),
    ];
    assert(strs(r@) =~= default_sizes());
    r
}

impl Settings {
    /// The configuration as plain values.
    pub open spec fn model(&self) -> SettingsModel {
        (crate::variant_map::group_entries(self.groups), self.selection.model(), strs(self.sizes@))
    }

    /// Reads the configuration from the properties of a definition's object
    /// literal, in their declared order. Properties of another shape, and
    /// fields of an unexpected shape, leave the configuration as it was.
    pub fn read(ps: &Vec<Prop>) -> (r: Settings)
        ensures
            r.model() == read_fields(ps@),
    {
        let mut r = Settings { groups: new_map(), selection: Selection::Nothing, sizes: default_size_list() };
        let mut i: usize = 0;
        while i < ps.len()
            invariant
                i <= ps@.len(),
                r.model() == read_fields(ps@.subrange(0, i as int)),
            decreases ps@.len() - i,
        {
            assert(ps@.subrange(0, i + 1).drop_last() =~= ps@.subrange(0, i as int));
            assert(ps@.subrange(0, i + 1).last() == ps@[i as int]);
            if let Prop::KeyValue(PropKey::Ident(k), v) = &ps[i] {
                if same_text(k.as_str(), "variants") {
                    if let Expr::Object(groups) = v {
                        read_groups(&mut r.groups, groups);
                    }
                } else if same_text(k.as_str(), "responsiveVariants") {
                    match v {
                        Expr::Array(es) => {
                            r.selection = Selection::Groups(elems_of(es));
                        },
                        Expr::Bool(b) => {
                            if *b {
                                r.selection = Selection::All;
                            }
                        },
                        _ => {},
                    }
                } else if same_text(k.as_str(), "responsiveSizes") {
                    if let Expr::Array(es) = v {
                        r.sizes = elems_of(es);
                    }
                }
            }
            i = i + 1;
        }
        assert(ps@.subrange(0, ps@.len() as int) =~= ps@);
        r
    }
}

} // verus!
