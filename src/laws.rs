//! Properties of the expansion and of the pass, stated over the models that
//! the functions' contracts use.

use crate::ast::{Expr, Item, Prop, PropKey};
use crate::expand::{collected, entry, marker_of, output_of, prefixed};
use crate::extract::{read_field, read_fields, string_elems, SettingsModel};
use crate::variant_map::{find_group, group_names, group_values, GroupEntry};
use crate::pass::{after_leading_imports, is_marker_item, module_done};
use crate::walk::{definition_props, items_markers, own_marker};
use vstd::prelude::*;

verus! {

/// The number of classes that the named groups hold, unknown names counting
/// nothing.
pub open spec fn selected_count(m: Seq<GroupEntry>, names: Seq<Seq<char>>) -> nat
    decreases names.len(),
{
    if names.len() == 0 {
        0
    } else {
        selected_count(m, names.drop_last()) + group_values(m, names.last()).len()
    }
}

/// The classes of the named groups number as many as those groups hold.
pub proof fn lemma_collected_len(m: Seq<GroupEntry>, names: Seq<Seq<char>>)
    ensures
        collected(m, names).len() == selected_count(m, names),
    decreases names.len(),
{
    if names.len() > 0 {
        lemma_collected_len(m, names.drop_last());
    }
}

/// Every prefix with every class: as many entries as prefixes times classes,
/// entry `i * |classes| + j` being prefix `i` with class `j`.
pub proof fn lemma_prefixed_layout(ps: Seq<Seq<char>>, cs: Seq<Seq<char>>)
    ensures
        prefixed(ps, cs).len() == ps.len() * cs.len(),
        forall|i: int, j: int|
            0 <= i < ps.len() && 0 <= j < cs.len() ==> #[trigger] prefixed(ps, cs)[i * cs.len() + j]
                == entry(ps[i], #[trigger] cs[j]),
    decreases ps.len(),
{
    if ps.len() > 0 {
        let n = ps.len() - 1;
        let c = cs.len();
        lemma_prefixed_layout(ps.drop_last(), cs);
        assert(prefixed(ps, cs).len() == n * c + c);
        assert(n * c + c == ps.len() * c) by (nonlinear_arith)
            requires
                n == ps.len() - 1,
        ;
        assert forall|i: int, j: int| 0 <= i < ps.len() && 0 <= j < c implies #[trigger] prefixed(
            ps,
            cs,
        )[i * c + j] == entry(ps[i], #[trigger] cs[j]) by {
            if i < n {
                assert(i * c + j < n * c) by (nonlinear_arith)
                    requires
                        0 <= i < n,
                        0 <= j < c,
                ;
                assert(ps.drop_last()[i] == ps[i]);
            } else {
                assert(i * c == n * c);
            }
        }
    }
}

/// The output of a definition has `|prefixes| * (classes of the selected,
/// known groups)` entries, prefixes outer and classes inner; the classes come
/// group after group in the order of the selection.
pub proof fn law_output_layout(m: Seq<GroupEntry>, names: Seq<Seq<char>>, ps: Seq<Seq<char>>)
    ensures
        prefixed(ps, collected(m, names)).len() == ps.len() * selected_count(m, names),
        forall|i: int, j: int|
            0 <= i < ps.len() && 0 <= j < collected(m, names).len() ==> #[trigger] prefixed(
                ps,
                collected(m, names),
            )[i * collected(m, names).len() + j] == entry(ps[i], #[trigger] collected(m, names)[j]),
        names.len() > 0 ==> collected(m, names) == collected(m, names.drop_last()) + group_values(
            m,
            names.last(),
        ),
{
    lemma_collected_len(m, names);
    lemma_prefixed_layout(ps, collected(m, names));
}

/// Selecting every group gives the same output as naming all groups in their
/// declared order.
pub proof fn law_all_is_declared_order(m: Seq<GroupEntry>, ps: Seq<Seq<char>>)
    ensures
        output_of((m, Some(None), ps)) == output_of((m, Some(Some(group_names(m))), ps)),
{
}

/// With no selection, or an empty one, a definition yields no marker.
pub proof fn law_no_selection_no_marker(s: SettingsModel, tag: Seq<char>)
    requires
        s.1 is None || s.1 == Some(Some(Seq::<Seq<char>>::empty())),
    ensures
        marker_of(tag, output_of(s)) is None,
{
    lemma_prefixed_layout(s.2, Seq::<Seq<char>>::empty());
    assert(collected(s.0, Seq::<Seq<char>>::empty()) == Seq::<Seq<char>>::empty());
    assert(s.2.len() * 0 == 0) by (nonlinear_arith);
}

/// Without a `responsiveVariants` field nothing is selected.
pub proof fn law_selection_absent(ps: Seq<Prop>)
    requires
        forall|i: int|
            0 <= i < ps.len() ==> !(#[trigger] ps[i] matches Prop::KeyValue(PropKey::Ident(k), _)
                && k@ == "responsiveVariants"@),
    ensures
        read_fields(ps).1 is None,
    decreases ps.len(),
{
    if ps.len() > 0 {
        let rest = ps.drop_last();
        assert forall|i: int|
            0 <= i < rest.len() implies !(#[trigger] rest[i] matches Prop::KeyValue(
            PropKey::Ident(k),
            _,
        ) && k@ == "responsiveVariants"@) by {
            assert(rest[i] == ps[i]);
        }
        law_selection_absent(rest);
        assert(ps.last() == ps[ps.len() - 1]);
    }
}

/// A boolean `false` field changes nothing: the selection stays as it was
/// (none, where nothing selected before it).
pub proof fn law_false_selects_nothing(c: SettingsModel, p: Prop)
    requires
        p matches Prop::KeyValue(PropKey::Ident(_), Expr::Bool(b)) && !b,
    ensures
        read_field(c, p) == c,
{
}

/// The classes of a selection split at any point.
pub proof fn lemma_collected_append(m: Seq<GroupEntry>, a: Seq<Seq<char>>, b: Seq<Seq<char>>)
    ensures
        collected(m, a + b) == collected(m, a) + collected(m, b),
    decreases b.len(),
{
    if b.len() == 0 {
        assert(a + b =~= a);
    } else {
        lemma_collected_append(m, a, b.drop_last());
        assert((a + b).drop_last() =~= a + b.drop_last());
        assert((a + b).last() == b.last());
    }
}

/// A selected name that no group has adds no class, wherever it stands.
pub proof fn law_unknown_group_adds_nothing(
    m: Seq<GroupEntry>,
    a: Seq<Seq<char>>,
    g: Seq<char>,
    b: Seq<Seq<char>>,
)
    requires
        find_group(m, g) < 0,
    ensures
        collected(m, a + seq![g] + b) == collected(m, a + b),
{
    lemma_collected_append(m, a + seq![g], b);
    lemma_collected_append(m, a, seq![g]);
    lemma_collected_append(m, a, b);
    assert(seq![g].drop_last() =~= Seq::<Seq<char>>::empty());
    assert(seq![g].last() == g);
    assert(group_values(m, g) =~= Seq::<Seq<char>>::empty());
    assert(collected(m, seq![g]) == collected(m, Seq::<Seq<char>>::empty()) + group_values(m, g));
    assert(collected(m, seq![g]) =~= Seq::<Seq<char>>::empty());
    assert(collected(m, a) + Seq::<Seq<char>>::empty() =~= collected(m, a));
}

/// A `responsiveSizes` array replaces the size prefixes with its string
/// literals, whatever they were before.
pub proof fn law_sizes_replace(c: SettingsModel, p: Prop)
    requires
        p matches Prop::KeyValue(PropKey::Ident(k), Expr::Array(_)) && k@ == "responsiveSizes"@,
    ensures
        read_field(c, p) == (c.0, c.1, string_elems(p->KeyValue_1->Array_0@)),
{
    reveal_strlit("responsiveSizes");
    reveal_strlit("variants");
    reveal_strlit("responsiveVariants");
    assert("responsiveSizes"@.len() != "variants"@.len());
    assert("responsiveSizes"@.len() != "responsiveVariants"@.len());
}

/// An expression yields one marker of its own where it is a style definition
/// with a non-empty output, and none otherwise.
pub proof fn law_one_marker_per_definition(e: Expr, tag: Seq<char>)
    ensures
        own_marker(e, tag).len() == if definition_props(e) matches Some(ps) && output_of(
            read_fields(ps),
        ).len() > 0 {
            1int
        } else {
            0int
        },
{
}

/// Any other expression (another callee, a member callee, a first argument
/// that is no object literal) yields no marker of its own.
pub proof fn law_other_calls_yield_nothing(e: Expr, tag: Seq<char>)
    requires
        definition_props(e) is None,
    ensures
        own_marker(e, tag) == Seq::<Seq<char>>::empty(),
{
}

/// The three field names differ.
proof fn lemma_field_names_differ()
    ensures
        "variants"@ != "responsiveVariants"@,
        "variants"@ != "responsiveSizes"@,
        "responsiveVariants"@ != "responsiveSizes"@,
{
    reveal_strlit("variants");
    reveal_strlit("responsiveVariants");
    reveal_strlit("responsiveSizes");
    assert("variants"@.len() != "responsiveVariants"@.len());
    assert("variants"@.len() != "responsiveSizes"@.len());
    assert("responsiveVariants"@.len() != "responsiveSizes"@.len());
}

/// Whether a property is a field with the given name.
pub open spec fn is_field(p: Prop, name: Seq<char>) -> bool {
    p matches Prop::KeyValue(PropKey::Ident(k), _) && k@ == name
}

/// After a `responsiveSizes` array, fields of other names leave the size
/// prefixes as that array gave them: the last such field fixes them, never
/// merged with the default or with earlier fields.
pub proof fn law_last_sizes_field_wins(a: Seq<Prop>, p: Prop, b: Seq<Prop>)
    requires
        p matches Prop::KeyValue(PropKey::Ident(k), Expr::Array(_)) && k@ == "responsiveSizes"@,
        forall|j: int| 0 <= j < b.len() ==> !is_field(#[trigger] b[j], "responsiveSizes"@),
    ensures
        read_fields(a + seq![p] + b).2 == string_elems(p->KeyValue_1->Array_0@),
    decreases b.len(),
{
    let ps = a + seq![p] + b;
    if b.len() == 0 {
        assert(ps.drop_last() =~= a);
        assert(ps.last() == p);
        law_sizes_replace(read_fields(a), p);
    } else {
        let rest = b.drop_last();
        assert forall|j: int| 0 <= j < rest.len() implies !is_field(#[trigger] rest[j], "responsiveSizes"@) by {
            assert(rest[j] == b[j]);
        }
        law_last_sizes_field_wins(a, p, rest);
        assert(ps.drop_last() =~= a + seq![p] + rest);
        assert(ps.last() == b[b.len() - 1]);
        lemma_field_names_differ();
    }
}

/// The selection that a property sets, where it is a `responsiveVariants`
/// field that sets one.
pub open spec fn selection_set(p: Prop) -> Option<crate::extract::SelectionModel> {
    match p {
        Prop::KeyValue(PropKey::Ident(k), v) => if k@ == "responsiveVariants"@ {
            match v {
                Expr::Array(es) => Some(Some(Some(string_elems(es@)))),
                Expr::Bool(b) => if b {
                    Some(Some(None))
                } else {
                    None
                },
                _ => None,
            }
        } else {
            None
        },
        _ => None,
    }
}

/// Two configurations that differ at most in that one has selection `s1`
/// where the other has `s2`.
pub open spec fn same_but_selection(
    x: SettingsModel,
    y: SettingsModel,
    s1: crate::extract::SelectionModel,
    s2: crate::extract::SelectionModel,
) -> bool {
    &&& x.0 == y.0
    &&& x.2 == y.2
    &&& (x.1 == y.1 || (x.1 == s1 && y.1 == s2))
}

proof fn lemma_swap_prefix(
    ps1: Seq<Prop>,
    ps2: Seq<Prop>,
    i: int,
    s1: crate::extract::SelectionModel,
    s2: crate::extract::SelectionModel,
    n: int,
)
    requires
        ps1.len() == ps2.len(),
        0 <= i < ps1.len(),
        forall|j: int| 0 <= j < ps1.len() && j != i ==> ps1[j] == ps2[j],
        selection_set(ps1[i]) == Some(s1),
        selection_set(ps2[i]) == Some(s2),
        0 <= n <= ps1.len(),
    ensures
        n <= i ==> read_fields(ps1.subrange(0, n)) == read_fields(ps2.subrange(0, n)),
        n > i ==> same_but_selection(
            read_fields(ps1.subrange(0, n)),
            read_fields(ps2.subrange(0, n)),
            s1,
            s2,
        ),
    decreases n,
{
    if n > 0 {
        lemma_swap_prefix(ps1, ps2, i, s1, s2, n - 1);
        let q1 = ps1.subrange(0, n);
        let q2 = ps2.subrange(0, n);
        assert(q1.drop_last() =~= ps1.subrange(0, n - 1));
        assert(q2.drop_last() =~= ps2.subrange(0, n - 1));
        assert(q1.last() == ps1[n - 1]);
        assert(q2.last() == ps2[n - 1]);
        lemma_field_names_differ();
        if n - 1 != i {
            assert(ps1[n - 1] == ps2[n - 1]);
        }
    } else {
        assert(ps1.subrange(0, 0) =~= ps2.subrange(0, 0));
    }
}

/// Two literals that differ only in one `responsiveVariants` field read to
/// the same groups and prefixes, and to either the same selection or the two
/// selections those fields set.
proof fn lemma_swap_selection(
    ps1: Seq<Prop>,
    ps2: Seq<Prop>,
    i: int,
    s1: crate::extract::SelectionModel,
    s2: crate::extract::SelectionModel,
)
    requires
        ps1.len() == ps2.len(),
        0 <= i < ps1.len(),
        forall|j: int| 0 <= j < ps1.len() && j != i ==> ps1[j] == ps2[j],
        selection_set(ps1[i]) == Some(s1),
        selection_set(ps2[i]) == Some(s2),
    ensures
        same_but_selection(read_fields(ps1), read_fields(ps2), s1, s2),
{
    lemma_swap_prefix(ps1, ps2, i, s1, s2, ps1.len() as int);
    assert(ps1.subrange(0, ps1.len() as int) =~= ps1);
    assert(ps2.subrange(0, ps2.len() as int) =~= ps2);
}

/// Adding a group name that no group of the definition has, anywhere in a
/// `responsiveVariants` array, leaves the output unchanged.
pub proof fn law_unknown_name_in_literal(
    ps1: Seq<Prop>,
    ps2: Seq<Prop>,
    i: int,
    a: Seq<Seq<char>>,
    g: Seq<char>,
    b: Seq<Seq<char>>,
)
    requires
        ps1.len() == ps2.len(),
        0 <= i < ps1.len(),
        forall|j: int| 0 <= j < ps1.len() && j != i ==> ps1[j] == ps2[j],
        ps1[i] matches Prop::KeyValue(PropKey::Ident(k), Expr::Array(es)) && k@
            == "responsiveVariants"@ && string_elems(es@) == a + b,
        ps2[i] matches Prop::KeyValue(PropKey::Ident(k), Expr::Array(es)) && k@
            == "responsiveVariants"@ && string_elems(es@) == a + seq![g] + b,
        find_group(read_fields(ps1).0, g) < 0,
    ensures
        output_of(read_fields(ps1)) == output_of(read_fields(ps2)),
{
    lemma_swap_selection(ps1, ps2, i, Some(Some(a + b)), Some(Some(a + seq![g] + b)));
    law_unknown_group_adds_nothing(read_fields(ps1).0, a, g, b);
}

/// Replacing a `responsiveVariants: true` field by an array of all group
/// names, in their declared order, leaves the output unchanged.
pub proof fn law_true_is_explicit_list(ps1: Seq<Prop>, ps2: Seq<Prop>, i: int)
    requires
        ps1.len() == ps2.len(),
        0 <= i < ps1.len(),
        forall|j: int| 0 <= j < ps1.len() && j != i ==> ps1[j] == ps2[j],
        ps1[i] matches Prop::KeyValue(PropKey::Ident(k), Expr::Bool(b)) && b && k@
            == "responsiveVariants"@,
        ps2[i] matches Prop::KeyValue(PropKey::Ident(k), Expr::Array(es)) && k@
            == "responsiveVariants"@ && string_elems(es@) == group_names(read_fields(ps1).0),
    ensures
        output_of(read_fields(ps1)) == output_of(read_fields(ps2)),
{
    lemma_swap_selection(
        ps1,
        ps2,
        i,
        Some(None),
        Some(Some(group_names(read_fields(ps1).0))),
    );
}

/// The markers of a program are those of its first part, then those of the
/// rest: source order across items.
pub proof fn law_markers_follow_item_order(a: Seq<Item>, b: Seq<Item>, tag: Seq<char>)
    ensures
        items_markers(a + b, tag) == items_markers(a, tag) + items_markers(b, tag),
    decreases b.len(),
{
    if b.len() == 0 {
        assert(a + b =~= a);
    } else {
        law_markers_follow_item_order(a, b.drop_last(), tag);
        assert((a + b).drop_last() =~= a + b.drop_last());
        assert((a + b).last() == b.last());
    }
}

/// Imports yield no marker.
pub proof fn lemma_imports_yield_nothing(imports: Seq<Item>, tag: Seq<char>)
    requires
        forall|k: int| 0 <= k < imports.len() ==> (#[trigger] imports[k]) is Import,
    ensures
        items_markers(imports, tag) == Seq::<Seq<char>>::empty(),
    decreases imports.len(),
{
    if imports.len() > 0 {
        let rest = imports.drop_last();
        assert forall|k: int| 0 <= k < rest.len() implies (#[trigger] rest[k]) is Import by {
            assert(rest[k] == imports[k]);
        }
        lemma_imports_yield_nothing(rest, tag);
        assert(imports.last() == imports[imports.len() - 1]);
    }
}

/// A module of leading imports `imports` and then `rest` comes out as the
/// imports, the markers of `rest` in source order, then `rest` itself.
pub proof fn law_block_after_imports(imports: Seq<Item>, rest: Seq<Item>, tag: Seq<char>, after: Seq<Item>)
    requires
        forall|k: int| 0 <= k < imports.len() ==> (#[trigger] imports[k]) is Import,
        rest.len() > 0 ==> !(rest[0] is Import),
        module_done(imports + rest, tag, after),
    ensures
        after.len() == imports.len() + items_markers(rest, tag).len() + rest.len(),
        after.subrange(0, imports.len() as int) == imports,
        forall|k: int|
            0 <= k < items_markers(rest, tag).len() ==> is_marker_item(
                #[trigger] after[imports.len() + k],
                items_markers(rest, tag)[k],
            ),
        after.subrange((imports.len() + items_markers(rest, tag).len()) as int, after.len() as int) == rest,
{
    let before = imports + rest;
    let at = choose|at: int|
        after_leading_imports(before, at) && crate::pass::inserted_at(
            before,
            at,
            items_markers(before, tag),
            after,
        );
    law_markers_follow_item_order(imports, rest, tag);
    lemma_imports_yield_nothing(imports, tag);
    assert(items_markers(imports, tag) + items_markers(rest, tag) =~= items_markers(rest, tag));
    if at < imports.len() {
        assert(before[at] == imports[at]);
    }
    if at > imports.len() {
        assert(before[imports.len() as int] == rest[0]);
    }
    let m = items_markers(rest, tag).len();
    assert(after.subrange(0, imports.len() as int) =~= imports) by {
        assert forall|k: int| 0 <= k < imports.len() implies after.subrange(0, imports.len() as int)[k] == imports[k] by {
            assert(after[k] == before[k]);
        }
    }
    assert(after.subrange((imports.len() + m) as int, after.len() as int) =~= rest) by {
        assert forall|k: int| 0 <= k < rest.len() implies after.subrange((imports.len() + m) as int, after.len() as int)[k] == rest[k] by {
            assert(after[(imports.len() + k) + m] == before[imports.len() + k]);
        }
    }
}

/// A module whose definitions yield no marker comes out unchanged.
pub proof fn law_no_markers_no_change(before: Seq<Item>, tag: Seq<char>, after: Seq<Item>)
    requires
        module_done(before, tag, after),
        items_markers(before, tag).len() == 0,
    ensures
        after == before,
{
    let at = choose|at: int|
        after_leading_imports(before, at) && crate::pass::inserted_at(
            before,
            at,
            items_markers(before, tag),
            after,
        );
    assert forall|k: int| 0 <= k < before.len() implies after[k] == before[k] by {
        if k >= at {
            assert(after[k + 0] == before[k]);
        }
    }
    assert(after =~= before);
}

} // verus!
