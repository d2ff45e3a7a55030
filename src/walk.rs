//! Finding the style definitions in a program, in source order, and injecting
//! their markers after the leading imports.

use crate::ast::{Expr, Item, Prop, PropKey};
use crate::expand::{marker_of, output_of};
use crate::extract::{read_fields, Settings};
use crate::text::same_text;
use crate::variant_map::strs;
use vstd::prelude::*;

verus! {

/// The properties of the object literal of a style definition: `e` calls the
/// bare identifier `atomic` and its first argument is an object literal (not
/// spread).
pub open spec fn definition_props(e: Expr) -> Option<Seq<Prop>> {
    match e {
        Expr::Call(callee, args) => match *callee {
            Expr::Ident(name) => if name@ == "atomic"@ && args@.len() > 0 {
                match args@[0] {
                    Expr::Object(ps) => Some(ps@),
                    _ => None,
                }
            } else {
                None
            },
            _ => None,
        },
        _ => None,
    }
}

/// The marker that `e` itself yields (not counting what it holds).
pub open spec fn own_marker(e: Expr, tag: Seq<char>) -> Seq<Seq<char>> {
    match definition_props(e) {
        Some(ps) => match marker_of(tag, output_of(read_fields(ps))) {
            Some(t) => seq![t],
            None => seq![],
        },
        None => seq![],
    }
}

/// The markers of an expression and of everything it holds, in source order.
pub open spec fn expr_markers(e: Expr, tag: Seq<char>) -> Seq<Seq<char>>
    decreases e,
{
    own_marker(e, tag) + match e {
        Expr::Object(ps) => props_markers(ps@, tag),
        Expr::Array(es) => exprs_markers(es@, tag),
        Expr::Call(callee, args) => expr_markers(*callee, tag) + exprs_markers(args@, tag),
        Expr::Spread(inner) => expr_markers(*inner, tag),
        Expr::Other(es) => exprs_markers(es@, tag),
        _ => seq![],
    }
}

/// The markers of a list of expressions, in order.
pub open spec fn exprs_markers(es: Seq<Expr>, tag: Seq<char>) -> Seq<Seq<char>>
    decreases es,
{
    if es.len() == 0 {
        seq![]
    } else {
        exprs_markers(es.subrange(0, es.len() - 1), tag) + expr_markers(es[es.len() - 1], tag)
    }
}

/// The markers of a property: its key, then its value.
pub open spec fn prop_markers(p: Prop, tag: Seq<char>) -> Seq<Seq<char>>
    decreases p,
{
    match p {
        Prop::KeyValue(PropKey::Ident(_), v) => expr_markers(v, tag),
        Prop::KeyValue(PropKey::Other(ks), v) => exprs_markers(ks@, tag) + expr_markers(v, tag),
        Prop::Other(es) => exprs_markers(es@, tag),
    }
}

/// The markers of a list of properties, in order.
pub open spec fn props_markers(ps: Seq<Prop>, tag: Seq<char>) -> Seq<Seq<char>>
    decreases ps,
{
    if ps.len() == 0 {
        seq![]
    } else {
        props_markers(ps.subrange(0, ps.len() - 1), tag) + prop_markers(ps[ps.len() - 1], tag)
    }
}

/// The markers of a program's items, in source order.
pub open spec fn items_markers(items: Seq<Item>, tag: Seq<char>) -> Seq<Seq<char>>
    decreases items.len(),
{
    if items.len() == 0 {
        seq![]
    } else {
        items_markers(items.drop_last(), tag) + match items.last() {
            Item::Stmt(es) => exprs_markers(es@, tag),
            Item::Import => seq![],
        }
    }
}

/// The properties of the object literal of `e`, where `e` is a style
/// definition.
pub fn definition_of(e: &Expr) -> (r: Option<&Vec<Prop>>)
    ensures
        match r {
            Some(ps) => definition_props(*e) == Some(ps@),
            None => definition_props(*e) is None,
        },
{
    proof {
        reveal_strlit("atomic");
    }
    if let Expr::Call(callee, args) = e {
        if let Expr::Ident(name) = &**callee {
            if same_text(name.as_str(), "atomic") && args.len() > 0 {
                if let Expr::Object(ps) = &args[0] {
                    return Some(ps);
                }
            }
        }
    }
    None
}

/// Appends the marker of `e` itself, if it has one.
fn own_marker_into(e: &Expr, tag: &str, out: &mut Vec<String>)
    ensures
        strs(final(out)@) == strs(old(out)@) + own_marker(*e, tag@),
{
    let ghost prev = out@;
    match definition_of(e) {
        Some(ps) => {
            let settings = Settings::read(ps);
            match settings.marker(tag) {
                Some(t) => {
                    out.push(t);
                    assert(strs(out@) =~= strs(prev) + own_marker(*e, tag@));
                },
                None => {
                    assert(strs(out@) =~= strs(prev) + own_marker(*e, tag@));
                },
            }
        },
        None => {
            assert(strs(out@) =~= strs(prev) + own_marker(*e, tag@));
        },
    }
}

/// Appends the markers of `e` and of everything it holds, in source order.
fn walk_expr(e: &Expr, tag: &str, out: &mut Vec<String>)
    ensures
        strs(final(out)@) == strs(old(out)@) + expr_markers(*e, tag@),
    decreases e,
{
    let ghost start = strs(out@);
    own_marker_into(e, tag, out);
    let ghost mid = strs(out@);
    match e {
        Expr::Object(ps) => walk_props(ps, tag, out),
        Expr::Array(es) => walk_exprs(es, tag, out),
        Expr::Call(callee, args) => {
            walk_expr(callee, tag, out);
            walk_exprs(args, tag, out);
        },
        Expr::Spread(inner) => walk_expr(inner, tag, out),
        Expr::Other(es) => walk_exprs(es, tag, out),
        _ => {},
    }
    assert(strs(out@) =~= start + expr_markers(*e, tag@));
}

/// Appends the markers of a list of expressions, in order.
pub(crate) fn walk_exprs(es: &Vec<Expr>, tag: &str, out: &mut Vec<String>)
    ensures
        strs(final(out)@) == strs(old(out)@) + exprs_markers(es@, tag@),
    decreases es,
{
    let ghost start = strs(out@);
    let mut i: usize = 0;
    while i < es.len()
        invariant
            i <= es@.len(),
            strs(out@) == start + exprs_markers(es@.subrange(0, i as int), tag@),
        decreases es@.len() - i,
    {
        let ghost before = strs(out@);
        assert(decreases_to!(es => es@[i as int]));
        walk_expr(&es[i], tag, out);
        assert(es@.subrange(0, i + 1).subrange(0, i as int) =~= es@.subrange(0, i as int));
        assert(strs(out@) =~= start + exprs_markers(es@.subrange(0, i + 1), tag@));
        i = i + 1;
    }
    assert(es@.subrange(0, es@.len() as int) =~= es@);
}

/// Appends the markers of a property: its key, then its value.
fn walk_prop(p: &Prop, tag: &str, out: &mut Vec<String>)
    ensures
        strs(final(out)@) == strs(old(out)@) + prop_markers(*p, tag@),
    decreases p,
{
    let ghost start = strs(out@);
    match p {
        Prop::KeyValue(PropKey::Ident(_), v) => walk_expr(v, tag, out),
        Prop::KeyValue(PropKey::Other(ks), v) => {
            walk_exprs(ks, tag, out);
            walk_expr(v, tag, out);
        },
        Prop::Other(es) => walk_exprs(es, tag, out),
    }
    assert(strs(out@) =~= start + prop_markers(*p, tag@));
}

/// Appends the markers of a list of properties, in order.
fn walk_props(ps: &Vec<Prop>, tag: &str, out: &mut Vec<String>)
    ensures
        strs(final(out)@) == strs(old(out)@) + props_markers(ps@, tag@),
    decreases ps,
{
    let ghost start = strs(out@);
    let mut i: usize = 0;
    while i < ps.len()
        invariant
            i <= ps@.len(),
            strs(out@) == start + props_markers(ps@.subrange(0, i as int), tag@),
        decreases ps@.len() - i,
    {
        assert(decreases_to!(ps => ps@[i as int]));
        walk_prop(&ps[i], tag, out);
        assert(ps@.subrange(0, i + 1).subrange(0, i as int) =~= ps@.subrange(0, i as int));
        assert(strs(out@) =~= start + props_markers(ps@.subrange(0, i + 1), tag@));
        i = i + 1;
    }
    assert(ps@.subrange(0, ps@.len() as int) =~= ps@);
}

} // verus!
