//! The whole pass over a module: collect the markers of its style
//! definitions, then insert them as one block after the leading imports.

use crate::ast::{Expr, Item, Program};
use crate::config::{tag_from_config, tag_of};
use crate::variant_map::strs;
use crate::walk::{items_markers, walk_exprs};
use vstd::prelude::*;

verus! {

/// Whether an item is a marker statement holding the text `t`.
pub open spec fn is_marker_item(it: Item, t: Seq<char>) -> bool {
    match it {
        Item::Stmt(es) => es@.len() == 1 && (es@[0] matches Expr::Str(s) && s@ == t),
        Item::Import => false,
    }
}

/// `at` is the number of leading imports of `items`.
pub open spec fn after_leading_imports(items: Seq<Item>, at: int) -> bool {
    &&& 0 <= at <= items.len()
    &&& forall|k: int| 0 <= k < at ==> (#[trigger] items[k]) is Import
    &&& at < items.len() ==> !(items[at] is Import)
}

/// `after` is `before` with one marker statement per text of `ms` inserted
/// at `at`, in order; the other items keep their order.
pub open spec fn inserted_at(before: Seq<Item>, at: int, ms: Seq<Seq<char>>, after: Seq<Item>) -> bool {
    &&& 0 <= at <= before.len()
    &&& after.len() == before.len() + ms.len()
    &&& forall|k: int| 0 <= k < at ==> #[trigger] after[k] == before[k]
    &&& forall|k: int| 0 <= k < ms.len() ==> is_marker_item(#[trigger] after[at + k], ms[k])
    &&& forall|k: int| at <= k < before.len() ==> #[trigger] after[k + ms.len()] == before[k]
}

/// `after` is the module `before` once the markers tagged `tag` are in: the
/// markers of its definitions, in source order, as one block after the
/// leading imports.
pub open spec fn module_done(before: Seq<Item>, tag: Seq<char>, after: Seq<Item>) -> bool {
    exists|at: int|
        after_leading_imports(before, at) && inserted_at(
            before,
            at,
            items_markers(before, tag),
            after,
        )
}

/// The markers of every style definition in the items, in source order.
pub fn collect_markers(items: &Vec<Item>, tag: &str) -> (r: Vec<String>)
    ensures
        strs(r@) == items_markers(items@, tag@),
{
    let mut r: Vec<String> = Vec::new();
    let mut i: usize = 0;
    while i < items.len()
        invariant
            i <= items@.len(),
            strs(r@) == items_markers(items@.subrange(0, i as int), tag@),
        decreases items@.len() - i,
    {
        assert(items@.subrange(0, i + 1).drop_last() =~= items@.subrange(0, i as int));
        let ghost before = strs(r@);
        match &items[i] {
            Item::Stmt(es) => walk_exprs(es, tag, &mut r),
            Item::Import => {
                assert(before + Seq::<Seq<char>>::empty() =~= before);
            },
        }
        i = i + 1;
    }
    assert(items@.subrange(0, items@.len() as int) =~= items@);
    r
}

/// The place for the markers: right after the leading imports.
pub fn insertion_point(items: &Vec<Item>) -> (r: usize)
    ensures
        after_leading_imports(items@, r as int),
{
    let mut i: usize = 0;
    while i < items.len()
        invariant
            i <= items@.len(),
            forall|k: int| 0 <= k < i ==> (#[trigger] items@[k]) is Import,
        decreases items@.len() - i,
    {
        if let Item::Stmt(_) = &items[i] {
            return i;
        }
        i = i + 1;
    }
    i
}

/// Inserts one marker statement per text at `at`, in order. The items that
/// were there keep their order: those before `at` stay, the rest follow the
/// markers.
pub fn inject(items: &mut Vec<Item>, at: usize, markers: Vec<String>)
    requires
        at <= old(items)@.len(),
    ensures
        inserted_at(old(items)@, at as int, strs(markers@), final(items)@),
{
    let ghost start = items@;
    let mut j: usize = 0;
    while j < markers.len()
        invariant
            at <= start.len(),
            j <= markers@.len(),
            items@.len() == start.len() + j,
            forall|k: int| 0 <= k < at ==> #[trigger] items@[k] == start[k],
            forall|k: int| 0 <= k < j ==> is_marker_item(#[trigger] items@[at + k], markers@[k]@),
            forall|k: int| at <= k < start.len() ==> #[trigger] items@[k + j] == start[k],
        decreases markers@.len() - j,
    {
        let ghost prev = items@;
        let n = items.len();
        assert(at + j <= n);
        let t = markers[j].clone();
        items.insert(at + j, Item::Stmt(vec![Expr::Str(t)]));
        assert forall|k: int| 0 <= k < j + 1 implies is_marker_item(
            #[trigger] items@[at + k],
            markers@[k]@,
        ) by {
            if k < j {
                assert(items@[at + k] == prev[at + k]);
            }
        }
        assert forall|k: int| at <= k < start.len() implies #[trigger] items@[k + (j + 1)] == start[k] by {
            assert(items@[k + (j + 1)] == prev[k + j]);
        }
        j = j + 1;
    }
    assert forall|k: int| 0 <= k < markers@.len() implies is_marker_item(
        #[trigger] items@[at + k],
        strs(markers@)[k],
    ) by {
        assert(is_marker_item(items@[at + k], markers@[k]@));
    }
}

/// Runs the pass on a module with the given tag.
pub fn process_module(items: &mut Vec<Item>, tag: &str)
    ensures
        module_done(old(items)@, tag@, final(items)@),
{
    let markers = collect_markers(items, tag);
    let at = insertion_point(items);
    inject(items, at, markers);
}

/// `after` is the program `before` once the pass has run with `tag`: a
/// module gets its markers (see `module_done`), a script stays as it is.
pub open spec fn program_done(before: Program, tag: Seq<char>, after: Program) -> bool {
    match before {
        Program::Module(b) => match after {
            Program::Module(a) => module_done(b@, tag, a@),
            Program::Script(_) => false,
        },
        Program::Script(_) => after == before,
    }
}

/// Runs the pass on a program: a module gets the markers of its style
/// definitions, tagged with the tag that the configuration names (the
/// default where it names none); a script is returned as it is.
pub fn process(program: Program, config: Option<&str>) -> (r: Program)
    ensures
        program_done(program, tag_of(config), r),
{
    let tag = tag_from_config(config);
    let ghost before = program;
    let r = match program {
        Program::Module(items) => {
            let mut items = items;
            process_module(&mut items, tag.as_str());
            Program::Module(items)
        },
        Program::Script(items) => Program::Script(items),
    };
    assert(program_done(before, tag@, r));
    r
}

} // verus!
