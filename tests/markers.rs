use atomic_variants::ast::{Expr, Item, Program, Prop, PropKey};
use atomic_variants::config::{tag_from_config, tag_or_default};
use atomic_variants::expand::{collect_classes, marker_for, prefix_classes, selected_classes};
use atomic_variants::extract::{Selection, Settings};
use atomic_variants::pass::{collect_markers, inject, insertion_point, process, process_module};
use atomic_variants::text::same_text;
use atomic_variants::walk::definition_of;
use indexmap::IndexMap;

const SIZES: [&str; 6] = ["xs", "sm", "md", "lg", "xl", "2xl"];

fn s(x: &str) -> String {
    x.to_string()
}

fn lit(x: &str) -> Expr {
    Expr::Str(s(x))
}

fn ident(x: &str) -> Expr {
    Expr::Ident(s(x))
}

fn kv(k: &str, v: Expr) -> Prop {
    Prop::KeyValue(PropKey::Ident(s(k)), v)
}

fn obj(props: Vec<Prop>) -> Expr {
    Expr::Object(props)
}

fn arr(items: &[&str]) -> Expr {
    Expr::Array(items.iter().map(|x| lit(x)).collect())
}

fn group(name: &str, pairs: &[(&str, &str)]) -> Prop {
    kv(name, obj(pairs.iter().map(|(k, v)| kv(k, lit(v))).collect()))
}

fn atomic(props: Vec<Prop>) -> Expr {
    Expr::Call(Box::new(ident("atomic")), vec![obj(props)])
}

/// `const <name> = <init>;`
fn decl(name: &str, init: Expr) -> Item {
    Item::Stmt(vec![ident(name), init])
}

fn marker_item(text: &str) -> Item {
    Item::Stmt(vec![lit(text)])
}

fn expected(tag: &str, prefixes: &[&str], classes: &[&str]) -> String {
    let mut es = vec![];
    for p in prefixes {
        for c in classes {
            es.push(format!("{}:{}", p, c));
        }
    }
    format!("/* {}:{} */", tag, es.join(" "))
}

fn run(items: Vec<Item>) -> Vec<Item> {
    match process(Program::Module(items), None) {
        Program::Module(out) => out,
        Program::Script(_) => panic!("a module stays a module"),
    }
}

fn markers_of(items: &Vec<Item>) -> Vec<String> {
    collect_markers(items, "__atomic_generated")
}

#[test]
fn default() {
    let call = || atomic(vec![
        kv("base", lit("font-semibold")),
        kv(
            "variants",
            obj(vec![
                group("color", &[("primary", "bg-blue-500")]),
                group("padding", &[("primary", "p-1")]),
            ]),
        ),
        kv("responsiveVariants", arr(&["color"])),
    ]);
    let out = run(vec![Item::Import, decl("button", call())]);
    assert_eq!(out.len(), 3);
    assert_eq!(out[0], Item::Import);
    assert_eq!(
        out[1],
        marker_item(
            "/* __atomic_generated:xs:bg-blue-500 sm:bg-blue-500 md:bg-blue-500 lg:bg-blue-500 xl:bg-blue-500 2xl:bg-blue-500 */"
        )
    );
    assert_eq!(out[2], decl("button", call()));
}

#[test]
fn all_variants_true() {
    let call = || atomic(vec![
        kv(
            "variants",
            obj(vec![
                group("color", &[("primary", "bg-green-500"), ("secondary", "bg-red-500")]),
                group("size", &[("sm", "p-2"), ("lg", "p-8")]),
            ]),
        ),
        kv("responsiveVariants", Expr::Bool(true)),
    ]);
    let out = run(vec![Item::Import, decl("box", call())]);
    assert_eq!(out.len(), 3);
    assert_eq!(out[0], Item::Import);
    assert_eq!(out[2], decl("box", call()));
    assert_eq!(
        out[1],
        marker_item(
            "/* __atomic_generated:xs:bg-green-500 xs:bg-red-500 xs:p-2 xs:p-8 sm:bg-green-500 sm:bg-red-500 sm:p-2 sm:p-8 md:bg-green-500 md:bg-red-500 md:p-2 md:p-8 lg:bg-green-500 lg:bg-red-500 lg:p-2 lg:p-8 xl:bg-green-500 xl:bg-red-500 xl:p-2 xl:p-8 2xl:bg-green-500 2xl:bg-red-500 2xl:p-2 2xl:p-8 */"
        )
    );
}

#[test]
fn custom_responsive_sizes() {
    let call = atomic(vec![
        kv("variants", obj(vec![group("color", &[("blue", "bg-blue-600")])])),
        kv("responsiveVariants", arr(&["color"])),
        kv("responsiveSizes", arr(&["sm", "md"])),
    ]);
    let out = run(vec![Item::Import, decl("btn", call)]);
    assert_eq!(out.len(), 3);
    assert_eq!(out[1], marker_item("/* __atomic_generated:sm:bg-blue-600 md:bg-blue-600 */"));
}

#[test]
fn multiple_variants() {
    let call = atomic(vec![
        kv(
            "variants",
            obj(vec![
                group("color", &[("red", "bg-red-600"), ("green", "bg-green-600")]),
                group("border", &[("thin", "border"), ("thick", "border-4")]),
            ]),
        ),
        kv("responsiveVariants", arr(&["color", "border"])),
    ]);
    let out = run(vec![Item::Import, decl("input", call)]);
    assert_eq!(
        out[1],
        marker_item(
            "/* __atomic_generated:xs:bg-red-600 xs:bg-green-600 xs:border xs:border-4 sm:bg-red-600 sm:bg-green-600 sm:border sm:border-4 md:bg-red-600 md:bg-green-600 md:border md:border-4 lg:bg-red-600 lg:bg-green-600 lg:border lg:border-4 xl:bg-red-600 xl:bg-green-600 xl:border xl:border-4 2xl:bg-red-600 2xl:bg-green-600 2xl:border 2xl:border-4 */"
        )
    );
}

#[test]
fn no_responsive_variants() {
    let make = || {
        atomic(vec![
            kv("base", lit("shadow")),
            kv(
                "variants",
                obj(vec![group("color", &[("dark", "bg-gray-900"), ("light", "bg-gray-100")])]),
            ),
        ])
    };
    let out = run(vec![Item::Import, decl("card", make())]);
    assert_eq!(out, vec![Item::Import, decl("card", make())]);
}

#[test]
fn nested_calls() {
    let one = atomic(vec![
        kv("variants", obj(vec![group("tone", &[("warm", "bg-orange-300")])])),
        kv("responsiveVariants", arr(&["tone"])),
    ]);
    let two = atomic(vec![
        kv("variants", obj(vec![group("tone", &[("cool", "bg-blue-300")])])),
        kv("responsiveVariants", arr(&["tone"])),
    ]);
    let out = run(vec![Item::Import, decl("one", one), decl("two", two)]);
    assert_eq!(out.len(), 5);
    assert_eq!(out[0], Item::Import);
    assert_eq!(out[1], marker_item(&expected("__atomic_generated", &SIZES, &["bg-orange-300"])));
    assert_eq!(out[2], marker_item(&expected("__atomic_generated", &SIZES, &["bg-blue-300"])));
    assert!(matches!(&out[3], Item::Stmt(es) if es[0] == ident("one")));
    assert!(matches!(&out[4], Item::Stmt(es) if es[0] == ident("two")));
}

#[test]
fn true_equals_explicit_declared_order() {
    let groups = || {
        kv(
            "variants",
            obj(vec![group("a", &[("x", "c1"), ("y", "c2")]), group("b", &[("z", "c3")])]),
        )
    };
    let all = vec![Item::Stmt(vec![atomic(vec![groups(), kv("responsiveVariants", Expr::Bool(true))])])];
    let named = vec![Item::Stmt(vec![atomic(vec![groups(), kv("responsiveVariants", arr(&["a", "b"]))])])];
    assert_eq!(markers_of(&all), markers_of(&named));
    assert_eq!(markers_of(&all), vec![expected("__atomic_generated", &SIZES, &["c1", "c2", "c3"])]);
}

#[test]
fn true_before_variants_still_selects_all() {
    let items = vec![Item::Stmt(vec![atomic(vec![
        kv("responsiveVariants", Expr::Bool(true)),
        kv("variants", obj(vec![group("a", &[("x", "c1")])])),
    ])])];
    assert_eq!(markers_of(&items), vec![expected("__atomic_generated", &SIZES, &["c1"])]);
}

#[test]
fn false_or_empty_selection_yields_no_marker() {
    let variants = || kv("variants", obj(vec![group("a", &[("x", "c1")])]));
    let with_false = vec![Item::Stmt(vec![atomic(vec![variants(), kv("responsiveVariants", Expr::Bool(false))])])];
    let with_empty = vec![Item::Stmt(vec![atomic(vec![variants(), kv("responsiveVariants", arr(&[]))])])];
    let absent = vec![Item::Stmt(vec![atomic(vec![variants()])])];
    assert!(markers_of(&with_false).is_empty());
    assert!(markers_of(&with_empty).is_empty());
    assert!(markers_of(&absent).is_empty());
}

#[test]
fn unknown_group_adds_nothing() {
    let items = vec![Item::Stmt(vec![atomic(vec![
        kv("variants", obj(vec![group("a", &[("x", "c1")])])),
        kv("responsiveVariants", arr(&["missing", "a", "other"])),
    ])])];
    assert_eq!(markers_of(&items), vec![expected("__atomic_generated", &SIZES, &["c1"])]);
    let none = vec![Item::Stmt(vec![atomic(vec![
        kv("variants", obj(vec![group("a", &[("x", "c1")])])),
        kv("responsiveVariants", arr(&["missing"])),
    ])])];
    assert!(markers_of(&none).is_empty());
}

#[test]
fn sizes_replace_default() {
    let items = vec![Item::Stmt(vec![atomic(vec![
        kv("variants", obj(vec![group("a", &[("x", "c1")])])),
        kv("responsiveVariants", arr(&["a"])),
        kv("responsiveSizes", arr(&["lg"])),
    ])])];
    assert_eq!(markers_of(&items), vec![s("/* __atomic_generated:lg:c1 */")]);
}

#[test]
fn empty_sizes_suppress_marker() {
    let items = vec![Item::Stmt(vec![atomic(vec![
        kv("variants", obj(vec![group("a", &[("x", "c1")])])),
        kv("responsiveVariants", arr(&["a"])),
        kv("responsiveSizes", arr(&[])),
    ])])];
    assert!(markers_of(&items).is_empty());
}

#[test]
fn one_group_two_sizes_two_entries() {
    let props = vec![
        kv("variants", obj(vec![group("a", &[("x", "c1")])])),
        kv("responsiveVariants", arr(&["a"])),
        kv("responsiveSizes", arr(&["sm", "md"])),
    ];
    let settings = Settings::read(&props);
    let classes = selected_classes(&settings.groups, &settings.selection);
    let es = prefix_classes(&settings.sizes, &classes);
    assert_eq!(es, vec![s("sm:c1"), s("md:c1")]);
}

#[test]
fn two_groups_explicit_twenty_four_entries() {
    let props = vec![
        kv("variants", obj(vec![group("a", &[("p", "a1"), ("q", "a2")]), group("b", &[("r", "b1"), ("t", "b2")])])),
        kv("responsiveVariants", arr(&["a", "b"])),
    ];
    let settings = Settings::read(&props);
    let classes = selected_classes(&settings.groups, &settings.selection);
    assert_eq!(classes, vec![s("a1"), s("a2"), s("b1"), s("b2")]);
    let es = prefix_classes(&settings.sizes, &classes);
    assert_eq!(es.len(), 24);
    assert_eq!(es[0], "xs:a1");
    assert_eq!(es[3], "xs:b2");
    assert_eq!(es[23], "2xl:b2");
}

#[test]
fn markers_go_after_leading_imports_in_call_order() {
    let def = |c: &str| {
        atomic(vec![
            kv("variants", obj(vec![group("g", &[("k", c)])])),
            kv("responsiveVariants", arr(&["g"])),
        ])
    };
    let items = vec![
        Item::Import,
        Item::Import,
        decl("first", def("c1")),
        Item::Import,
        decl("second", Expr::Other(vec![Expr::Call(Box::new(ident("wrap")), vec![def("c2")])])),
    ];
    assert_eq!(insertion_point(&items), 2);
    let out = run(items);
    assert_eq!(out.len(), 7);
    assert_eq!(out[0], Item::Import);
    assert_eq!(out[1], Item::Import);
    assert_eq!(out[2], marker_item(&expected("__atomic_generated", &SIZES, &["c1"])));
    assert_eq!(out[3], marker_item(&expected("__atomic_generated", &SIZES, &["c2"])));
    assert!(matches!(&out[4], Item::Stmt(es) if es[0] == ident("first")));
    assert_eq!(out[5], Item::Import);
}

#[test]
fn no_imports_inserts_at_start() {
    let items = vec![decl("x", atomic(vec![
        kv("variants", obj(vec![group("g", &[("k", "c")])])),
        kv("responsiveVariants", arr(&["g"])),
    ]))];
    assert_eq!(insertion_point(&items), 0);
    let out = run(items);
    assert_eq!(out[0], marker_item(&expected("__atomic_generated", &SIZES, &["c"])));
    assert_eq!(insertion_point(&vec![Item::Import]), 1);
    assert_eq!(insertion_point(&vec![]), 0);
}

#[test]
fn non_matching_calls_are_ignored() {
    let props = || {
        vec![
            kv("variants", obj(vec![group("g", &[("k", "c")])])),
            kv("responsiveVariants", arr(&["g"])),
        ]
    };
    let other_name = Expr::Call(Box::new(ident("styled")), vec![obj(props())]);
    let member = Expr::Call(Box::new(Expr::Other(vec![ident("lib"), ident("atomic")])), vec![obj(props())]);
    let not_literal = Expr::Call(Box::new(ident("atomic")), vec![ident("config")]);
    let spread = Expr::Call(Box::new(ident("atomic")), vec![Expr::Spread(Box::new(obj(props())))]);
    let no_args = Expr::Call(Box::new(ident("atomic")), vec![]);
    for e in [&other_name, &member, &not_literal, &spread, &no_args] {
        assert!(definition_of(e).is_none());
    }
    let items = vec![Item::Import, Item::Stmt(vec![other_name, member, not_literal, spread, no_args])];
    assert!(markers_of(&items).is_empty());
    let out = run(vec![Item::Import, Item::Stmt(vec![Expr::Call(Box::new(ident("styled")), vec![obj(props())])])]);
    assert_eq!(out, vec![Item::Import, Item::Stmt(vec![Expr::Call(Box::new(ident("styled")), vec![obj(props())])])]);
}

#[test]
fn nested_definitions_in_source_order() {
    let def = |c: &str, inner: Vec<Prop>| {
        let mut props = vec![
            kv("variants", obj(vec![group("g", &[("k", c)])])),
            kv("responsiveVariants", arr(&["g"])),
            kv("responsiveSizes", arr(&["md"])),
        ];
        props.extend(inner);
        atomic(props)
    };
    let inner = def("inner", vec![]);
    let outer = def("outer", vec![kv("extra", inner)]);
    let items = vec![Item::Stmt(vec![outer])];
    assert_eq!(
        markers_of(&items),
        vec![s("/* __atomic_generated:md:outer */"), s("/* __atomic_generated:md:inner */")]
    );
}

#[test]
fn odd_shapes_are_skipped() {
    let items = vec![Item::Stmt(vec![atomic(vec![
        kv("variants", obj(vec![
            kv("notAGroup", lit("x")),
            group("g", &[("k", "c1")]),
            kv("g2", obj(vec![kv("k", ident("v")), kv("k2", lit("c2")), Prop::Other(vec![])])),
        ])),
        Prop::KeyValue(PropKey::Other(vec![]), lit("ignored")),
        kv("responsiveVariants", Expr::Array(vec![lit("g"), Expr::Other(vec![]), ident("x"), lit("g2")])),
    ])])];
    assert_eq!(markers_of(&items), vec![expected("__atomic_generated", &SIZES, &["c1", "c2"])]);
}

#[test]
fn repeated_group_keeps_place_and_takes_new_values() {
    let items = vec![Item::Stmt(vec![atomic(vec![
        kv("variants", obj(vec![group("a", &[("x", "old")]), group("b", &[("y", "b1")]), group("a", &[("x", "new")])])),
        kv("responsiveVariants", Expr::Bool(true)),
        kv("responsiveSizes", arr(&["sm"])),
    ])])];
    assert_eq!(markers_of(&items), vec![s("/* __atomic_generated:sm:new sm:b1 */")]);
}

#[test]
fn collect_classes_reads_the_map() {
    let mut m: IndexMap<String, Vec<String>> = IndexMap::new();
    m.insert(s("a"), vec![s("a1"), s("a2")]);
    m.insert(s("b"), vec![s("b1")]);
    assert_eq!(collect_classes(&m, &vec![s("b"), s("a"), s("zz")]), vec![s("b1"), s("a1"), s("a2")]);
    assert_eq!(selected_classes(&m, &Selection::All), vec![s("a1"), s("a2"), s("b1")]);
    assert!(selected_classes(&m, &Selection::Nothing).is_empty());
}

#[test]
fn marker_text_format() {
    assert_eq!(marker_for("t", &vec![]), None);
    assert_eq!(marker_for("t", &vec![s("a:b")]), Some(s("/* t:a:b */")));
    assert_eq!(marker_for("t", &vec![s("a:b"), s("c:d")]), Some(s("/* t:a:b c:d */")));
    assert!(prefix_classes(&vec![], &vec![s("x")]).is_empty());
    assert!(prefix_classes(&vec![s("x")], &vec![]).is_empty());
}

#[test]
fn tag_from_configuration() {
    assert_eq!(tag_from_config(None), "__atomic_generated");
    assert_eq!(tag_from_config(Some("{\"tag\":\"custom\"}")), "custom");
    assert_eq!(tag_from_config(Some("not json")), "__atomic_generated");
    assert_eq!(tag_from_config(Some("{\"tag\":3}")), "__atomic_generated");
    assert_eq!(tag_from_config(Some("{}")), "__atomic_generated");
    assert_eq!(tag_or_default(Some("x")), "x");
    assert_eq!(tag_or_default(None), "__atomic_generated");
}

#[test]
fn custom_tag_in_marker() {
    let items = || vec![Item::Stmt(vec![atomic(vec![
        kv("variants", obj(vec![group("g", &[("k", "c")])])),
        kv("responsiveVariants", arr(&["g"])),
        kv("responsiveSizes", arr(&["sm"])),
    ])])];
    let tagged = |config: Option<&str>| match process(Program::Module(items()), config) {
        Program::Module(out) => out,
        Program::Script(_) => panic!("a module stays a module"),
    };
    assert_eq!(tagged(Some("{\"tag\":\"mine\"}"))[0], marker_item("/* mine:sm:c */"));
    assert_eq!(tagged(Some("{\"tag\": \"my_tag\"}")), vec![marker_item("/* my_tag:sm:c */"), items().remove(0)]);
    for config in [None, Some("{}"), Some("{\"tag\": 5}"), Some("not json")] {
        assert_eq!(tagged(config), vec![marker_item("/* __atomic_generated:sm:c */"), items().remove(0)]);
    }
}

#[test]
fn scripts_are_left_alone() {
    let items = || vec![Item::Stmt(vec![atomic(vec![
        kv("variants", obj(vec![group("g", &[("k", "c")])])),
        kv("responsiveVariants", arr(&["g"])),
    ])])];
    assert_eq!(process(Program::Script(items()), None), Program::Script(items()));
}

#[test]
fn running_twice_adds_a_second_block() {
    let mut items = vec![Item::Import, decl("x", atomic(vec![
        kv("variants", obj(vec![group("g", &[("k", "c")])])),
        kv("responsiveVariants", arr(&["g"])),
        kv("responsiveSizes", arr(&["sm"])),
    ]))];
    process_module(&mut items, "t");
    process_module(&mut items, "t");
    assert_eq!(items.len(), 4);
    assert_eq!(items[1], marker_item("/* t:sm:c */"));
    assert_eq!(items[2], marker_item("/* t:sm:c */"));
}

#[test]
fn inject_places_block() {
    let mut items = vec![Item::Import, Item::Stmt(vec![])];
    inject(&mut items, 1, vec![s("a"), s("b")]);
    assert_eq!(items, vec![Item::Import, marker_item("a"), marker_item("b"), Item::Stmt(vec![])]);
}

#[test]
fn text_comparison() {
    assert!(same_text("atomic", "atomic"));
    assert!(!same_text("atomic", "atomics"));
    assert!(!same_text("atomic", "atomiC"));
    assert!(same_text("", ""));
}
