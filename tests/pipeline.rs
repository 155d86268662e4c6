use type_taint::ast::{FieldDef, Item, ItemKind, Path, PathSegment, Ty, TyAliasKind, TyKind, VariantData};
use type_taint::collect::Collector;
use type_taint::graph::Graph;
use type_taint::names::NameSet;
use type_taint::reach::{reachable, redirect};
use type_taint::render::render;
use type_taint::{report, taint};

fn named(name: &str) -> Ty {
    Ty { kind: TyKind::Path(Path { segments: vec![PathSegment { ident: name.to_string(), args: None }] }) }
}

fn record(name: &str, fields: &[&str]) -> Item {
    Item {
        ident: name.to_string(),
        kind: ItemKind::Struct(VariantData::Struct(fields.iter().map(|f| FieldDef { ty: named(f) }).collect())),
        nested: vec![],
    }
}

fn set_of(v: &[&str]) -> NameSet {
    let mut s = NameSet::new();
    for n in v {
        s.insert(n.to_string());
    }
    s
}

fn sorted(s: &NameSet) -> Vec<String> {
    let mut v = s.to_vec();
    v.sort();
    v
}

fn strs(v: &[&str]) -> Vec<String> {
    let mut r: Vec<String> = v.iter().map(|s| s.to_string()).collect();
    r.sort();
    r
}

fn edge_lines(out: &str) -> Vec<String> {
    assert!(out.starts_with("digraph G {\n"));
    assert!(out.ends_with("}"));
    let body = &out["digraph G {\n".len()..out.len() - 1];
    let mut v: Vec<String> = body.lines().map(|l| l.to_string()).collect();
    v.sort();
    v
}

fn collect(items: Vec<Item>) -> Collector {
    let mut c = Collector::new();
    c.collect(&items);
    c
}

#[test]
fn duplicate_definition_last_wins() {
    let c = collect(vec![record("X", &["Foo"]), record("X", &["Bar"])]);
    let g = c.graph();
    assert_eq!(g.len(), 1);
    assert_eq!(sorted(g.get(&"X".to_string()).unwrap()), strs(&["Bar"]));
    assert_eq!(c.duplicate_count(), 1);
    let (name, displaced) = c.duplicate_at(0);
    assert_eq!(name, "X");
    assert_eq!(sorted(displaced), strs(&["Foo"]));
}

#[test]
fn nested_definitions_are_collected() {
    let inner = record("Inner", &["Leaf"]);
    let deeper = Item {
        ident: "Deep".to_string(),
        kind: ItemKind::TyAlias(TyAliasKind { ty: Some(named("Inner")) }),
        nested: vec![],
    };
    let module = Item { ident: "m".to_string(), kind: ItemKind::Other, nested: vec![inner, Item { ident: "f".to_string(), kind: ItemKind::Other, nested: vec![deeper] }] };
    let c = collect(vec![module]);
    let g = c.graph();
    assert_eq!(g.len(), 2);
    assert_eq!(sorted(g.get(&"Inner".to_string()).unwrap()), strs(&["Leaf"]));
    assert_eq!(sorted(g.get(&"Deep".to_string()).unwrap()), strs(&["Inner"]));
    assert!(g.get(&"m".to_string()).is_none());
    assert_eq!(c.duplicate_count(), 0);
}

#[test]
fn closure_end_to_end() {
    let c = collect(vec![record("A", &["Seed"]), record("B", &["A"]), record("C", &["Unrelated"])]);
    let g = c.into_graph();
    let r = reachable(&g, &set_of(&["Seed"]));
    assert_eq!(sorted(&r), strs(&["Seed", "A", "B"]));
    let out = render(&g, &r);
    assert_eq!(edge_lines(&out), strs(&["  \"A\" -> \"Seed\";", "  \"B\" -> \"A\";"]));
    assert!(!out.contains("\"C\""));
}

#[test]
fn self_reference_and_disjoint_components() {
    let c = collect(vec![record("L", &["L"]), record("M", &["Seed", "M"]), record("N", &["O"]), record("O", &["N"])]);
    let g = c.into_graph();
    let r = reachable(&g, &set_of(&["Seed"]));
    assert_eq!(sorted(&r), strs(&["Seed", "M"]));
    let out = render(&g, &r);
    assert_eq!(edge_lines(&out), strs(&["  \"M\" -> \"M\";", "  \"M\" -> \"Seed\";"]));
}

#[test]
fn redirect_makes_umbrella_reachable() {
    let c = collect(vec![record("Id", &["UnsafeCell"]), record("Cell", &["Other"]), record("Holder", &["Cell"]), record("Uses", &["Id"])]);
    let mut g = c.into_graph();
    let r = taint(&mut g);
    assert!(g.get(&"Id".to_string()).is_none());
    assert_eq!(sorted(g.get(&"Cell".to_string()).unwrap()), strs(&["UnsafeCell"]));
    assert_eq!(sorted(&r), strs(&["UnsafeCell", "Cell", "Holder"]));
}

#[test]
fn redirect_with_chosen_names() {
    let mut g = collect(vec![record("Keep", &["Wrapper"])]).into_graph();
    redirect(&mut g, &"Gone".to_string(), "Wrapper".to_string(), "Prim".to_string());
    let r = reachable(&g, &set_of(&["Prim"]));
    assert_eq!(sorted(&r), strs(&["Prim", "Wrapper", "Keep"]));
}

#[test]
fn empty_graph_renders_header_footer() {
    let g = Graph::new();
    let r = reachable(&g, &set_of(&["UnsafeCell"]));
    assert_eq!(render(&g, &r), "digraph G {\n}");
}

#[test]
fn report_of_empty_collection() {
    assert_eq!(report(Graph::new()), "digraph G {\n  \"Cell\" -> \"UnsafeCell\";\n}");
}

#[test]
fn reachability_settles_at_fixed_point() {
    let c = collect(vec![record("A", &["Seed"]), record("B", &["A"]), record("C", &["B"]), record("D", &["E"])]);
    let g = c.into_graph();
    let r = reachable(&g, &set_of(&["Seed"]));
    let again = reachable(&g, &r);
    assert_eq!(sorted(&again), sorted(&r));
    let more = reachable(&g, &set_of(&["Seed", "E"]));
    for n in r.to_vec() {
        assert!(more.contains(&n));
    }
    assert!(more.contains(&"D".to_string()));
}

#[test]
fn name_set_and_graph_basics() {
    let mut s = NameSet::new();
    assert!(s.insert("a".to_string()));
    assert!(!s.insert("a".to_string()));
    assert!(s.insert("b".to_string()));
    assert_eq!(s.len(), 2);
    assert!(s.meets(&set_of(&["b", "z"])));
    assert!(!s.meets(&set_of(&["z"])));
    let mut g = Graph::new();
    assert!(g.insert("k".to_string(), set_of(&["x"])).is_none());
    let old = g.insert("k".to_string(), set_of(&["y"])).unwrap();
    assert_eq!(sorted(&old), strs(&["x"]));
    assert_eq!(sorted(&g.remove(&"k".to_string()).unwrap()), strs(&["y"]));
    assert_eq!(g.len(), 0);
}
