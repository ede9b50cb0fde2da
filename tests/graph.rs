use brew_rm::formula::{HomebrewFormula, HomebrewFormulaInstalled};
use brew_rm::graph::HomebrewGraph;
use brew_rm::registry::FormulaeMap;

fn formula(name: &str, aliases: &[&str], deps: &[&str]) -> HomebrewFormula {
    HomebrewFormula {
        name: name.to_string(),
        desc: format!("{} formula", name),
        aliases: aliases.iter().map(|a| a.to_string()).collect(),
        dependencies: deps.iter().map(|d| d.to_string()).collect(),
        installed: vec![HomebrewFormulaInstalled { version: "1.0".to_string() }],
    }
}

fn sorted(mut v: Vec<usize>) -> Vec<usize> {
    v.sort();
    v
}

#[test]
fn chain_dependants_of_root() {
    let fs = vec![formula("A", &[], &[]), formula("B", &[], &["A"]), formula("C", &[], &["B"])];
    let g = HomebrewGraph::build(&fs);
    assert_eq!(sorted(g.resolve_dependants("A")), vec![1, 2]);
    assert_eq!(sorted(g.resolve_dependants("B")), vec![2]);
    assert!(g.resolve_dependants("C").is_empty());
}

#[test]
fn missing_dependency_is_skipped() {
    let fs = vec![formula("D", &[], &["Z"])];
    let g = HomebrewGraph::build(&fs);
    assert!(g.resolve_dependants("D").is_empty());
    assert!(g.resolve_dependants("Z").is_empty());
}

#[test]
fn unknown_name_has_no_dependants() {
    let fs = vec![formula("A", &[], &[]), formula("B", &[], &["A"])];
    let g = HomebrewGraph::build(&fs);
    assert!(g.resolve_dependants("nope").is_empty());
}

#[test]
fn alias_resolves_in_lookup_and_query() {
    let fs = vec![formula("E", &["e2"], &[]), formula("F", &[], &["e2"])];
    let map = FormulaeMap::build(&fs);
    assert_eq!(map.get("e2"), Some(0));
    assert_eq!(map.get("E"), Some(0));
    let g = HomebrewGraph::build(&fs);
    // Aliases resolve everywhere here, so both queries agree.
    assert_eq!(g.resolve_dependants("E"), vec![1]);
    assert_eq!(g.resolve_dependants("e2"), vec![1]);
}

#[test]
fn own_name_lookup_any_order() {
    let a = || formula("a", &[], &[]);
    let b = || formula("b", &["bee"], &["a"]);
    let c = || formula("c", &[], &["b"]);
    let orders = vec![vec![a(), b(), c()], vec![c(), a(), b()], vec![b(), c(), a()]];
    for fs in orders {
        let map = FormulaeMap::build(&fs);
        for (i, f) in fs.iter().enumerate() {
            assert_eq!(map.get(&f.name), Some(i));
        }
        assert_eq!(map.len(), 3);
    }
}

#[test]
fn later_alias_wins() {
    let fs = vec![formula("x", &["shared"], &[]), formula("y", &["shared"], &[])];
    let map = FormulaeMap::build(&fs);
    assert_eq!(map.get("shared"), Some(1));
    assert_eq!(map.get("missing"), None);
}

#[test]
fn cycle_excludes_start() {
    let fs = vec![formula("X", &[], &["Y"]), formula("Y", &[], &["X"]), formula("W", &[], &["X"])];
    let g = HomebrewGraph::build(&fs);
    assert_eq!(sorted(g.resolve_dependants("X")), vec![1, 2]);
    assert_eq!(sorted(g.resolve_dependants("Y")), vec![0, 2]);
}

#[test]
fn self_dependency_excludes_start() {
    let fs = vec![formula("S", &[], &["S"])];
    let g = HomebrewGraph::build(&fs);
    assert!(g.resolve_dependants("S").is_empty());
}

#[test]
fn diamond_dependants_once_each() {
    let fs = vec![
        formula("base", &[], &[]),
        formula("left", &[], &["base"]),
        formula("right", &[], &["base"]),
        formula("top", &[], &["left", "right"]),
    ];
    let g = HomebrewGraph::build(&fs);
    assert_eq!(sorted(g.resolve_dependants("base")), vec![1, 2, 3]);
}

#[test]
fn fits_counts_dependencies() {
    let fs = vec![formula("A", &[], &[]), formula("B", &[], &["A", "C"])];
    assert!(HomebrewGraph::fits(&fs));
    assert!(HomebrewGraph::fits(&[]));
}

#[test]
fn repeated_dependency_gives_one_dependant() {
    let fs = vec![formula("A", &[], &[]), formula("B", &[], &["A", "A"])];
    let g = HomebrewGraph::build(&fs);
    assert_eq!(g.resolve_dependants("A"), vec![1]);
}

#[test]
fn two_cycle_gives_the_other_once() {
    let fs = vec![formula("A", &[], &["B"]), formula("B", &[], &["A"])];
    let g = HomebrewGraph::build(&fs);
    assert_eq!(g.resolve_dependants("A"), vec![1]);
    assert_eq!(g.resolve_dependants("B"), vec![0]);
}

#[test]
fn alias_shadowing_a_name_keeps_dependants_apart() {
    let fs = vec![formula("A", &[], &["B"]), formula("B", &["A"], &[])];
    let g = HomebrewGraph::build(&fs);
    assert_eq!(g.resolve_dependants("B"), vec![0]);
}

#[test]
fn alias_shadowing_gives_each_dependant_once() {
    let fs = vec![
        formula("A", &[], &["Z"]),
        formula("B", &["A"], &["Z"]),
        formula("Z", &[], &[]),
    ];
    let g = HomebrewGraph::build(&fs);
    assert_eq!(sorted(g.resolve_dependants("Z")), vec![0, 1]);
}
