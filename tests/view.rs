use brew_rm::formula::{HomebrewFormula, HomebrewFormulaInstalled};
use brew_rm::graph::HomebrewGraph;
use brew_rm::state::State;
use brew_rm::view::{join, FormulaInfo, FormulaeList, HelpBar};

fn formula(name: &str, deps: &[&str], versions: &[&str]) -> HomebrewFormula {
    HomebrewFormula {
        name: name.to_string(),
        desc: format!("about {}", name),
        aliases: Vec::new(),
        dependencies: deps.iter().map(|d| d.to_string()).collect(),
        installed: versions
            .iter()
            .map(|v| HomebrewFormulaInstalled { version: v.to_string() })
            .collect(),
    }
}

fn sample() -> State {
    let fs = vec![
        formula("A", &[], &["1.0"]),
        formula("B", &["A", "gone"], &["2.0", "1.9"]),
        formula("C", &["B"], &["3.1"]),
    ];
    let g = HomebrewGraph::build(&fs);
    State::new(fs, g)
}

#[test]
fn join_separates_items() {
    let items = vec!["a".to_string(), "b".to_string(), "c".to_string()];
    assert_eq!(join(&items, ", "), "a, b, c");
    assert_eq!(join(&vec!["x".to_string()], ", "), "x");
    assert_eq!(join(&Vec::new(), ", "), "");
}

#[test]
fn list_labels_mark_selection() {
    let mut st = sample();
    assert_eq!(FormulaeList::item_label(&st, 1), "- B");
    st.select_next_formula();
    st.select_next_formula();
    st.select_formulae_to_delete();
    assert_eq!(FormulaeList::item_label(&st, 1), "✓ B");
    assert_eq!(FormulaeList::item_label(&st, 2), "✓ C");
    assert_eq!(FormulaeList::item_label(&st, 0), "- A");
}

#[test]
fn help_entries_split_first_letter() {
    let e = HelpBar::entries();
    let flat: Vec<(&str, &str)> = e.iter().map(|(a, b)| (a.as_str(), b.as_str())).collect();
    assert_eq!(flat, vec![("S", "elect"), ("F", "ilter"), ("D", "elete"), ("Q", "uit")]);
}

#[test]
fn info_lines_for_highlighted_formula() {
    let mut st = sample();
    st.select_next_formula();
    st.select_next_formula();
    let f = st.get_selected_formula().unwrap();
    let deps = FormulaInfo::dependant_names(&st, &f.name);
    assert_eq!(deps, vec!["C".to_string()]);
    let lines = FormulaInfo::lines(Some(f), &deps);
    assert_eq!(
        lines,
        vec!["B v2.0", "about B", "", "Dependants", "C", "", "Dependencies", "A, gone"]
    );
}

#[test]
fn info_lines_without_dependants_or_dependencies() {
    let st = sample();
    let f = &st.all_formulae()[2];
    let deps = FormulaInfo::dependant_names(&st, &f.name);
    assert!(deps.is_empty());
    let lines = FormulaInfo::lines(Some(f), &deps);
    assert_eq!(lines[4], "No");
    assert_eq!(lines[7], "B");
    let a = &st.all_formulae()[0];
    let lines = FormulaInfo::lines(Some(a), &Vec::new());
    assert_eq!(lines[7], "No");
}

#[test]
fn info_prompt_without_highlight() {
    let lines = FormulaInfo::lines(None, &Vec::new());
    assert_eq!(lines, vec!["Select a formula..."]);
}

#[test]
fn info_title_without_installed_build() {
    let f = formula("bare", &[], &[]);
    let lines = FormulaInfo::lines(Some(&f), &Vec::new());
    assert_eq!(lines[0], "bare v");
}
