use brew_rm::client::HomebrewClient;
use brew_rm::events::{handle_key, Key, Signal, Step};
use brew_rm::formula::{HomebrewFormula, HomebrewFormulaInstalled};
use brew_rm::graph::HomebrewGraph;
use brew_rm::state::State;

fn formula(name: &str, deps: &[&str]) -> HomebrewFormula {
    HomebrewFormula {
        name: name.to_string(),
        desc: String::new(),
        aliases: Vec::new(),
        dependencies: deps.iter().map(|d| d.to_string()).collect(),
        installed: vec![HomebrewFormulaInstalled { version: "2.1".to_string() }],
    }
}

fn chain_state() -> State {
    let fs = vec![formula("A", &[]), formula("B", &["A"]), formula("C", &["B"])];
    let g = HomebrewGraph::build(&fs);
    State::new(fs, g)
}

fn selected(st: &State) -> Vec<String> {
    let mut v = st.remove_selected_formulae();
    v.sort();
    v
}

#[test]
fn selecting_root_cascades() {
    let mut st = chain_state();
    st.select_next_formula();
    assert_eq!(st.get_selected_formula().unwrap().name, "A");
    st.select_formulae_to_delete();
    assert_eq!(selected(&st), vec!["A", "B", "C"]);
    assert!(st.is_formula_selected("B"));
}

#[test]
fn toggle_twice_keeps_dependants() {
    let mut st = chain_state();
    st.select_next_formula();
    st.select_formulae_to_delete();
    st.select_formulae_to_delete();
    assert_eq!(selected(&st), vec!["B", "C"]);
    assert!(!st.is_formula_selected("A"));
}

#[test]
fn toggle_without_highlight_does_nothing() {
    let mut st = chain_state();
    st.select_formulae_to_delete();
    assert!(selected(&st).is_empty());
}

#[test]
fn filter_twice_restores_rows() {
    let mut st = chain_state();
    st.select_next_formula();
    st.select_next_formula();
    st.select_formulae_to_delete();
    assert_eq!(selected(&st), vec!["B", "C"]);
    let before = st.displayed_formulae().clone();
    st.filter_selected();
    assert_eq!(st.displayed_formulae(), &vec![1, 2]);
    assert_eq!(st.selected_index(), None);
    st.filter_selected();
    assert_eq!(st.displayed_formulae(), &before);
    assert_eq!(before, vec![0, 1, 2]);
}

#[test]
fn navigation_wraps() {
    let mut st = chain_state();
    st.select_prev_formula();
    assert_eq!(st.selected_index(), Some(0));
    st.select_prev_formula();
    assert_eq!(st.selected_index(), Some(2));
    st.select_next_formula();
    assert_eq!(st.selected_index(), Some(0));
    st.select_next_formula();
    assert_eq!(st.selected_index(), Some(1));
}

#[test]
fn navigation_on_empty_view_is_noop() {
    let mut st = chain_state();
    st.filter_selected();
    assert!(st.displayed_formulae().is_empty());
    st.select_next_formula();
    st.select_prev_formula();
    assert_eq!(st.selected_index(), None);
    assert!(st.get_selected_formula().is_none());
}

#[test]
fn keys_drive_the_state() {
    let mut st = chain_state();
    assert_eq!(handle_key(&mut st, Key::Char('j')), Step::Continue);
    assert_eq!(st.selected_index(), Some(0));
    assert_eq!(handle_key(&mut st, Key::Char(' ')), Step::Continue);
    assert_eq!(selected(&st), vec!["A", "B", "C"]);
    assert_eq!(handle_key(&mut st, Key::Char('F')), Step::Continue);
    assert_eq!(st.displayed_formulae(), &vec![0, 1, 2]);
    assert_eq!(handle_key(&mut st, Key::Up), Step::Continue);
    assert_eq!(st.selected_index(), Some(0));
    assert_eq!(handle_key(&mut st, Key::Other), Step::Continue);
    assert_eq!(handle_key(&mut st, Key::Char('d')), Step::Remove);
    assert_eq!(handle_key(&mut st, Key::Char('q')), Step::Exit);
    assert_eq!(handle_key(&mut st, Key::Esc), Step::Exit);
}

#[test]
fn signal_exit() {
    assert!(Signal::Exit.should_exit());
    assert!(!Signal::Tick.should_exit());
}

#[test]
fn client_arguments() {
    assert_eq!(HomebrewClient::load_info(), vec!["info", "--json=v2", "--installed"]);
    assert_eq!(HomebrewClient::ensure_exists(), vec!["--version"]);
    let names = vec!["wget".to_string(), "curl".to_string()];
    assert_eq!(HomebrewClient::remove_formulae(&names), vec!["remove", "wget", "curl"]);
}

#[test]
fn graph_accessor_answers_queries() {
    let st = chain_state();
    assert_eq!(st.graph().resolve_dependants("C"), Vec::<usize>::new());
    assert_eq!(st.all_formulae().len(), 3);
}
