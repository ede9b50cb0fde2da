use vstd::prelude::*;
use crate::formula::{FormulaModel, HomebrewFormula, models};
use crate::graph::{HomebrewGraph, dependant_set};

verus! {

/// The names that a list of strings holds.
pub open spec fn name_set(v: Seq<String>) -> Set<Seq<char>> {
    Set::new(|x: Seq<char>| exists|i: int| 0 <= i < v.len() && v[i]@ == x)
}

/// No name occurs twice.
pub open spec fn distinct_names(v: Seq<String>) -> bool {
    forall|i: int, j: int| 0 <= i < v.len() && 0 <= j < v.len() && i != j ==> v[i]@ != v[j]@
}

/// The names of the formulae that depend on the one `name` resolves to.
pub open spec fn dependant_names(fs: Seq<FormulaModel>, name: Seq<char>) -> Set<Seq<char>> {
    Set::new(
        |x: Seq<char>|
            exists|w: usize| #[trigger] dependant_set(fs, name).contains(w) && fs[w as int].name == x,
    )
}

/// The positions, in order, among the first `i` formulae, of those that are
/// displayed: all of them, or with `only_selected` those whose name is selected.
pub open spec fn shown(names: Seq<Seq<char>>, selected: Set<Seq<char>>, only_selected: bool, i: int) -> Seq<usize>
    decreases i,
{
    if i <= 0 || i > names.len() {
        Seq::empty()
    } else if !only_selected || selected.contains(names[i - 1]) {
        shown(names, selected, only_selected, i - 1).push((i - 1) as usize)
    } else {
        shown(names, selected, only_selected, i - 1)
    }
}

/// Every position below `n`, in order.
pub open spec fn all_rows(n: int) -> Seq<usize> {
    Seq::new(n as nat, |j: int| j as usize)
}

/// Without the filter every row is shown, whatever is selected.
pub proof fn lemma_unfiltered_shows_all(names: Seq<Seq<char>>, selected: Set<Seq<char>>, i: int)
    requires
        0 <= i <= names.len(),
    ensures
        shown(names, selected, false, i) == all_rows(i),
    decreases i,
{
    if i > 0 {
        lemma_unfiltered_shows_all(names, selected, i - 1);
        assert(all_rows(i - 1).push((i - 1) as usize) =~= all_rows(i));
    }
}

/// The highlight after moving to the next row, wrapping to the first.
pub open spec fn next_highlight(cur: Option<usize>, len: int) -> Option<usize> {
    if len == 0 {
        cur
    } else {
        match cur {
            None => Some(0),
            Some(i) => if i + 1 >= len {
                Some(0)
            } else {
                Some((i + 1) as usize)
            },
        }
    }
}

/// The highlight after moving to the previous row, wrapping to the last.
pub open spec fn prev_highlight(cur: Option<usize>, len: int) -> Option<usize> {
    if len == 0 {
        cur
    } else {
        match cur {
            None => Some(0),
            Some(i) => if i == 0 {
                Some((len - 1) as usize)
            } else {
                Some((i - 1) as usize)
            },
        }
    }
}

/// The session state: the formulae, which of them are displayed and
/// highlighted, and the names selected for removal.
pub struct State {
    selected_formula: Option<usize>,
    formulae: Vec<usize>,
    graph: HomebrewGraph,
    all_formulae: Vec<HomebrewFormula>,
    filter_selected: bool,
    formulae_to_delete: Vec<String>,
}

impl State {
    /// The models of all formulae, in input order.
    pub open spec fn all(&self) -> Seq<FormulaModel> {
        models(self.stored())
    }

    /// The formulae themselves, in input order.
    pub closed spec fn stored(&self) -> Seq<HomebrewFormula> {
        self.all_formulae@
    }

    /// The dependency graph the session was given.
    pub closed spec fn graph_view(&self) -> HomebrewGraph {
        self.graph
    }

    /// The names of all formulae, in input order.
    pub open spec fn names(&self) -> Seq<Seq<char>> {
        self.all().map_values(|f: FormulaModel| f.name)
    }

    /// The displayed rows, as positions among all formulae.
    pub closed spec fn displayed(&self) -> Seq<usize> {
        self.formulae@
    }

    /// The highlighted row, if any.
    pub closed spec fn highlight(&self) -> Option<usize> {
        self.selected_formula
    }

    /// Only the selected formulae are displayed.
    pub closed spec fn filtering(&self) -> bool {
        self.filter_selected
    }

    /// The names selected for removal.
    pub closed spec fn selection(&self) -> Set<Seq<char>> {
        name_set(self.formulae_to_delete@)
    }

    /// The formula under the highlight, as a position among all formulae.
    pub open spec fn highlighted(&self) -> Option<int> {
        match self.highlight() {
            None => None,
            Some(i) => Some(self.displayed()[i as int] as int),
        }
    }

    pub closed spec fn wf(&self) -> bool {
        &&& self.graph.wf()
        &&& self.graph.formulae() == models(self.all_formulae@)
        &&& forall|i: int|
            0 <= i < self.formulae@.len() ==> #[trigger] self.formulae@[i] < self.all_formulae@.len()
        &&& self.selected_formula is Some ==> self.selected_formula->0 < self.formulae@.len()
        &&& distinct_names(self.formulae_to_delete@)
        &&& !self.filter_selected ==> self.formulae@ == all_rows(self.all_formulae@.len() as int)
    }

    /// The selection after toggling the highlighted formula.
    pub open spec fn toggle_result(&self) -> Set<Seq<char>> {
        match self.highlighted() {
            None => self.selection(),
            Some(p) => {
                let name = self.all()[p].name;
                if self.selection().contains(name) {
                    self.selection().remove(name)
                } else {
                    self.selection().insert(name).union(dependant_names(self.all(), name))
                }
            },
        }
    }

    /// `next` is this state after `select_formulae_to_delete`.
    pub open spec fn toggles_to(&self, next: &State) -> bool {
        &&& next.stored() == self.stored()
        &&& next.graph_view() == self.graph_view()
        &&& next.displayed() == self.displayed()
        &&& next.highlight() == self.highlight()
        &&& next.filtering() == self.filtering()
        &&& next.selection() == self.toggle_result()
    }

    /// `next` is this state after `filter_selected`.
    pub open spec fn filters_to(&self, next: &State) -> bool {
        &&& next.same_data(self)
        &&& next.filtering() == !self.filtering()
        &&& next.highlight() is None
        &&& next.displayed() == shown(
            self.names(),
            self.selection(),
            !self.filtering(),
            self.names().len() as int,
        )
    }

    /// The same formulae, graph and selection; only the view may differ.
    pub open spec fn same_data(&self, other: &State) -> bool {
        &&& self.stored() == other.stored()
        &&& self.graph_view() == other.graph_view()
        &&& self.selection() == other.selection()
    }

    /// A session over `formulae`: every formula displayed, none highlighted,
    /// none selected.
    pub fn new(formulae: Vec<HomebrewFormula>, graph: HomebrewGraph) -> (r: State)
        requires
            graph.wf(),
            graph.formulae() == models(formulae@),
        ensures
            r.wf(),
            r.stored() == formulae@,
            r.graph_view() == graph,
            r.displayed() == all_rows(formulae@.len() as int),
            r.highlight() is None,
            !r.filtering(),
            r.selection() == Set::<Seq<char>>::empty(),
    {
        let mut shown_rows: Vec<usize> = Vec::new();
        let mut i: usize = 0;
        while i < formulae.len()
            invariant
                i <= formulae@.len(),
                shown_rows@ == shown(
                    models(formulae@).map_values(|f: FormulaModel| f.name),
                    Set::empty(),
                    false,
                    i as int,
                ),
                forall|j: int| 0 <= j < shown_rows@.len() ==> #[trigger] shown_rows@[j] < i,
            decreases formulae@.len() - i,
        {
            shown_rows.push(i);
            i = i + 1;
        }
        let r = State {
            selected_formula: None,
            formulae: shown_rows,
            graph,
            all_formulae: formulae,
            filter_selected: false,
            formulae_to_delete: Vec::new(),
        };
        proof {
            assert(r.selection() =~= Set::<Seq<char>>::empty());
            lemma_unfiltered_shows_all(r.names(), Set::empty(), formulae@.len() as int);
        }
        r
    }

    /// Every displayed row stands for a formula.
    pub proof fn lemma_displayed_in_range(&self, row: int)
        requires
            self.wf(),
            0 <= row < self.displayed().len(),
        ensures
            self.displayed()[row] < self.all().len(),
            self.all().len() == self.names().len(),
    {
    }

    /// The highlight stands on a displayed row, and so on an installed
    /// formula.
    pub proof fn lemma_highlighted_installed(&self)
        requires
            self.wf(),
        ensures
            self.highlight() is Some ==> self.highlight()->0 < self.displayed().len(),
            self.highlighted() is Some ==> 0 <= self.highlighted()->0 < self.all().len(),
    {
    }

    /// Every formula, in input order.
    pub fn all_formulae(&self) -> (r: &Vec<HomebrewFormula>)
        ensures
            r@ == self.stored(),
    {
        &self.all_formulae
    }

    /// The displayed rows, as positions among all formulae.
    pub fn displayed_formulae(&self) -> (r: &Vec<usize>)
        ensures
            r@ == self.displayed(),
    {
        &self.formulae
    }

    /// The highlighted row, if any.
    pub fn selected_index(&self) -> (r: Option<usize>)
        ensures
            r == self.highlight(),
    {
        self.selected_formula
    }

    /// The dependency graph of the formulae.
    pub fn graph(&self) -> (r: &HomebrewGraph)
        requires
            self.wf(),
        ensures
            *r == self.graph_view(),
            r.wf(),
            r.formulae() == self.all(),
    {
        &self.graph
    }

    /// Moves the highlight to the next row, from the last to the first; does
    /// nothing when no row is displayed.
    pub fn select_next_formula(&mut self)
        requires
            old(self).wf(),
        ensures
            final(self).wf(),
            final(self).same_data(old(self)),
            final(self).displayed() == old(self).displayed(),
            final(self).filtering() == old(self).filtering(),
            final(self).highlight() == next_highlight(
                old(self).highlight(),
                old(self).displayed().len() as int,
            ),
    {
        if self.formulae.len() == 0 {
            return;
        }
        let next_idx = if let Some(selected) = self.selected_formula {
            if selected == self.formulae.len() - 1 {
                0
            } else {
                selected + 1
            }
        } else {
            0
        };
        self.selected_formula = Some(next_idx);
    }

    /// Moves the highlight to the previous row, from the first to the last;
    /// does nothing when no row is displayed.
    pub fn select_prev_formula(&mut self)
        requires
            old(self).wf(),
        ensures
            final(self).wf(),
            final(self).same_data(old(self)),
            final(self).displayed() == old(self).displayed(),
            final(self).filtering() == old(self).filtering(),
            final(self).highlight() == prev_highlight(
                old(self).highlight(),
                old(self).displayed().len() as int,
            ),
    {
        if self.formulae.len() == 0 {
            return;
        }
        let prev_idx = if let Some(selected) = self.selected_formula {
            if selected == 0 {
                self.formulae.len() - 1
            } else {
                selected - 1
            }
        } else {
            0
        };
        self.selected_formula = Some(prev_idx);
    }

    /// The formula under the highlight, if any.
    pub fn get_selected_formula(&self) -> (r: Option<&HomebrewFormula>)
        requires
            self.wf(),
        ensures
            r is Some <==> self.highlighted() is Some,
            r is Some ==> *r->0 == self.stored()[self.highlighted()->0],
    {
        match self.selected_formula {
            None => None,
            Some(selected) => Some(&self.all_formulae[self.formulae[selected]]),
        }
    }
}

fn position_of(v: &Vec<String>, name: &String) -> (r: Option<usize>)
    ensures
        r is None <==> !name_set(v@).contains(name@),
        r is Some ==> r->0 < v@.len() && v@[r->0 as int]@ == name@,
{
    let mut i: usize = 0;
    while i < v.len()
        invariant
            i <= v@.len(),
            forall|j: int| 0 <= j < i ==> v@[j]@ != name@,
        decreases v@.len() - i,
    {
        if v[i] == *name {
            return Some(i);
        }
        i = i + 1;
    }
    None
}

fn insert_name(v: &mut Vec<String>, name: String)
    requires
        distinct_names(old(v)@),
    ensures
        distinct_names(final(v)@),
        name_set(final(v)@) == name_set(old(v)@).insert(name@),
{
    if position_of(v, &name).is_none() {
        let ghost before = v@;
        let ghost nm = name@;
        v.push(name);
        proof {
            assert(v@ == before.push(v@.last()));
            assert forall|x: Seq<char>| name_set(v@).contains(x) <==> name_set(before).insert(nm).contains(x) by {
                if name_set(before).contains(x) {
                    let j = choose|j: int| 0 <= j < before.len() && before[j]@ == x;
                    assert(v@[j] == before[j]);
                }
                if name_set(v@).contains(x) && x != nm {
                    let j = choose|j: int| 0 <= j < v@.len() && v@[j]@ == x;
                    assert(v@[j] == before[j]);
                }
                if x == nm {
                    assert(v@[before.len() as int]@ == nm);
                }
            }
            assert(name_set(v@) =~= name_set(before).insert(nm));
        }
    } else {
        proof {
            assert(name_set(v@) =~= name_set(v@).insert(name@));
        }
    }
}

fn remove_name(v: &mut Vec<String>, name: &String)
    requires
        distinct_names(old(v)@),
    ensures
        distinct_names(final(v)@),
        name_set(final(v)@) == name_set(old(v)@).remove(name@),
{
    match position_of(v, name) {
        None => {
            proof {
                assert(name_set(v@) =~= name_set(v@).remove(name@));
            }
        },
        Some(i) => {
            let ghost before = v@;
            v.remove(i);
            proof {
                assert forall|x: Seq<char>| name_set(v@).contains(x) <==> name_set(before).remove(name@).contains(x) by {
                    if name_set(v@).contains(x) {
                        let j = choose|j: int| 0 <= j < v@.len() && v@[j]@ == x;
                        if j < i {
                            assert(v@[j] == before[j]);
                        } else {
                            assert(v@[j] == before[j + 1]);
                        }
                    }
                    if name_set(before).remove(name@).contains(x) {
                        let j = choose|j: int| 0 <= j < before.len() && before[j]@ == x;
                        assert(j != i);
                        if j < i {
                            assert(v@[j] == before[j]);
                        } else {
                            assert(v@[j - 1] == before[j]);
                        }
                    }
                }
                assert(name_set(v@) =~= name_set(before).remove(name@));
                assert forall|a: int, b: int| 0 <= a < v@.len() && 0 <= b < v@.len() && a != b implies v@[a]@ != v@[b]@ by {
                    let a0 = if a < i { a } else { a + 1 };
                    let b0 = if b < i { b } else { b + 1 };
                    assert(v@[a] == before[a0] && v@[b] == before[b0]);
                }
            }
        },
    }
}

impl State {
    /// The name is selected for removal.
    pub fn is_formula_selected(&self, name: &str) -> (r: bool)
        ensures
            r == self.selection().contains(name@),
    {
        let key = name.to_owned();
        position_of(&self.formulae_to_delete, &key).is_some()
    }

    /// Toggles the highlighted formula: a selected one is deselected alone; an
    /// unselected one is selected together with every formula that depends on
    /// it. Does nothing when no row is highlighted.
    pub fn select_formulae_to_delete(&mut self)
        requires
            old(self).wf(),
        ensures
            final(self).wf(),
            old(self).toggles_to(final(self)),
    {
        let selected = match self.selected_formula {
            None => return,
            Some(selected) => selected,
        };
        let idx = self.formulae[selected];
        let name = self.all_formulae[idx].name.clone();
        let ghost fs = self.all();
        let ghost nm = name@;
        proof {
            assert(fs[idx as int].name == nm);
        }
        if position_of(&self.formulae_to_delete, &name).is_some() {
            remove_name(&mut self.formulae_to_delete, &name);
        } else {
            let ghost sel0 = self.selection();
            let ghost rows0 = self.formulae@;
            let ghost hl0 = self.selected_formula;
            let ghost flag0 = self.filter_selected;
            let ghost stored0 = self.all_formulae@;
            let ghost graph0 = self.graph;
            let dependants = self.graph.resolve_dependants(name.as_str());
            let mut i: usize = 0;
            while i < dependants.len()
                invariant
                    self.wf(),
                    self.all() == fs,
                    fs.len() == self.all_formulae@.len(),
                    self.formulae@ == rows0,
                    self.selected_formula == hl0,
                    self.filter_selected == flag0,
                    self.all_formulae@ == stored0,
                    self.graph == graph0,
                    i <= dependants@.len(),
                    dependants@.to_set() == dependant_set(fs, nm),
                    self.selection() == sel0.union(
                        Set::new(|x: Seq<char>| exists|k: int| 0 <= k < i && fs[dependants@[k] as int].name == x),
                    ),
                decreases dependants@.len() - i,
            {
                let w = dependants[i];
                proof {
                    assert(dependants@.to_set().contains(w));
                }
                let dep_name = self.all_formulae[w].name.clone();
                insert_name(&mut self.formulae_to_delete, dep_name);
                proof {
                    assert(self.selection() =~= sel0.union(
                        Set::new(|x: Seq<char>| exists|k: int| 0 <= k < i + 1 && fs[dependants@[k] as int].name == x),
                    )) by {
                        assert(fs[dependants@[i as int] as int].name == self.all_formulae@[w as int].name@);
                    }
                }
                i = i + 1;
            }
            insert_name(&mut self.formulae_to_delete, name);
            proof {
                let added = Set::new(|x: Seq<char>| exists|k: int| 0 <= k < dependants@.len() && fs[dependants@[k] as int].name == x);
                assert(added =~= dependant_names(fs, nm)) by {
                    assert forall|x: Seq<char>| added.contains(x) implies dependant_names(fs, nm).contains(x) by {
                        let k = choose|k: int| 0 <= k < dependants@.len() && fs[dependants@[k] as int].name == x;
                        assert(dependants@.to_set().contains(dependants@[k]));
                    }
                    assert forall|x: Seq<char>| dependant_names(fs, nm).contains(x) implies added.contains(x) by {
                        let w = choose|w: usize| #[trigger] dependant_set(fs, nm).contains(w) && fs[w as int].name == x;
                        assert(dependants@.to_set().contains(w));
                        let k = choose|k: int| 0 <= k < dependants@.len() && dependants@[k] == w;
                        assert(fs[dependants@[k] as int].name == x);
                    }
                }
                assert(self.selection() =~= sel0.insert(nm).union(dependant_names(fs, nm)));
            }
        }
    }

    /// Flips between showing every formula and only the selected ones, in
    /// input order either way, and clears the highlight.
    pub fn filter_selected(&mut self)
        requires
            old(self).wf(),
        ensures
            final(self).wf(),
            old(self).filters_to(final(self)),
    {
        let only_selected = !self.filter_selected;
        let ghost names = self.names();
        let mut rows: Vec<usize> = Vec::new();
        let mut i: usize = 0;
        while i < self.all_formulae.len()
            invariant
                self.wf(),
                names == self.names(),
                names.len() == self.all_formulae@.len(),
                i <= self.all_formulae@.len(),
                rows@ == shown(names, self.selection(), only_selected, i as int),
                forall|j: int| 0 <= j < rows@.len() ==> #[trigger] rows@[j] < i,
            decreases self.all_formulae@.len() - i,
        {
            proof {
                assert(names[i as int] == self.all_formulae@[i as int].name@);
            }
            if !only_selected || self.is_formula_selected(self.all_formulae[i].name.as_str()) {
                rows.push(i);
            }
            i = i + 1;
        }
        proof {
            if !only_selected {
                lemma_unfiltered_shows_all(names, self.selection(), names.len() as int);
            }
        }
        self.filter_selected = only_selected;
        self.selected_formula = None;
        self.formulae = rows;
    }

    /// The names selected for removal, each once.
    pub fn remove_selected_formulae(&self) -> (r: Vec<String>)
        requires
            self.wf(),
        ensures
            name_set(r@) == self.selection(),
            distinct_names(r@),
    {
        self.formulae_to_delete.clone()
    }
}

/// Toggling an unselected formula twice, with the highlight left on it,
/// first selects it together with its dependants, then deselects it alone:
/// the dependants stay selected.
pub proof fn lemma_toggle_twice(s0: State, s1: State, s2: State)
    requires
        s0.wf(),
        s0.highlighted() is Some,
        !s0.selection().contains(s0.all()[s0.highlighted()->0].name),
        s0.toggles_to(&s1),
        s1.toggles_to(&s2),
    ensures
        ({
            let name = s0.all()[s0.highlighted()->0].name;
            &&& s1.selection() == s0.selection().insert(name).union(dependant_names(s0.all(), name))
            &&& s2.selection() == s1.selection().remove(name)
            &&& !s2.selection().contains(name)
            &&& forall|d: Seq<char>|
                #[trigger] dependant_names(s0.all(), name).contains(d) && d != name
                    ==> s2.selection().contains(d)
        }),
{
    assert(s1.highlighted() == s0.highlighted());
}

/// Filtering twice from the unfiltered view restores the displayed rows and
/// their order.
pub proof fn lemma_filter_twice(s0: State, s1: State, s2: State)
    requires
        s0.wf(),
        !s0.filtering(),
        s0.filters_to(&s1),
        s1.filters_to(&s2),
    ensures
        s2.displayed() == s0.displayed(),
        !s2.filtering(),
{
    lemma_unfiltered_shows_all(s0.names(), s0.selection(), s0.names().len() as int);
    assert(s0.names().len() == s0.all_formulae@.len());
}

} // verus!
