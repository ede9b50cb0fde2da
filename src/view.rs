use vstd::prelude::*;
use vstd::string::{StrSliceExecFns, StringExecFns};
use crate::client::views;
use crate::formula::{HomebrewFormula, models};
use crate::graph::dependant_set;
use crate::state::{State, dependant_names, name_set};

verus! {

/// `items` with `sep` between each two.
pub open spec fn joined(items: Seq<Seq<char>>, sep: Seq<char>) -> Seq<char>
    decreases items.len(),
{
    if items.len() == 0 {
        Seq::empty()
    } else if items.len() == 1 {
        items[0]
    } else {
        joined(items.drop_last(), sep) + sep + items.last()
    }
}

/// The text, or "No" where it is empty.
pub open spec fn or_no(text: Seq<char>) -> Seq<char> {
    if text.len() == 0 {
        "No"@
    } else {
        text
    }
}

/// Joins `items` with `sep` between each two.
pub fn join(items: &Vec<String>, sep: &str) -> (r: String)
    ensures
        r@ == joined(views(items@), sep@),
{
    let mut r = String::new();
    let mut i: usize = 0;
    while i < items.len()
        invariant
            i <= items@.len(),
            r@ == joined(views(items@.subrange(0, i as int)), sep@),
        decreases items@.len() - i,
    {
        let ghost before = r@;
        if i > 0 {
            r.append(sep);
        }
        r.append(items[i].as_str());
        proof {
            let head = items@.subrange(0, i as int);
            let next = items@.subrange(0, i + 1);
            assert(next =~= head.push(items@[i as int]));
            assert(views(next) =~= views(head).push(items@[i as int]@));
            assert(views(next).drop_last() =~= views(head));
            if i == 0 {
                assert(before =~= Seq::<char>::empty());
                assert(r@ =~= items@[0]@);
            }
        }
        i = i + 1;
    }
    proof {
        assert(items@.subrange(0, i as int) =~= items@);
    }
    r
}

fn or_no_text(text: String) -> (r: String)
    ensures
        r@ == or_no(text@),
{
    if text.as_str().unicode_len() == 0 {
        "No".to_owned()
    } else {
        text
    }
}

/// The list panel: one row per displayed formula.
pub struct FormulaeList;

impl FormulaeList {
    /// The text of a displayed row: a check mark where the formula is
    /// selected, a dash where not, then its name.
    pub fn item_label(state: &State, row: usize) -> (r: String)
        requires
            state.wf(),
            row < state.displayed().len(),
        ensures
            ({
                let name = state.names()[state.displayed()[row as int] as int];
                r@ == if state.selection().contains(name) {
                    "✓ "@
                } else {
                    "- "@
                } + name
            }),
    {
        let rows = state.displayed_formulae();
        let all = state.all_formulae();
        proof {
            state.lemma_displayed_in_range(row as int);
        }
        let name = &all[rows[row]].name;
        proof {
            assert(models(all@)[rows@[row as int] as int].name == name@);
        }
        let mut label = if state.is_formula_selected(name.as_str()) {
            "✓ ".to_owned()
        } else {
            "- ".to_owned()
        };
        label.append(name.as_str());
        label
    }
}

/// The help panel: the keys, each shown as its first letter and the rest.
pub struct HelpBar;

impl HelpBar {
    /// The menu entries, split into the letter to press and the rest.
    pub fn entries() -> (r: Vec<(String, String)>)
        ensures
            r@.len() == 4,
            r@[0].0@ == "S"@ && r@[0].1@ == "elect"@,
            r@[1].0@ == "F"@ && r@[1].1@ == "ilter"@,
            r@[2].0@ == "D"@ && r@[2].1@ == "elete"@,
            r@[3].0@ == "Q"@ && r@[3].1@ == "uit"@,
    {
        let mut r: Vec<(String, String)> = Vec::new();
        r.push(("S".to_owned(), "elect".to_owned()));
        r.push(("F".to_owned(), "ilter".to_owned()));
        r.push(("D".to_owned(), "elete".to_owned()));
        r.push(("Q".to_owned(), "uit".to_owned()));
        r
    }
}

/// The version shown for a formula: its first installed build, if any.
pub open spec fn shown_version(f: HomebrewFormula) -> Seq<char> {
    if f.installed@.len() > 0 {
        f.installed@[0].version@
    } else {
        Seq::empty()
    }
}

/// The info panel: the highlighted formula with its dependants and
/// dependencies.
pub struct FormulaInfo;

impl FormulaInfo {
    /// The names of the formulae that depend on the one `name` resolves to.
    pub fn dependant_names(state: &State, name: &str) -> (r: Vec<String>)
        requires
            state.wf(),
        ensures
            name_set(r@) == dependant_names(state.all(), name@),
    {
        let ghost fs = state.all();
        let all = state.all_formulae();
        let dependants = state.graph().resolve_dependants(name);
        let mut names: Vec<String> = Vec::new();
        let mut i: usize = 0;
        while i < dependants.len()
            invariant
                models(all@) == fs,
                fs.len() == all@.len(),
                i <= dependants@.len(),
                dependants@.to_set() == dependant_set(fs, name@),
                views(names@) == Seq::new(i as nat, |k: int| fs[dependants@[k] as int].name),
            decreases dependants@.len() - i,
        {
            let w = dependants[i];
            proof {
                assert(dependants@.to_set().contains(w));
            }
            let ghost before = names@;
            names.push(all[w].name.clone());
            proof {
                assert(fs[w as int].name == all@[w as int].name@);
                assert(views(names@) =~= views(before).push(all@[w as int].name@));
                assert(views(names@) =~= Seq::new((i + 1) as nat, |k: int| fs[dependants@[k] as int].name));
            }
            i = i + 1;
        }
        proof {
            let target = dependant_names(fs, name@);
            assert forall|x: Seq<char>| name_set(names@).contains(x) implies target.contains(x) by {
                let k = choose|k: int| 0 <= k < names@.len() && names@[k]@ == x;
                assert(views(names@)[k] == x);
                assert(dependants@.to_set().contains(dependants@[k]));
            }
            assert forall|x: Seq<char>| target.contains(x) implies name_set(names@).contains(x) by {
                let w = choose|w: usize| #[trigger] dependant_set(fs, name@).contains(w) && fs[w as int].name == x;
                assert(dependants@.to_set().contains(w));
                let k = choose|k: int| 0 <= k < dependants@.len() && dependants@[k] == w;
                assert(views(names@)[k] == x);
            }
            assert(name_set(names@) =~= target);
        }
        names
    }

    /// The lines of the panel: a prompt where no formula is highlighted;
    /// else the name and version, the description, the dependants and the
    /// dependencies joined by commas ("No" where there are none).
    pub fn lines(formula: Option<&HomebrewFormula>, dependants: &Vec<String>) -> (r: Vec<String>)
        ensures
            formula is None ==> views(r@) == seq!["Select a formula..."@],
            formula is Some ==> {
                let f = *formula->0;
                views(r@) == seq![
                    f.name@ + " v"@ + shown_version(f),
                    f.desc@,
                    Seq::empty(),
                    "Dependants"@,
                    or_no(joined(views(dependants@), ", "@)),
                    Seq::empty(),
                    "Dependencies"@,
                    or_no(joined(views(f.dependencies@), ", "@)),
                ]
            },
    {
        let mut r: Vec<String> = Vec::new();
        match formula {
            None => {
                r.push("Select a formula...".to_owned());
                proof {
                    assert(views(r@) =~= seq!["Select a formula..."@]);
                }
            },
            Some(f) => {
                let mut title = f.name.clone();
                title.append(" v");
                if f.installed.len() > 0 {
                    title.append(f.installed[0].version.as_str());
                } else {
                    proof {
                        assert(title@ + Seq::<char>::empty() =~= title@);
                    }
                }
                r.push(title);
                r.push(f.desc.clone());
                r.push(String::new());
                r.push("Dependants".to_owned());
                r.push(or_no_text(join(dependants, ", ")));
                r.push(String::new());
                r.push("Dependencies".to_owned());
                r.push(or_no_text(join(&f.dependencies, ", ")));
                proof {
                    assert(views(r@) =~= seq![
                        f.name@ + " v"@ + shown_version(*f),
                        f.desc@,
                        Seq::empty(),
                        "Dependants"@,
                        or_no(joined(views(dependants@), ", "@)),
                        Seq::empty(),
                        "Dependencies"@,
                        or_no(joined(views(f.dependencies@), ", "@)),
                    ]);
                }
            },
        }
        r
    }
}

} // verus!
