use vstd::prelude::*;

verus! {

/// The commands handed to the `brew` executable. Running them is left to the
/// caller; these functions say which arguments each one takes.
pub struct HomebrewClient;

/// The string views of a list of strings.
pub open spec fn views(v: Seq<String>) -> Seq<Seq<char>> {
    v.map_values(|s: String| s@)
}

impl HomebrewClient {
    /// Arguments that print the installed formulae as a JSON document.
    pub fn load_info() -> (r: Vec<String>)
        ensures
            views(r@) == seq!["info"@, "--json=v2"@, "--installed"@],
    {
        let mut args: Vec<String> = Vec::new();
        args.push("info".to_owned());
        args.push("--json=v2".to_owned());
        args.push("--installed".to_owned());
        proof {
            assert(views(args@) =~= seq!["info"@, "--json=v2"@, "--installed"@]);
        }
        args
    }

    /// Arguments that uninstall the given formulae, in the given order.
    pub fn remove_formulae(formulae: &[String]) -> (r: Vec<String>)
        ensures
            views(r@) == seq!["remove"@].add(views(formulae@)),
    {
        let mut args: Vec<String> = Vec::new();
        args.push("remove".to_owned());
        let mut i: usize = 0;
        while i < formulae.len()
            invariant
                i <= formulae@.len(),
                views(args@) == seq!["remove"@].add(views(formulae@.subrange(0, i as int))),
            decreases formulae@.len() - i,
        {
            let ghost before = args@;
            args.push(formulae[i].clone());
            proof {
                assert(formulae@.subrange(0, i + 1) =~= formulae@.subrange(0, i as int).push(
                    formulae@[i as int],
                ));
                assert(views(args@) =~= views(before).push(formulae@[i as int]@));
                assert(views(formulae@.subrange(0, i + 1)) =~= views(
                    formulae@.subrange(0, i as int),
                ).push(formulae@[i as int]@));
                assert(views(args@) =~= seq!["remove"@].add(
                    views(formulae@.subrange(0, i + 1)),
                ));
            }
            i = i + 1;
        }
        proof {
            assert(formulae@.subrange(0, i as int) =~= formulae@);
        }
        args
    }

    /// Arguments that check that the executable answers.
    pub fn ensure_exists() -> (r: Vec<String>)
        ensures
            views(r@) == seq!["--version"@],
    {
        let mut args: Vec<String> = Vec::new();
        args.push("--version".to_owned());
        proof {
            assert(views(args@) =~= seq!["--version"@]);
        }
        args
    }
}

} // verus!
