use vstd::prelude::*;

verus! {

/// One installed build of a formula.
pub struct HomebrewFormulaInstalled {
    pub version: String,
}

/// An installed formula, as the package manager describes it.
pub struct HomebrewFormula {
    pub name: String,
    pub desc: String,
    pub aliases: Vec<String>,
    pub dependencies: Vec<String>,
    pub installed: Vec<HomebrewFormulaInstalled>,
}

/// The snapshot of every installed formula.
pub struct HomebrewInfo {
    pub formulae: Vec<HomebrewFormula>,
}

/// What the graph logic reads of a formula: its name, its aliases and the
/// names of its declared dependencies.
pub struct FormulaModel {
    pub name: Seq<char>,
    pub aliases: Seq<Seq<char>>,
    pub dependencies: Seq<Seq<char>>,
}

impl HomebrewFormula {
    pub open spec fn model(&self) -> FormulaModel {
        FormulaModel {
            name: self.name@,
            aliases: self.aliases@.map_values(|a: String| a@),
            dependencies: self.dependencies@.map_values(|d: String| d@),
        }
    }
}

/// The models of a sequence of formulae.
pub open spec fn models(fs: Seq<HomebrewFormula>) -> Seq<FormulaModel> {
    fs.map_values(|f: HomebrewFormula| f.model())
}

/// The names under which a formula is known: its own name, then its aliases.
pub open spec fn keys_of(f: FormulaModel) -> Seq<Seq<char>> {
    seq![f.name].add(f.aliases)
}

/// The formula that a name or alias resolves to: the last formula in input
/// order that declares it.
pub open spec fn lookup(fs: Seq<FormulaModel>, key: Seq<char>) -> Option<int>
    decreases fs.len(),
{
    if fs.len() == 0 {
        None
    } else if keys_of(fs.last()).contains(key) {
        Some(fs.len() - 1)
    } else {
        lookup(fs.drop_last(), key)
    }
}

/// A formula's own name resolves, to that formula or to a later one.
pub proof fn lemma_own_name_resolves(fs: Seq<FormulaModel>, i: int)
    requires
        0 <= i < fs.len(),
    ensures
        lookup(fs, fs[i].name) is Some,
        i <= lookup(fs, fs[i].name)->0 < fs.len(),
    decreases fs.len(),
{
    assert(keys_of(fs[i])[0] == fs[i].name);
    if i < fs.len() - 1 && !keys_of(fs.last()).contains(fs[i].name) {
        assert(fs.drop_last()[i] == fs[i]);
        lemma_own_name_resolves(fs.drop_last(), i);
    }
}

/// What `lookup` returns is a formula that declares the key.
pub proof fn lemma_lookup_declares(fs: Seq<FormulaModel>, key: Seq<char>)
    ensures
        lookup(fs, key) is Some ==> {
            let j = lookup(fs, key)->0;
            0 <= j < fs.len() && keys_of(fs[j]).contains(key)
                && forall|k: int| j < k < fs.len() ==> !keys_of(#[trigger] fs[k]).contains(key)
        },
        lookup(fs, key) is None ==> forall|k: int|
            0 <= k < fs.len() ==> !keys_of(#[trigger] fs[k]).contains(key),
    decreases fs.len(),
{
    if fs.len() > 0 && !keys_of(fs.last()).contains(key) {
        lemma_lookup_declares(fs.drop_last(), key);
        assert forall|k: int| 0 <= k < fs.len() - 1 implies fs.drop_last()[k] == fs[k] by {}
    }
}

/// A formula without aliases whose name no other formula declares, as a name
/// or an alias, is what that name resolves to, wherever it stands among them.
pub proof fn lemma_lookup_unaliased(fs: Seq<FormulaModel>, i: int)
    requires
        0 <= i < fs.len(),
        fs[i].aliases.len() == 0,
        forall|j: int| 0 <= j < fs.len() && j != i ==> !keys_of(#[trigger] fs[j]).contains(fs[i].name),
    ensures
        lookup(fs, fs[i].name) == Some(i),
{
    lemma_lookup_declares(fs, fs[i].name);
    assert(keys_of(fs[i])[0] == fs[i].name);
}

/// Reordering the formulae does not change what such a name finds: where
/// `perm` holds the formulae of `fs` in the order `sigma` gives, the name of
/// an unaliased formula that no other declares resolves to that formula in
/// both.
pub proof fn lemma_lookup_unaliased_reordered(
    fs: Seq<FormulaModel>,
    perm: Seq<FormulaModel>,
    sigma: Seq<int>,
    i: int,
)
    requires
        perm.len() == fs.len(),
        sigma.len() == fs.len(),
        forall|k: int| 0 <= k < fs.len() ==> 0 <= #[trigger] sigma[k] < fs.len() && perm[k] == fs[sigma[k]],
        forall|k: int, l: int| 0 <= k < fs.len() && 0 <= l < fs.len() && k != l ==> sigma[k] != sigma[l],
        0 <= i < fs.len(),
        fs[i].aliases.len() == 0,
        forall|j: int| 0 <= j < fs.len() && j != i ==> !keys_of(#[trigger] fs[j]).contains(fs[i].name),
    ensures
        lookup(fs, fs[i].name) == Some(i),
        forall|j: int| 0 <= j < fs.len() && #[trigger] sigma[j] == i ==> lookup(perm, fs[i].name) == Some(j),
{
    lemma_lookup_unaliased(fs, i);
    assert forall|j: int| 0 <= j < fs.len() && #[trigger] sigma[j] == i implies lookup(perm, fs[i].name)
        == Some(j) by {
        assert(perm[j] == fs[i]);
        assert forall|k: int| 0 <= k < perm.len() && k != j implies !keys_of(#[trigger] perm[k]).contains(
            perm[j].name,
        ) by {
            assert(sigma[k] != sigma[j]);
            assert(perm[k] == fs[sigma[k]]);
        }
        lemma_lookup_unaliased(perm, j);
    }
}

} // verus!
