use vstd::prelude::*;
use crate::formula::{FormulaModel, HomebrewFormula, keys_of, lemma_lookup_declares, lookup, models};

verus! {

/// Resolves every name and alias of the installed formulae to the position of
/// the formula that declares it; where two formulae declare the same key, the
/// later one wins.
pub struct FormulaeMap {
    keys: Vec<Vec<String>>,
    formulae: Ghost<Seq<FormulaModel>>,
}

pub open spec fn key_views(ks: Seq<String>) -> Seq<Seq<char>> {
    ks.map_values(|s: String| s@)
}

/// If formula `j` declares `key` and no later one does, `key` resolves to `j`.
pub proof fn lemma_lookup_last(fs: Seq<FormulaModel>, key: Seq<char>, j: int)
    requires
        0 <= j < fs.len(),
        keys_of(fs[j]).contains(key),
        forall|k: int| j < k < fs.len() ==> !keys_of(#[trigger] fs[k]).contains(key),
    ensures
        lookup(fs, key) == Some(j),
{
    lemma_lookup_declares(fs, key);
}

impl FormulaeMap {
    /// The formulae whose keys this map holds.
    pub closed spec fn formulae(&self) -> Seq<FormulaModel> {
        self.formulae@
    }

    pub closed spec fn wf(&self) -> bool {
        &&& self.keys@.len() == self.formulae@.len()
        &&& forall|i: int|
            0 <= i < self.keys@.len() ==> key_views(#[trigger] self.keys@[i]@) == keys_of(
                self.formulae@[i],
            )
    }

    /// The number of formulae that the map was built from.
    pub fn len(&self) -> (r: usize)
        requires
            self.wf(),
        ensures
            r == self.formulae().len(),
    {
        self.keys.len()
    }

    /// Builds the map from the formulae in input order.
    pub fn build(formulae: &[HomebrewFormula]) -> (r: FormulaeMap)
        ensures
            r.wf(),
            r.formulae() == models(formulae@),
    {
        let mut keys: Vec<Vec<String>> = Vec::new();
        let mut i: usize = 0;
        while i < formulae.len()
            invariant
                i <= formulae@.len(),
                keys@.len() == i,
                forall|j: int|
                    0 <= j < i ==> key_views(#[trigger] keys@[j]@) == keys_of(
                        formulae@[j].model(),
                    ),
            decreases formulae@.len() - i,
        {
            let formula = &formulae[i];
            let mut ks: Vec<String> = Vec::new();
            ks.push(formula.name.clone());
            let mut a: usize = 0;
            while a < formula.aliases.len()
                invariant
                    a <= formula.aliases@.len(),
                    key_views(ks@) == seq![formula.name@].add(
                        key_views(formula.aliases@.subrange(0, a as int)),
                    ),
                decreases formula.aliases@.len() - a,
            {
                let ghost before = ks@;
                ks.push(formula.aliases[a].clone());
                proof {
                    let sub = formula.aliases@.subrange(0, a as int);
                    assert(formula.aliases@.subrange(0, a + 1) =~= sub.push(
                        formula.aliases@[a as int],
                    ));
                    assert(key_views(sub.push(formula.aliases@[a as int])) =~= key_views(sub).push(
                        formula.aliases@[a as int]@,
                    ));
                    assert(ks@ =~= before.push(formula.aliases@[a as int]));
                    assert(key_views(ks@) =~= key_views(before).push(formula.aliases@[a as int]@));
                    assert(key_views(ks@) =~= seq![formula.name@].add(
                        key_views(formula.aliases@.subrange(0, a + 1)),
                    ));
                }
                a = a + 1;
            }
            proof {
                assert(formula.aliases@.subrange(0, a as int) == formula.aliases@);
                assert(key_views(ks@) == keys_of(formula.model()));
            }
            keys.push(ks);
            i = i + 1;
        }
        proof {
            assert(keys@.len() == models(formulae@).len());
        }
        FormulaeMap { keys, formulae: Ghost(models(formulae@)) }
    }

    /// The position of the formula that `name` resolves to, if any.
    pub fn get(&self, name: &str) -> (r: Option<usize>)
        requires
            self.wf(),
        ensures
            r is Some <==> lookup(self.formulae(), name@) is Some,
            r is Some ==> r->0 == lookup(self.formulae(), name@)->0,
            r is Some ==> r->0 < self.formulae().len(),
    {
        let key = name.to_owned();
        let mut i: usize = self.keys.len();
        while i > 0
            invariant
                self.wf(),
                key@ == name@,
                i <= self.keys@.len(),
                forall|k: int|
                    i <= k < self.formulae@.len() ==> !keys_of(#[trigger] self.formulae@[k]).contains(
                        name@,
                    ),
            decreases i,
        {
            let ks = &self.keys[i - 1];
            let mut a: usize = 0;
            while a < ks.len()
                invariant
                    self.wf(),
                    0 < i <= self.keys@.len(),
                    ks == self.keys@[i - 1],
                    forall|k: int|
                        i <= k < self.formulae@.len() ==> !keys_of(
                            #[trigger] self.formulae@[k],
                        ).contains(name@),
                    key@ == name@,
                    a <= ks@.len(),
                    forall|b: int| 0 <= b < a ==> ks@[b]@ != name@,
                decreases ks@.len() - a,
            {
                if ks[a] == key {
                    proof {
                        let fs = self.formulae@;
                        assert(key_views(ks@)[a as int] == name@);
                        assert(key_views(ks@) == keys_of(fs[i - 1]));
                        assert(keys_of(fs[i - 1]).contains(name@));
                        lemma_lookup_last(fs, name@, i - 1);
                    }
                    return Some(i - 1);
                }
                a = a + 1;
            }
            proof {
                let fs = self.formulae@;
                assert forall|b: int| 0 <= b < keys_of(fs[i - 1]).len() implies #[trigger] keys_of(fs[i - 1])[b]
                    != name@ by {
                    assert(key_views(ks@) == keys_of(fs[i - 1]));
                    assert(key_views(ks@)[b] == ks@[b]@);
                }
            }
            i = i - 1;
        }
        proof {
            lemma_lookup_declares(self.formulae@, name@);
        }
        None
    }
}

} // verus!
