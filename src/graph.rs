use vstd::prelude::*;
use petgraph::graph::Graph;
use crate::formula::{
    FormulaModel, HomebrewFormula, lemma_lookup_declares, lemma_own_name_resolves, lookup, models,
};
use crate::registry::FormulaeMap;
use crate::store::{
    MAX_INDEX, add_edge, add_node, graph_edges, graph_nodes, new_graph, node_weight, reaches_back,
    reverse_dfs,
};

verus! {

/// Formula `a` declares a dependency that resolves to formula `b`.
pub open spec fn depends_on(fs: Seq<FormulaModel>, a: int, b: int) -> bool {
    &&& 0 <= a < fs.len()
    &&& exists|d: int|
        0 <= d < fs[a].dependencies.len() && lookup(fs, #[trigger] fs[a].dependencies[d]) == Some(b)
}

/// Each formula of `p` after the first depends on the one before it.
pub open spec fn is_chain(fs: Seq<FormulaModel>, p: Seq<int>) -> bool {
    &&& p.len() >= 1
    &&& forall|i: int| 0 <= i < p.len() - 1 ==> #[trigger] depends_on(fs, p[i + 1], p[i])
}

/// Formula `v` is `s`, or depends on `s` directly or through other formulae.
pub open spec fn reaches(fs: Seq<FormulaModel>, s: int, v: int) -> bool {
    exists|p: Seq<int>| is_chain(fs, p) && p[0] == s && p.last() == v
}

/// What `resolve_dependants(name)` answers: the positions of the formulae,
/// other than the one `name` resolves to, that depend on it directly or
/// transitively.
pub open spec fn dependant_set(fs: Seq<FormulaModel>, name: Seq<char>) -> Set<usize> {
    match lookup(fs, name) {
        None => Set::empty(),
        Some(s) => Set::new(|w: usize| w < fs.len() && w != s && reaches(fs, s, w as int)),
    }
}

/// The edges that the first `d` declared dependencies of formula `a` give, in
/// declaration order: one for each name that resolves, repeats included.
pub open spec fn resolved_from(fs: Seq<FormulaModel>, a: int, d: int) -> Seq<(usize, usize)>
    decreases d,
{
    if d <= 0 || a < 0 || a >= fs.len() || d > fs[a].dependencies.len() {
        Seq::empty()
    } else {
        match lookup(fs, fs[a].dependencies[d - 1]) {
            Some(t) => resolved_from(fs, a, d - 1).push((a as usize, t as usize)),
            None => resolved_from(fs, a, d - 1),
        }
    }
}

/// The edges of the first `i` formulae, formula by formula.
pub open spec fn resolved_edges(fs: Seq<FormulaModel>, i: int) -> Seq<(usize, usize)>
    decreases i,
{
    if i <= 0 || i > fs.len() {
        Seq::empty()
    } else {
        resolved_edges(fs, i - 1) + resolved_from(fs, i - 1, fs[i - 1].dependencies.len() as int)
    }
}

/// The number of dependency names declared by the first `i` formulae.
pub open spec fn dependency_count(fs: Seq<FormulaModel>, i: int) -> int
    decreases i,
{
    if i <= 0 || i > fs.len() {
        0
    } else {
        dependency_count(fs, i - 1) + fs[i - 1].dependencies.len()
    }
}

proof fn lemma_dependency_count_mono(fs: Seq<FormulaModel>, i: int, j: int)
    requires
        0 <= i <= j <= fs.len(),
    ensures
        dependency_count(fs, i) <= dependency_count(fs, j),
    decreases j - i,
{
    if i < j {
        lemma_dependency_count_mono(fs, i, j - 1);
    }
}

/// A formula reaches itself.
proof fn lemma_reaches_self(fs: Seq<FormulaModel>, s: int)
    ensures
        reaches(fs, s, s),
{
    let p = seq![s];
    assert(is_chain(fs, p));
    assert(p[0] == s && p.last() == s);
}

/// Reaching `b` and `a` depending on `b` gives reaching `a`.
proof fn lemma_reaches_step(fs: Seq<FormulaModel>, s: int, b: int, a: int)
    requires
        reaches(fs, s, b),
        depends_on(fs, a, b),
    ensures
        reaches(fs, s, a),
{
    let p = choose|p: Seq<int>| is_chain(fs, p) && p[0] == s && p.last() == b;
    let q = p.push(a);
    assert forall|i: int| 0 <= i < q.len() - 1 implies #[trigger] depends_on(fs, q[i + 1], q[i]) by {
        if i < p.len() - 1 {
            assert(depends_on(fs, p[i + 1], p[i]));
        }
    }
    assert(is_chain(fs, q));
    assert(q[0] == s && q.last() == a);
}

/// The dependency graph of the installed formulae: an edge from `a` to `b`
/// when `a` declares a dependency that resolves to `b`.
pub struct HomebrewGraph {
    graph: Graph<usize, u8>,
    formulae_map: FormulaeMap,
}

impl HomebrewGraph {
    /// The formulae the graph was built from.
    pub closed spec fn formulae(&self) -> Seq<FormulaModel> {
        self.formulae_map.formulae()
    }

    /// There is an edge from node `a` to node `b`.
    pub closed spec fn has_edge(&self, a: usize, b: usize) -> bool {
        graph_edges(self.graph).contains((a, b))
    }

    /// The edges, in order of addition.
    pub closed spec fn edges(&self) -> Seq<(usize, usize)> {
        graph_edges(self.graph)
    }

    /// The weight of node `v`.
    pub closed spec fn node(&self, v: int) -> usize {
        graph_nodes(self.graph)[v]
    }

    pub closed spec fn wf(&self) -> bool {
        let fs = self.formulae();
        let nodes = graph_nodes(self.graph);
        let edges = graph_edges(self.graph);
        &&& self.formulae_map.wf()
        &&& fs.len() < MAX_INDEX
        &&& nodes.len() == fs.len()
        &&& forall|v: int| 0 <= v < fs.len() ==> nodes[v] == v
        &&& forall|v: int| 0 <= v < fs.len() ==> lookup(fs, fs[v].name) is Some
        &&& forall|k: int|
            0 <= k < edges.len() ==> depends_on(fs, (#[trigger] edges[k]).0 as int, edges[k].1 as int)
        &&& forall|a: usize, b: usize| #[trigger]
            depends_on(fs, a as int, b as int) ==> edges.contains((a, b))
    }

    /// The graph's nodes and edges are exactly the formulae and their resolved
    /// dependencies.
    pub proof fn lemma_shape(&self)
        requires
            self.wf(),
        ensures
            forall|v: int|
                0 <= v < self.formulae().len() ==> #[trigger] self.node(v) == v,
            forall|a: usize, b: usize| #[trigger]
                self.has_edge(a, b) <==> depends_on(self.formulae(), a as int, b as int),
    {
        let edges = graph_edges(self.graph);
        assert forall|a: usize, b: usize| #[trigger]
            self.has_edge(a, b) implies depends_on(self.formulae(), a as int, b as int) by {
            let k = choose|k: int| 0 <= k < edges.len() && edges[k] == (a, b);
            assert(depends_on(self.formulae(), edges[k].0 as int, edges[k].1 as int));
        }
    }
}

impl HomebrewGraph {
    /// The formulae are few enough for the graph: fewer nodes and fewer
    /// declared dependencies than petgraph's default index type can number.
    pub fn fits(formulae: &[HomebrewFormula]) -> (r: bool)
        ensures
            r == (formulae@.len() < MAX_INDEX && dependency_count(
                models(formulae@),
                formulae@.len() as int,
            ) < MAX_INDEX),
    {
        if formulae.len() >= MAX_INDEX {
            return false;
        }
        let ghost fs = models(formulae@);
        let mut total: usize = 0;
        let mut i: usize = 0;
        while i < formulae.len()
            invariant
                fs == models(formulae@),
                formulae@.len() < MAX_INDEX,
                i <= formulae@.len(),
                total == dependency_count(fs, i as int),
                total < MAX_INDEX,
            decreases formulae@.len() - i,
        {
            let count = formulae[i].dependencies.len();
            if count >= MAX_INDEX - total {
                proof {
                    lemma_dependency_count_mono(fs, i + 1, fs.len() as int);
                }
                return false;
            }
            total = total + count;
            i = i + 1;
        }
        true
    }

    /// Builds the graph: a node for each formula whose name resolves, holding
    /// that formula's own position (every name does resolve), then an edge for each declared
    /// dependency that resolves to an installed formula. Dependencies that
    /// resolve to nothing are skipped.
    pub fn build(formulae: &[HomebrewFormula]) -> (r: HomebrewGraph)
        requires
            formulae@.len() < MAX_INDEX,
            dependency_count(models(formulae@), formulae@.len() as int) < MAX_INDEX,
        ensures
            r.wf(),
            r.formulae() == models(formulae@),
            forall|v: int|
                0 <= v < formulae@.len() ==> #[trigger] r.node(v) == v,
            forall|a: usize, b: usize| #[trigger]
                r.has_edge(a, b) <==> depends_on(models(formulae@), a as int, b as int),
            r.edges() == resolved_edges(models(formulae@), formulae@.len() as int),
    {
        let formulae_map = FormulaeMap::build(formulae);
        let mut graph = new_graph(formulae.len(), formulae.len());
        let ghost fs = models(formulae@);
        let mut i: usize = 0;
        while i < formulae.len()
            invariant
                formulae_map.wf(),
                formulae_map.formulae() == fs,
                fs == models(formulae@),
                formulae@.len() < MAX_INDEX,
                i <= fs.len(),
                graph_nodes(graph).len() == i,
                forall|v: int| 0 <= v < i ==> graph_nodes(graph)[v] == v,
                forall|v: int| 0 <= v < i ==> lookup(fs, fs[v].name) is Some,
                graph_edges(graph).len() == 0,
            decreases formulae@.len() - i,
        {
            proof {
                lemma_own_name_resolves(fs, i as int);
                assert(fs[i as int].name == formulae@[i as int].name@);
            }
            if formulae_map.get(formulae[i].name.as_str()).is_some() {
                add_node(&mut graph, i);
            }
            i = i + 1;
        }
        let mut dependency_graph = HomebrewGraph { graph, formulae_map };
        dependency_graph.build_graph_edges(formulae);
        proof {
            dependency_graph.lemma_shape();
        }
        dependency_graph
    }

    fn build_graph_edges(&mut self, formulae: &[HomebrewFormula])
        requires
            old(self).formulae_map.wf(),
            old(self).formulae() == models(formulae@),
            formulae@.len() < MAX_INDEX,
            dependency_count(models(formulae@), formulae@.len() as int) < MAX_INDEX,
            graph_nodes(old(self).graph).len() == formulae@.len(),
            forall|v: int|
                0 <= v < formulae@.len() ==> graph_nodes(old(self).graph)[v] == v,
            forall|v: int|
                0 <= v < formulae@.len() ==> lookup(models(formulae@), models(formulae@)[v].name) is Some,
            graph_edges(old(self).graph).len() == 0,
        ensures
            final(self).wf(),
            final(self).formulae() == old(self).formulae(),
            final(self).edges() == resolved_edges(models(formulae@), formulae@.len() as int),
    {
        let ghost fs = models(formulae@);
        let ghost nodes = graph_nodes(self.graph);
        let mut source_idx: usize = 0;
        while source_idx < formulae.len()
            invariant
                self.formulae_map.wf(),
                self.formulae() == fs,
                fs == models(formulae@),
                formulae@.len() < MAX_INDEX,
                dependency_count(fs, fs.len() as int) < MAX_INDEX,
                graph_nodes(self.graph) == nodes,
                nodes.len() == fs.len(),
                forall|v: int| 0 <= v < fs.len() ==> nodes[v] == v,
                forall|v: int| 0 <= v < fs.len() ==> lookup(fs, fs[v].name) is Some,
                source_idx <= fs.len(),
                graph_edges(self.graph) == resolved_edges(fs, source_idx as int),
                graph_edges(self.graph).len() <= dependency_count(fs, source_idx as int),
                forall|k: int|
                    0 <= k < graph_edges(self.graph).len() ==> depends_on(
                        fs,
                        (#[trigger] graph_edges(self.graph)[k]).0 as int,
                        graph_edges(self.graph)[k].1 as int,
                    ),
                forall|a: usize, b: usize|
                    a < source_idx && #[trigger] depends_on(fs, a as int, b as int)
                        ==> graph_edges(self.graph).contains((a, b)),
            decreases formulae@.len() - source_idx,
        {
            let formula = &formulae[source_idx];
            let ghost before = graph_edges(self.graph);
            proof {
                assert(resolved_edges(fs, source_idx as int) + resolved_from(fs, source_idx as int, 0)
                    =~= resolved_edges(fs, source_idx as int));
                assert(formula.dependencies@.len() == fs[source_idx as int].dependencies.len());
            }
            let mut d: usize = 0;
            while d < formula.dependencies.len()
                invariant
                    self.formulae_map.wf(),
                    self.formulae() == fs,
                    fs == models(formulae@),
                    formulae@.len() < MAX_INDEX,
                    dependency_count(fs, fs.len() as int) < MAX_INDEX,
                    graph_nodes(self.graph) == nodes,
                    nodes.len() == fs.len(),
                    source_idx < fs.len(),
                    formula == formulae@[source_idx as int],
                    d <= formula.dependencies@.len(),
                    graph_edges(self.graph) == resolved_edges(fs, source_idx as int) + resolved_from(
                        fs,
                        source_idx as int,
                        d as int,
                    ),
                    graph_edges(self.graph).len() <= dependency_count(fs, source_idx as int) + d,
                    forall|k: int|
                        0 <= k < graph_edges(self.graph).len() ==> depends_on(
                            fs,
                            (#[trigger] graph_edges(self.graph)[k]).0 as int,
                            graph_edges(self.graph)[k].1 as int,
                        ),
                    forall|a: usize, b: usize|
                        a < source_idx && #[trigger] depends_on(fs, a as int, b as int)
                            ==> graph_edges(self.graph).contains((a, b)),
                    forall|dd: int|
                        0 <= dd < d && #[trigger] lookup(fs, fs[source_idx as int].dependencies[dd])
                            is Some ==> graph_edges(self.graph).contains(
                            (
                                source_idx,
                                lookup(fs, fs[source_idx as int].dependencies[dd])->0 as usize,
                            ),
                        ),
                decreases formula.dependencies@.len() - d,
            {
                let ghost prev = graph_edges(self.graph);
                proof {
                    assert(fs[source_idx as int].dependencies[d as int]
                        == formula.dependencies@[d as int]@);
                }
                if let Some(target_idx) = self.formulae_map.get(formula.dependencies[d].as_str()) {
                    proof {
                        lemma_dependency_count_mono(fs, source_idx + 1, fs.len() as int);
                    }
                    add_edge(&mut self.graph, source_idx, target_idx);
                    proof {
                        let e = graph_edges(self.graph);
                        assert(e.last() == (source_idx, target_idx));
                        assert(depends_on(fs, source_idx as int, target_idx as int));
                        assert forall|k: int| 0 <= k < e.len() implies depends_on(
                            fs,
                            (#[trigger] e[k]).0 as int,
                            e[k].1 as int,
                        ) by {
                            if k < prev.len() {
                                assert(e[k] == prev[k]);
                            }
                        }
                        assert forall|x: (usize, usize)| prev.contains(x) implies e.contains(x) by {
                            let k = choose|k: int| 0 <= k < prev.len() && prev[k] == x;
                            assert(e[k] == x);
                        }
                        assert(e.contains((source_idx, target_idx)));
                        assert(e =~= resolved_edges(fs, source_idx as int) + resolved_from(
                            fs,
                            source_idx as int,
                            d + 1,
                        ));
                    }
                } else {
                    proof {
                        assert(graph_edges(self.graph) =~= resolved_edges(fs, source_idx as int)
                            + resolved_from(fs, source_idx as int, d + 1));
                    }
                }
                d = d + 1;
            }
            proof {
                let e = graph_edges(self.graph);
                assert forall|a: usize, b: usize|
                    a < source_idx + 1 && #[trigger] depends_on(fs, a as int, b as int)
                        implies e.contains((a, b)) by {
                    if a == source_idx {
                        let dd = choose|dd: int|
                            0 <= dd < fs[a as int].dependencies.len() && lookup(
                                fs,
                                #[trigger] fs[a as int].dependencies[dd],
                            ) == Some(b as int);
                        assert(formula.dependencies@.len() == fs[a as int].dependencies.len());
                        assert(lookup(fs, fs[source_idx as int].dependencies[dd]) is Some);
                    }
                }
            }
            proof {
                assert(graph_edges(self.graph) =~= resolved_edges(fs, source_idx + 1));
            }
            source_idx = source_idx + 1;
        }
        proof {
            let e = graph_edges(self.graph);
            assert forall|a: usize, b: usize| #[trigger]
                depends_on(fs, a as int, b as int) implies e.contains((a, b)) by {
                assert(a < fs.len());
            }
        }
    }
}

impl HomebrewGraph {
    /// A backward path over the edges is a dependency chain.
    proof fn lemma_back_path_is_chain(&self, s: usize, v: usize)
        requires
            self.wf(),
            reaches_back(graph_edges(self.graph), s, v),
        ensures
            reaches(self.formulae(), s as int, v as int),
    {
        let fs = self.formulae();
        let edges = graph_edges(self.graph);
        let p = choose|p: Seq<usize>|
            p.len() >= 1 && p[0] == s && p.last() == v && forall|i: int|
                0 <= i < p.len() - 1 ==> #[trigger] edges.contains((p[i + 1], p[i]));
        let q = p.map_values(|x: usize| x as int);
        assert forall|i: int| 0 <= i < q.len() - 1 implies #[trigger] depends_on(fs, q[i + 1], q[i]) by {
            assert(edges.contains((p[i + 1], p[i])));
            let k = choose|k: int| 0 <= k < edges.len() && edges[k] == (p[i + 1], p[i]);
            assert(depends_on(fs, edges[k].0 as int, edges[k].1 as int));
        }
        assert(is_chain(fs, q));
        assert(q[0] == s as int && q.last() == v as int);
    }

    /// A dependency chain from an installed formula is a backward path over
    /// the edges.
    proof fn lemma_chain_is_back_path(&self, s: int, v: int)
        requires
            self.wf(),
            0 <= s < self.formulae().len(),
            reaches(self.formulae(), s, v),
        ensures
            0 <= v < self.formulae().len(),
            reaches_back(graph_edges(self.graph), s as usize, v as usize),
    {
        let fs = self.formulae();
        let edges = graph_edges(self.graph);
        let p = choose|p: Seq<int>| is_chain(fs, p) && p[0] == s && p.last() == v;
        assert forall|i: int| 0 <= i < p.len() implies 0 <= #[trigger] p[i] < fs.len() by {
            if i > 0 {
                assert(depends_on(fs, p[(i - 1) + 1], p[i - 1]));
            }
        }
        let q = p.map_values(|x: int| x as usize);
        assert forall|i: int| 0 <= i < q.len() - 1 implies #[trigger] edges.contains((q[i + 1], q[i])) by {
            assert(depends_on(fs, p[i + 1], p[i]));
            assert(0 <= p[i] < fs.len() && 0 <= p[i + 1] < fs.len());
            assert(q[i] as int == p[i] && q[i + 1] as int == p[i + 1]);
            assert(depends_on(fs, q[i + 1] as int, q[i] as int));
        }
        assert(0 <= p[p.len() - 1] < fs.len());
        assert(q[0] == s as usize && q.last() == v as usize);
    }

    /// The formulae that depend on the one `name` resolves to, directly or
    /// transitively, that formula excluded. Each is given by the weight of its
    /// node; an unknown name gives an empty result.
    pub fn resolve_dependants(&self, name: &str) -> (r: Vec<usize>)
        requires
            self.wf(),
        ensures
            r@.to_set() == dependant_set(self.formulae(), name@),
            forall|k: int| 0 <= k < r@.len() ==> #[trigger] r@[k] < self.formulae().len(),
            r@.no_duplicates(),
    {
        let mut dependants: Vec<usize> = Vec::new();
        let ghost fs = self.formulae();
        let start = match self.formulae_map.get(name) {
            Some(start) => start,
            None => {
                proof {
                    assert(dependants@.to_set() =~= dependant_set(fs, name@));
                }
                return dependants;
            },
        };
        let nodes = reverse_dfs(&self.graph, start);
        let mut i: usize = 0;
        while i < nodes.len()
            invariant
                self.wf(),
                fs == self.formulae(),
                graph_nodes(self.graph).len() == fs.len(),
                i <= nodes@.len(),
                forall|v: usize| nodes@.contains(v) ==> v < fs.len(),
                dependants@.len() == i,
                forall|k: int| 0 <= k < i ==> #[trigger] dependants@[k] == nodes@[k],
            decreases nodes@.len() - i,
        {
            proof {
                assert(nodes@.contains(nodes@[i as int]));
            }
            let w = node_weight(&self.graph, nodes[i]);
            dependants.push(w);
            i = i + 1;
        }
        proof {
            let s = start as int;
            assert(dependants@ =~= nodes@);
            assert forall|k: int| 0 <= k < dependants@.len() implies #[trigger] dependants@[k] < fs.len() by {
                assert(nodes@.contains(nodes@[k]));
            }
            assert forall|w: usize| dependants@.contains(w) implies #[trigger] dependant_set(fs, name@).contains(w) by {
                self.lemma_back_path_is_chain(start, w);
            }
            assert forall|w: usize| #[trigger] dependant_set(fs, name@).contains(w) implies dependants@.contains(w) by {
                self.lemma_chain_is_back_path(s, w as int);
                assert((w as int) as usize == w);
            }
            assert(dependants@.to_set() =~= dependant_set(fs, name@));
        }
        dependants
    }
}

/// A formula that depends on another is among that one's dependants, when
/// the other's name resolves to it.
pub proof fn lemma_dependency_gives_dependant(fs: Seq<FormulaModel>, a: usize, b: usize)
    requires
        lookup(fs, fs[b as int].name) == Some(b as int),
        depends_on(fs, a as int, b as int),
        a != b,
    ensures
        dependant_set(fs, fs[b as int].name).contains(a),
{
    lemma_reaches_self(fs, b as int);
    lemma_reaches_step(fs, b as int, b as int, a as int);
}

/// Dependants are transitive: if `a` depends on `b` and `b` on `c`, both `a`
/// and `b` are among the dependants of `c`, when `c`'s name resolves to it.
pub proof fn lemma_dependants_transitive(fs: Seq<FormulaModel>, a: usize, b: usize, c: usize)
    requires
        lookup(fs, fs[c as int].name) == Some(c as int),
        depends_on(fs, a as int, b as int),
        depends_on(fs, b as int, c as int),
        a != c,
        b != c,
    ensures
        dependant_set(fs, fs[c as int].name).contains(a),
        dependant_set(fs, fs[c as int].name).contains(b),
{
    let dd = choose|dd: int|
        0 <= dd < fs[b as int].dependencies.len() && lookup(fs, #[trigger] fs[b as int].dependencies[dd])
            == Some(c as int);
    lemma_lookup_declares(fs, fs[b as int].dependencies[dd]);
    lemma_reaches_self(fs, c as int);
    lemma_reaches_step(fs, c as int, c as int, b as int);
    lemma_reaches_step(fs, c as int, b as int, a as int);
}

/// A formula is never among its own dependants, cycles included.
pub proof fn lemma_not_own_dependant(fs: Seq<FormulaModel>, x: Seq<char>, s: usize)
    requires
        lookup(fs, x) == Some(s as int),
    ensures
        !dependant_set(fs, x).contains(s),
{
}

} // verus!
