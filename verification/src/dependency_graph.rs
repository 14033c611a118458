//! A directed graph of store dependencies, used to detect circular
//! dependencies and to compute the order in which stores are initialized.

use vstd::prelude::*;
use vstd::string::StringExecFns;
use crate::store::{Store, StoreId};
use crate::coordination::CoordinationError;

verus! {

/// The mathematical model of a dependency graph.
///
/// `stores` lists every store in the order it was first mentioned,
/// `deps[i]` lists the dependencies declared for `stores[i]` (in declaration
/// order, repetitions kept) and `names[i]` is the name registered for it.
pub struct GraphModel {
    pub stores: Seq<StoreId>,
    pub deps: Seq<Seq<StoreId>>,
    pub names: Seq<Seq<char>>,
}

impl GraphModel {
    /// Well-formedness: stores are distinct and every dependency is a store.
    pub open spec fn wf(self) -> bool {
        &&& self.stores.no_duplicates()
        &&& self.deps.len() == self.stores.len()
        &&& self.names.len() == self.stores.len()
        &&& forall|i: int, j: int|
            0 <= i < self.deps.len() && 0 <= j < self.deps[i].len() ==> self.stores.contains(
                #[trigger] self.deps[i][j],
            )
    }

    /// Whether `id` is a store of the graph.
    pub open spec fn contains(self, id: StoreId) -> bool {
        self.stores.contains(id)
    }

    /// The dependencies declared for `id` (empty for an unknown store).
    pub open spec fn dependencies(self, id: StoreId) -> Seq<StoreId> {
        if self.contains(id) {
            self.deps[self.stores.index_of(id)]
        } else {
            Seq::empty()
        }
    }

    /// `a` directly depends on `b`.
    pub open spec fn depends(self, a: StoreId, b: StoreId) -> bool {
        self.dependencies(a).contains(b)
    }

    /// The name registered for `id`, if `id` is a store of the graph.
    pub open spec fn name_of(self, id: StoreId) -> Option<Seq<char>> {
        if self.contains(id) {
            Some(self.names[self.stores.index_of(id)])
        } else {
            None
        }
    }

    /// `p` is a closed walk along dependency edges: a circular dependency.
    pub open spec fn is_cycle(self, p: Seq<StoreId>) -> bool {
        &&& p.len() >= 2
        &&& p[0] == p[p.len() - 1]
        &&& forall|k: int| 0 <= k < p.len() - 1 ==> #[trigger] self.depends(p[k], p[k + 1])
    }

    /// The name registered for `id`, or the empty text for an unknown
    /// store.
    pub open spec fn name_or_empty(self, id: StoreId) -> Seq<char> {
        match self.name_of(id) {
            Some(n) => n,
            None => Seq::empty(),
        }
    }

    /// The text naming the circular dependency `p`: the names of its
    /// stores in order, joined by arrows, back to the first one.
    pub open spec fn cycle_text(self, p: Seq<StoreId>) -> Seq<char> {
        joined(p.drop_last().map_values(|s: StoreId| self.name_or_empty(s))) + arrow()
            + self.name_or_empty(p.last())
    }

    /// `m` names some simple circular dependency of the graph: no store is
    /// passed twice, but for the first, which closes it.
    pub open spec fn names_cycle(self, m: Seq<char>) -> bool {
        exists|p: Seq<StoreId>|
            #[trigger] self.is_cycle(p) && p.drop_last().no_duplicates() && m == self.cycle_text(p)
    }

    /// Some stores depend on each other in a circle.
    pub open spec fn has_cycle(self) -> bool {
        exists|p: Seq<StoreId>| self.is_cycle(p)
    }

    /// `order` lists every store exactly once, each after all of its
    /// dependencies.
    pub open spec fn is_topological_order(self, order: Seq<StoreId>) -> bool {
        &&& order.no_duplicates()
        &&& forall|x: StoreId| self.stores.contains(x) <==> order.contains(x)
        &&& forall|i: int, j: int|
            0 <= i < order.len() && 0 <= j < order.len() && #[trigger] self.depends(
                order[i],
                order[j],
            ) ==> j < i
    }

    /// Some initialization order respects every dependency.
    pub open spec fn has_topological_order(self) -> bool {
        exists|order: Seq<StoreId>| self.is_topological_order(order)
    }

    /// The graph with `id` registered under `name` if it was not yet a store.
    pub open spec fn with_store(self, id: StoreId, name: Seq<char>) -> GraphModel {
        if self.contains(id) {
            self
        } else {
            GraphModel {
                stores: self.stores.push(id),
                deps: self.deps.push(Seq::empty()),
                names: self.names.push(name),
            }
        }
    }

    /// The graph after declaring that `source` depends on `dependency`.
    ///
    /// Both stores are registered (the dependency first); a name already
    /// registered for a store is kept; then `dependency` is appended to the
    /// dependencies of `source`.
    pub open spec fn with_dependency(
        self,
        source: StoreId,
        source_name: Seq<char>,
        dependency: StoreId,
        dependency_name: Seq<char>,
    ) -> GraphModel {
        let g = self.with_store(
            dependency,
            if dependency == source {
                source_name
            } else {
                dependency_name
            },
        ).with_store(source, source_name);
        let i = g.stores.index_of(source);
        GraphModel { stores: g.stores, deps: g.deps.update(i, g.deps[i].push(dependency)), names: g.names }
    }

    /// The stores that directly depend on `id`, in registration order.
    pub open spec fn dependents_of(self, id: StoreId) -> Seq<StoreId> {
        self.stores.filter(|s: StoreId| self.depends(s, id))
    }
}

/// The arrow that separates store names in a cycle description.
pub open spec fn arrow() -> Seq<char> {
    seq![' ', '\u{2192}', ' ']
}

/// `parts` joined by arrows; an empty text so far takes no arrow.
pub open spec fn joined(parts: Seq<Seq<char>>) -> Seq<char>
    decreases parts.len(),
{
    if parts.len() == 0 {
        Seq::empty()
    } else {
        let m = joined(parts.drop_last());
        if m.len() > 0 {
            m + arrow() + parts.last()
        } else {
            parts.last()
        }
    }
}

/// The names of the first `k` stores of `path`, from the first occurrence
/// of `dep` on.
pub open spec fn names_from(names: Seq<Seq<char>>, path: Seq<usize>, dep: usize, k: int) -> Seq<Seq<char>>
    decreases k,
{
    if k <= 0 {
        Seq::empty()
    } else {
        let before = names_from(names, path, dep, k - 1);
        if before.len() > 0 || path[k - 1] == dep {
            before.push(names[path[k - 1] as int])
        } else {
            before
        }
    }
}

/// From the first occurrence `k0` of `dep` on, `names_from` lists the
/// names along the path.
proof fn lemma_names_from_tail(names: Seq<Seq<char>>, path: Seq<usize>, dep: usize, k0: int, k: int)
    requires
        0 <= k0 < path.len(),
        path[k0] == dep,
        forall|j: int| 0 <= j < k0 ==> path[j] != dep,
        0 <= k <= path.len(),
    ensures
        names_from(names, path, dep, k) == if k <= k0 {
            Seq::<Seq<char>>::empty()
        } else {
            path.subrange(k0, k).map_values(|x: usize| names[x as int])
        },
    decreases k,
{
    if k > 0 {
        lemma_names_from_tail(names, path, dep, k0, k - 1);
        if k - 1 >= k0 {
            assert(path.subrange(k0, k).map_values(|x: usize| names[x as int]) =~= path.subrange(
                k0,
                k - 1,
            ).map_values(|x: usize| names[x as int]).push(names[path[k - 1] as int]));
        }
    }
}

/// A topological order rules out every circular dependency.
pub proof fn lemma_topological_order_excludes_cycles(g: GraphModel, order: Seq<StoreId>)
    requires
        g.wf(),
        g.is_topological_order(order),
    ensures
        !g.has_cycle(),
{
    if g.has_cycle() {
        let p = choose|p: Seq<StoreId>| g.is_cycle(p);
        // every store on the walk sits strictly before the walk's start
        assert forall|k: int| 1 <= k < p.len() implies order.index_of(p[k]) < order.index_of(p[0])
            && order.contains(p[k]) by {
            lemma_walk_descends(g, order, p, k);
        }
        let last = p.len() - 1;
        lemma_walk_descends(g, order, p, last);
    }
}

proof fn lemma_dependency_is_store(g: GraphModel, a: StoreId, b: StoreId)
    requires
        g.wf(),
        g.depends(a, b),
    ensures
        g.contains(a),
        g.contains(b),
{
    let i = g.stores.index_of(a);
    let j = choose|j: int| 0 <= j < g.deps[i].len() && g.deps[i][j] == b;
    assert(g.stores.contains(g.deps[i][j]));
}

proof fn lemma_walk_descends(g: GraphModel, order: Seq<StoreId>, p: Seq<StoreId>, k: int)
    requires
        g.wf(),
        g.is_topological_order(order),
        g.is_cycle(p),
        1 <= k < p.len(),
    ensures
        order.contains(p[k]),
        order.contains(p[0]),
        order.index_of(p[k]) < order.index_of(p[0]),
    decreases k,
{
    let k1 = k - 1;
    assert(g.depends(p[k1], p[k1 + 1]));
    assert(k1 + 1 == k);
    lemma_dependency_is_store(g, p[k - 1], p[k]);
    assert(order.contains(p[k - 1]));
    assert(order.contains(p[k]));
    let a = order.index_of(p[k - 1]);
    let b = order.index_of(p[k]);
    assert(order[a] == p[k - 1]);
    assert(order[b] == p[k]);
    assert(b < a);
    if k > 1 {
        lemma_walk_descends(g, order, p, k - 1);
    }
}

/// A directed acyclic graph of store dependencies for initialization ordering.
///
/// Declare that one store depends on another, check that no circular
/// dependency exists, and compute an initialization order in which every
/// store comes after the stores it depends on.
pub struct StoreDependencyGraph {
    /// Registered stores, in the order they were first mentioned.
    ids: Vec<StoreId>,
    /// `deps[i]` holds the positions (in `ids`) of the dependencies of `ids[i]`.
    deps: Vec<Vec<usize>>,
    /// `names[i]` is the human-readable name of `ids[i]`.
    names: Vec<&'static str>,
}

impl View for StoreDependencyGraph {
    type V = GraphModel;

    closed spec fn view(&self) -> GraphModel {
        GraphModel {
            stores: self.ids@,
            deps: Seq::new(
                self.deps@.len(),
                |i: int| self.deps@[i]@.map_values(|k: usize| self.ids@[k as int]),
            ),
            names: Seq::new(self.names@.len(), |i: int| self.names@[i]@),
        }
    }
}

impl StoreDependencyGraph {
    /// Internal consistency of the representation.
    pub closed spec fn inv(&self) -> bool {
        &&& self.ids@.no_duplicates()
        &&& self.ids.len() == self.ids@.len()
        &&& self.deps@.len() == self.ids@.len()
        &&& self.names@.len() == self.ids@.len()
        &&& forall|i: int, j: int|
            0 <= i < self.deps@.len() && 0 <= j < self.deps@[i]@.len() ==> #[trigger] self.deps@[i]@[j]
                < self.ids@.len()
    }

    /// Positions inside the graph: `b` is among the dependencies of `a`.
    closed spec fn edge(&self, a: int, b: usize) -> bool {
        self.deps@[a]@.contains(b)
    }

    proof fn lemma_model(&self)
        requires
            self.inv(),
        ensures
            self@.wf(),
            self@.stores == self.ids@,
            self@.deps.len() == self.ids@.len(),
            forall|i: int| 0 <= i < self.ids@.len() ==> self@.stores.index_of(#[trigger] self.ids@[i]) == i,
    {
        let m = self@;
        assert forall|i: int| 0 <= i < self.ids@.len() implies m.stores.index_of(
            #[trigger] self.ids@[i],
        ) == i by {
            assert(m.stores.contains(self.ids@[i]));
            let k = m.stores.index_of(self.ids@[i]);
            assert(m.stores[k] == self.ids@[i]);
        }
        assert forall|i: int, j: int|
            0 <= i < m.deps.len() && 0 <= j < m.deps[i].len() implies m.stores.contains(
            #[trigger] m.deps[i][j],
        ) by {
            let k = self.deps@[i]@[j];
            assert(m.deps[i][j] == self.ids@[k as int]);
        }
    }

    /// `depends` in the model is `edge` between positions.
    proof fn lemma_depends_edge(&self, a: int, b: usize)
        requires
            self.inv(),
            0 <= a < self.ids@.len(),
            0 <= b < self.ids@.len(),
        ensures
            self@.depends(self.ids@[a], self.ids@[b as int]) <==> self.edge(a, b),
    {
        self.lemma_model();
        let m = self@;
        assert(m.stores.index_of(self.ids@[a]) == a);
        assert(m.contains(self.ids@[a]));
        let d = self.deps@[a]@;
        assert(m.dependencies(self.ids@[a]) == d.map_values(|k: usize| self.ids@[k as int]));
        if self.edge(a, b) {
            let j = choose|j: int| 0 <= j < d.len() && d[j] == b;
            assert(d.map_values(|k: usize| self.ids@[k as int])[j] == self.ids@[d[j] as int]);
            assert(m.dependencies(self.ids@[a])[j] == self.ids@[b as int]);
        }
        if m.depends(self.ids@[a], self.ids@[b as int]) {
            let deps_a = m.dependencies(self.ids@[a]);
            let j = choose|j: int| 0 <= j < deps_a.len() && deps_a[j] == self.ids@[b as int];
            assert(d[j] < self.ids@.len());
            assert(self.ids@[d[j] as int] == self.ids@[b as int]);
            assert(d[j] == b);
        }
    }

    /// Create an empty dependency graph.
    pub fn new() -> (g: StoreDependencyGraph)
        ensures
            g.inv(),
            g@.stores.len() == 0,
            g@.wf(),
    {
        let g = StoreDependencyGraph { ids: Vec::new(), deps: Vec::new(), names: Vec::new() };
        proof {
            g.lemma_model();
        }
        g
    }

    /// Position of `id` among the registered stores.
    fn find(&self, id: StoreId) -> (r: Option<usize>)
        requires
            self.inv(),
        ensures
            match r {
                Some(i) => i < self.ids@.len() && self.ids@[i as int] == id,
                None => !self.ids@.contains(id),
            },
    {
        let n = self.ids.len();
        let mut i: usize = 0;
        while i < n
            invariant
                n == self.ids@.len(),
                i <= n,
                forall|k: int| 0 <= k < i ==> self.ids@[k] != id,
            decreases n - i,
        {
            if self.ids[i] == id {
                return Some(i);
            }
            i = i + 1;
        }
        None
    }

    /// Register `id` under `name` unless it is already a store; return its
    /// position.
    fn ensure_store(&mut self, id: StoreId, name: &'static str) -> (idx: usize)
        requires
            old(self).inv(),
        ensures
            final(self).inv(),
            final(self)@ == old(self)@.with_store(id, name@),
            idx < final(self).ids@.len(),
            final(self).ids@[idx as int] == id,
    {
        match self.find(id) {
            Some(i) => {
                assert(self@.contains(id));
                i
            },
            None => {
                let ghost old_self = *self;
                let idx = self.ids.len();
                self.ids.push(id);
                self.deps.push(Vec::new());
                self.names.push(name);
                proof {
                    assert(self.ids@ == old_self.ids@.push(id));
                    assert forall|i: int, j: int|
                        0 <= i < self.deps@.len() && 0 <= j < self.deps@[i]@.len() implies #[trigger] self.deps@[i]@[j]
                        < self.ids@.len() by {
                        if i < old_self.deps@.len() {
                            assert(self.deps@[i] == old_self.deps@[i]);
                        }
                    }
                    let m = self@;
                    let om = old_self@.with_store(id, name@);
                    assert(m.deps =~= om.deps) by {
                        assert forall|i: int| 0 <= i < m.deps.len() implies m.deps[i] =~= om.deps[i] by {
                            if i < old_self.deps@.len() {
                                assert(self.deps@[i] == old_self.deps@[i]);
                            }
                        }
                    }
                    assert(m.names =~= om.names);
                    assert(m.stores =~= om.stores);
                }
                idx
            },
        }
    }

    /// Declare that `source` depends on `dependency`, given the stores'
    /// identifiers and names.
    ///
    /// This means `dependency` should be initialized before `source`.
    pub fn depends_on_ids(
        &mut self,
        source: StoreId,
        source_name: &'static str,
        dependency: StoreId,
        dependency_name: &'static str,
    )
        requires
            old(self).inv(),
        ensures
            final(self).inv(),
            final(self)@ == old(self)@.with_dependency(
                source,
                source_name@,
                dependency,
                dependency_name@,
            ),
    {
        let dep_name = if dependency == source {
            source_name
        } else {
            dependency_name
        };
        let di = self.ensure_store(dependency, dep_name);
        let ghost mid = *self;
        let si = self.ensure_store(source, source_name);
        proof {
            self.lemma_model();
            assert(di < self.ids@.len());
        }
        let ghost before = *self;
        let mut list = Vec::new();
        std::mem::swap(&mut list, &mut self.deps[si]);
        list.push(di);
        std::mem::swap(&mut list, &mut self.deps[si]);
        proof {
            let m = self@;
            let b = before@;
            assert(self.ids@ == before.ids@);
            assert(self.deps@ == before.deps@.update(si as int, self.deps@[si as int]));
            assert(self.deps@[si as int]@ == before.deps@[si as int]@.push(di));
            assert(b.stores.index_of(source) == si as int);
            let target = b.deps.update(si as int, b.deps[si as int].push(dependency));
            assert(m.deps =~= target) by {
                assert forall|i: int| 0 <= i < m.deps.len() implies m.deps[i] =~= target[i] by {
                    if i != si as int {
                        assert(self.deps@[i] == before.deps@[i]);
                    }
                }
            }
            assert(m.names =~= b.names);
        }
    }

    /// Declare that `source` depends on `dependency`.
    ///
    /// This means `dependency` should be initialized before `source`. The
    /// graph changes as `depends_on_ids` describes, for the identifiers and
    /// names that the two stores report.
    pub fn depends_on<Source: Store, Dep: Store>(&mut self, source: &Source, dependency: &Dep) -> (r: &mut Self)
        requires
            old(self).inv(),
        ensures
            r.inv(),
            exists|s: StoreId, sn: &'static str, d: StoreId, dn: &'static str|
                source.has_id(s) && source.has_name(sn) && dependency.has_id(d) && dependency.has_name(dn)
                    && r@ == #[trigger] old(self)@.with_dependency(s, sn@, d, dn@),
            *final(self) == *final(r),
    {
        let source_id = source.id();
        let source_name = source.name();
        let dep_id = dependency.id();
        let dep_name = dependency.name();
        self.depends_on_ids(source_id, source_name, dep_id, dep_name);
        self
    }

    /// Get the human-readable name for a store ID (if registered).
    pub fn store_name(&self, store_id: StoreId) -> (r: Option<&'static str>)
        requires
            self.inv(),
        ensures
            match r {
                Some(n) => self@.name_of(store_id) == Some(n@),
                None => self@.name_of(store_id) is None,
            },
    {
        proof {
            self.lemma_model();
        }
        match self.find(store_id) {
            Some(i) => Some(self.names[i]),
            None => None,
        }
    }

    /// Get the number of stores in the graph.
    pub fn len(&self) -> (r: usize)
        ensures
            r == self@.stores.len(),
    {
        self.ids.len()
    }

    /// Check if the graph is empty.
    pub fn is_empty(&self) -> (r: bool)
        ensures
            r == (self@.stores.len() == 0),
    {
        self.ids.len() == 0
    }


    /// Invariant of the depth-first search for cycles.
    ///
    /// `path` is the current chain of positions (each depends on the next),
    /// `fin` the positions whose search finished, each after all of its
    /// dependencies; `visited` and `rec_stack` mirror `path` and `fin`.
    closed spec fn search_inv(
        &self,
        visited: Seq<bool>,
        rec_stack: Seq<bool>,
        path: Seq<usize>,
        fin: Seq<usize>,
    ) -> bool {
        let n = self.ids@.len();
        &&& visited.len() == n
        &&& rec_stack.len() == n
        &&& path.no_duplicates()
        &&& fin.no_duplicates()
        &&& forall|k: int| 0 <= k < path.len() ==> #[trigger] path[k] < n
        &&& forall|k: int| 0 <= k < fin.len() ==> #[trigger] fin[k] < n
        &&& forall|i: int| 0 <= i < n ==> (#[trigger] rec_stack[i] <==> path.contains(i as usize))
        &&& forall|i: int|
            0 <= i < n ==> (#[trigger] visited[i] <==> (path.contains(i as usize) || fin.contains(
                i as usize,
            )))
        &&& forall|k: int, m: int|
            0 <= k < path.len() && 0 <= m < fin.len() ==> #[trigger] path[k] != #[trigger] fin[m]
        &&& forall|k: int| 0 <= k < path.len() - 1 ==> #[trigger] self.edge(path[k] as int, path[k + 1])
        &&& forall|k: int, j: int|
            0 <= k < fin.len() && 0 <= j < self.deps@[fin[k] as int]@.len() ==> fin.subrange(
                0,
                k,
            ).contains(#[trigger] self.deps@[fin[k] as int]@[j])
    }

    /// Text naming the stores of a circular dependency: the names along
    /// `path` from the first occurrence of `dep`, then the name of `dep`,
    /// separated by arrows.
    fn cycle_description(&self, path: &Vec<usize>, dep: usize) -> (r: String)
        requires
            self.inv(),
            dep < self.ids@.len(),
            forall|k: int| 0 <= k < path@.len() ==> #[trigger] path@[k] < self.ids@.len(),
        ensures
            r@ == joined(names_from(self@.names, path@, dep, path@.len() as int)) + arrow() + self@.names[dep as int],
    {
        let mut msg = String::new();
        let mut started = false;
        let n = path.len();
        let mut k: usize = 0;
        while k < n
            invariant
                n == path@.len(),
                k <= n,
                self.inv(),
                dep < self.ids@.len(),
                forall|k: int| 0 <= k < path@.len() ==> #[trigger] path@[k] < self.ids@.len(),
                started <==> names_from(self@.names, path@, dep, k as int).len() > 0,
                msg@ == joined(names_from(self@.names, path@, dep, k as int)),
            decreases n - k,
        {
            let node = path[k];
            if node == dep {
                started = true;
            }
            if started {
                if !msg.as_str().is_empty() {
                    msg.append(" \u{2192} ");
                }
                msg.append(self.names[node]);
            }
            proof {
                reveal_strlit(" \u{2192} ");
                let parts = names_from(self@.names, path@, dep, k + 1);
                if started {
                    assert(parts.drop_last() =~= names_from(self@.names, path@, dep, k as int));
                }
            }
            k = k + 1;
        }
        msg.append(" \u{2192} ");
        msg.append(self.names[dep]);
        proof {
            reveal_strlit(" \u{2192} ");
        }
        msg
    }

    /// Depth-first search from `node`: report a circular dependency reachable
    /// from it, or finish `node` and everything reachable from it.
    fn dfs_cycle_check(
        &self,
        node: usize,
        visited: &mut Vec<bool>,
        rec_stack: &mut Vec<bool>,
        path: &mut Vec<usize>,
        Ghost(fin): Ghost<Seq<usize>>,
        Ghost(budget): Ghost<nat>,
    ) -> (r: (Result<(), CoordinationError>, Ghost<Seq<usize>>))
        requires
            self.inv(),
            budget == count_false(old(visited)@),
            self.search_inv(old(visited)@, old(rec_stack)@, old(path)@, fin),
            node < self.ids@.len(),
            !old(visited)@[node as int],
            old(path)@.len() > 0 ==> self.edge(old(path)@.last() as int, node),
        ensures
            r.0 is Ok ==> {
                &&& self.search_inv(final(visited)@, final(rec_stack)@, final(path)@, r.1@)
                &&& final(path)@ == old(path)@
                &&& fin.len() <= r.1@.len()
                &&& r.1@.subrange(0, fin.len() as int) == fin
                &&& r.1@.contains(node)
                &&& forall|i: int|
                    0 <= i < old(visited)@.len() && #[trigger] old(visited)@[i]
                        ==> final(visited)@[i]
            },
            r.0 matches Err(e) ==> self@.has_cycle() && (e matches CoordinationError::CircularDependency(m)
                && self@.names_cycle(m@)),
        decreases budget,
    {
        let ghost visited0 = visited@;
        let ghost path0 = path@;
        let ghost n = self.ids@.len();
        proof {
            lemma_count_false_set(visited@, node as int);
        }
        visited.set(node, true);
        rec_stack.set(node, true);
        path.push(node);
        let ghost mut f = fin;
        proof {
            assert(path@ == path0.push(node));
            assert forall|k: int| 0 <= k < path@.len() - 1 implies #[trigger] self.edge(
                path@[k] as int,
                path@[k + 1],
            ) by {
                if k < path0.len() - 1 {
                    assert(path@[k] == path0[k] && path@[k + 1] == path0[k + 1]);
                } else {
                    assert(path@[k] == path0.last() && path@[k + 1] == node);
                }
            }
            assert forall|i: int| 0 <= i < n implies (#[trigger] rec_stack@[i] <==> path@.contains(
                i as usize,
            )) by {
                if i == node as int {
                    assert(path@[path0.len() as int] == node);
                } else {
                    if path@.contains(i as usize) {
                        let k = choose|k: int| 0 <= k < path@.len() && path@[k] == i as usize;
                        assert(path@[path0.len() as int] == node);
                        assert(k < path0.len());
                        assert(path0[k] == i as usize);
                    }
                    if path0.contains(i as usize) {
                        let k = choose|k: int| 0 <= k < path0.len() && path0[k] == i as usize;
                        assert(path@[k] == i as usize);
                    }
                }
            }
            assert forall|i: int| 0 <= i < n implies (#[trigger] visited@[i] <==> (path@.contains(
                i as usize,
            ) || f.contains(i as usize))) by {
                if i == node as int {
                    assert(path@[path0.len() as int] == node);
                } else {
                    if path@.contains(i as usize) {
                        let k = choose|k: int| 0 <= k < path@.len() && path@[k] == i as usize;
                        assert(path@[path0.len() as int] == node);
                        assert(k < path0.len());
                        assert(path0[k] == i as usize);
                    }
                    if path0.contains(i as usize) {
                        let k = choose|k: int| 0 <= k < path0.len() && path0[k] == i as usize;
                        assert(path@[k] == i as usize);
                    }
                }
            }
            assert forall|k: int, m: int| 0 <= k < path@.len() && 0 <= m < f.len() implies #[trigger] path@[k]
                != #[trigger] f[m] by {
                if k == path0.len() as int {
                    assert(!visited0[node as int]);
                    assert(f.contains(f[m]));
                }
            }
        }
        let deps_len = self.deps[node].len();
        let mut j: usize = 0;
        while j < deps_len
            invariant
                self.inv(),
                n == self.ids@.len(),
                node < n,
                deps_len == self.deps@[node as int]@.len(),
                j <= deps_len,
                path@ == path0.push(node),
                self.search_inv(visited@, rec_stack@, path@, f),
                fin.len() <= f.len(),
                f.subrange(0, fin.len() as int) == fin,
                visited@.len() == visited0.len(),
                forall|i: int| 0 <= i < visited0.len() && #[trigger] visited0[i] ==> visited@[i],
                visited@[node as int],
                count_false(visited@) < count_false(visited0),
                budget == count_false(visited0),
                forall|jj: int| 0 <= jj < j ==> f.contains(#[trigger] self.deps@[node as int]@[jj]),
            decreases deps_len - j,
        {
            let dep = self.deps[node][j];
            if !visited[dep] {
                proof {
                    assert(self.deps@[node as int]@[j as int] == dep);
                    assert(self.edge(path@.last() as int, dep));
                }
                let ghost visited1 = visited@;
                let ghost f1 = f;
                let ghost budget1 = count_false(visited@);
                let (res, Ghost(f2)) = self.dfs_cycle_check(dep, visited, rec_stack, path, Ghost(f), Ghost(budget1));
                match res {
                    Err(e) => {
                        return (Err(e), Ghost(f2));
                    },
                    Ok(()) => {},
                }
                proof {
                    f = f2;
                    assert forall|i: int| 0 <= i < visited0.len() && #[trigger] visited0[i] implies visited@[i] by {
                        assert(visited1[i]);
                    }
                    assert forall|i: int| 0 <= i < visited1.len() && #[trigger] visited1[i] implies visited@[i] by {}
                    lemma_count_false_mono(visited1, visited@, 0);
                    assert(f.subrange(0, fin.len() as int) =~= f.subrange(0, f1.len() as int).subrange(0, fin.len() as int));
                    assert forall|jj: int| 0 <= jj < j + 1 implies f.contains(#[trigger] self.deps@[node as int]@[jj]) by {
                        if jj < j {
                            let x = self.deps@[node as int]@[jj];
                            let m = choose|m: int| 0 <= m < f1.len() && f1[m] == x;
                            assert(f.subrange(0, f1.len() as int)[m] == x);
                        }
                    }
                }
            } else if rec_stack[dep] {
                let msg = self.cycle_description(path, dep);
                proof {
                    self.lemma_cycle_from_stack(path@, dep, j as int);
                }
                return (Err(CoordinationError::CircularDependency(msg)), Ghost(f));
            } else {
                proof {
                    assert(visited@[dep as int]);
                    assert(!path@.contains(dep));
                }
            }
            j = j + 1;
        }
        let ghost f_before = f;
        path.pop();
        rec_stack.set(node, false);
        proof {
            f = f.push(node);
            assert(path@ == path0);
            assert(f.subrange(0, fin.len() as int) =~= f_before.subrange(0, fin.len() as int));
            assert(!f_before.contains(node)) by {
                if f_before.contains(node) {
                    let m = choose|m: int| 0 <= m < f_before.len() && f_before[m] == node;
                    assert(path0.push(node)[path0.len() as int] == node);
                }
            }
            assert(f.no_duplicates());
            assert forall|k: int, jj: int|
                0 <= k < f.len() && 0 <= jj < self.deps@[f[k] as int]@.len() implies f.subrange(
                0,
                k,
            ).contains(#[trigger] self.deps@[f[k] as int]@[jj]) by {
                if k < f_before.len() {
                    assert(f.subrange(0, k) =~= f_before.subrange(0, k));
                    assert(f[k] == f_before[k]);
                } else {
                    assert(f.subrange(0, k) =~= f_before);
                    assert(f[k] == node);
                    assert(f_before.contains(self.deps@[node as int]@[jj]));
                }
            }
            assert forall|i: int| 0 <= i < n implies (#[trigger] rec_stack@[i] <==> path@.contains(
                i as usize,
            )) by {
                if path0.push(node).contains(i as usize) && i != node as int {
                    let k = choose|k: int| 0 <= k < path0.len() + 1 && path0.push(node)[k] == i as usize;
                    assert(path0[k] == i as usize);
                }
                if path0.contains(i as usize) {
                    let k = choose|k: int| 0 <= k < path0.len() && path0[k] == i as usize;
                    assert(path0.push(node)[k] == i as usize);
                }
                if i == node as int {
                    assert(!path0.contains(node)) by {
                        if path0.contains(node) {
                            let k = choose|k: int| 0 <= k < path0.len() && path0[k] == node;
                            assert(path0.push(node)[k] == path0.push(node)[path0.len() as int]);
                        }
                    }
                }
            }
            assert forall|i: int| 0 <= i < n implies (#[trigger] visited@[i] <==> (path@.contains(
                i as usize,
            ) || f.contains(i as usize))) by {
                if path0.push(node).contains(i as usize) && i != node as int {
                    let k = choose|k: int| 0 <= k < path0.len() + 1 && path0.push(node)[k] == i as usize;
                    assert(path0[k] == i as usize);
                }
                if path0.contains(i as usize) {
                    let k = choose|k: int| 0 <= k < path0.len() && path0[k] == i as usize;
                    assert(path0.push(node)[k] == i as usize);
                }
                if f_before.contains(i as usize) {
                    let m = choose|m: int| 0 <= m < f_before.len() && f_before[m] == i as usize;
                    assert(f[m] == i as usize);
                }
                if f.contains(i as usize) && i != node as int {
                    let m = choose|m: int| 0 <= m < f.len() && f[m] == i as usize;
                    assert(f_before[m] == i as usize);
                }
                if i == node as int {
                    assert(f[f_before.len() as int] == node);
                }
            }
            assert forall|k: int, m: int| 0 <= k < path@.len() && 0 <= m < f.len() implies #[trigger] path@[k]
                != #[trigger] f[m] by {
                assert(path@[k] == path0.push(node)[k]);
                if m < f_before.len() {
                    assert(f[m] == f_before[m]);
                } else {
                    assert(!path0.contains(node)) by {
                        if path0.contains(node) {
                            let kk = choose|kk: int| 0 <= kk < path0.len() && path0[kk] == node;
                            assert(path0.push(node)[kk] == path0.push(node)[path0.len() as int]);
                        }
                    }
                    assert(path0[k] != node);
                }
            }
            assert forall|k: int| 0 <= k < path@.len() - 1 implies #[trigger] self.edge(path@[k] as int, path@[k + 1]) by {
                assert(path@[k] == path0.push(node)[k]);
                assert(path@[k + 1] == path0.push(node)[k + 1]);
            }
            assert(f[f.len() - 1] == node);
            assert forall|i: int| 0 <= i < visited0.len() && #[trigger] visited0[i] implies visited@[i] by {}
        }
        (Ok(()), Ghost(f))
    }

    /// A dependency that is already on the search path closes a cycle.
    proof fn lemma_cycle_from_stack(&self, path: Seq<usize>, dep: usize, j: int)
        requires
            self.inv(),
            path.len() > 0,
            forall|k: int| 0 <= k < path.len() ==> #[trigger] path[k] < self.ids@.len(),
            forall|k: int| 0 <= k < path.len() - 1 ==> #[trigger] self.edge(path[k] as int, path[k + 1]),
            path.contains(dep),
            path.no_duplicates(),
            0 <= j < self.deps@[path.last() as int]@.len(),
            self.deps@[path.last() as int]@[j] == dep,
        ensures
            self@.has_cycle(),
            self@.names_cycle(
                joined(names_from(self@.names, path, dep, path.len() as int)) + arrow() + self@.names[dep as int],
            ),
    {
        self.lemma_model();
        path.index_of_first_ensures(dep);
        let k0 = path.index_of_first(dep)->0;
        let tail = path.subrange(k0, path.len() as int);
        let p = tail.map_values(|x: usize| self.ids@[x as int]).push(self.ids@[dep as int]);
        lemma_names_from_tail(self@.names, path, dep, k0, path.len() as int);
        let parts = tail.map_values(|x: usize| self@.names[x as int]);
        assert(p.drop_last().map_values(|s: StoreId| self@.name_or_empty(s)) =~= parts) by {
            assert forall|m: int| 0 <= m < parts.len() implies p.drop_last().map_values(
                |s: StoreId| self@.name_or_empty(s),
            )[m] == #[trigger] parts[m] by {
                assert(p[m] == self.ids@[tail[m] as int]);
                assert(self@.stores.index_of(self.ids@[tail[m] as int]) == tail[m] as int);
            }
        }
        assert(self@.stores.index_of(self.ids@[dep as int]) == dep as int);
        assert(self@.name_or_empty(p.last()) == self@.names[dep as int]);
        assert(p.len() >= 2);
        assert(p[0] == self.ids@[dep as int]);
        assert(p[p.len() - 1] == self.ids@[dep as int]);
        assert forall|m: int| 0 <= m < p.len() - 1 implies #[trigger] self@.depends(p[m], p[m + 1]) by {
            if m < tail.len() - 1 {
                assert(p[m] == self.ids@[path[k0 + m] as int]);
                assert(p[m + 1] == self.ids@[path[k0 + m + 1] as int]);
                assert(self.edge(path[k0 + m] as int, path[k0 + m + 1]));
                self.lemma_depends_edge(path[k0 + m] as int, path[k0 + m + 1]);
            } else {
                assert(p[m] == self.ids@[path.last() as int]);
                assert(p[m + 1] == self.ids@[dep as int]);
                assert(self.edge(path.last() as int, dep));
                self.lemma_depends_edge(path.last() as int, dep);
            }
        }
        assert(self@.is_cycle(p));
        assert(p.drop_last().no_duplicates()) by {
            assert forall|a: int, b: int| 0 <= a < b < p.drop_last().len() implies p.drop_last()[a]
                != p.drop_last()[b] by {
                assert(p.drop_last()[a] == self.ids@[tail[a] as int]);
                assert(p.drop_last()[b] == self.ids@[tail[b] as int]);
                assert(tail[a] != tail[b]);
                assert(self@.stores.no_duplicates());
            }
        }
        assert(self@.cycle_text(p) == joined(names_from(self@.names, path, dep, path.len() as int)) + arrow()
            + self@.names[dep as int]);
    }

    /// Validate the graph: detect circular dependencies by depth-first
    /// search.
    ///
    /// Succeeds exactly when no store depends on itself through a chain of
    /// dependencies; on success an initialization order exists.
    pub fn validate(&self) -> (r: Result<(), CoordinationError>)
        requires
            self.inv(),
        ensures
            r is Ok <==> !self@.has_cycle(),
            r is Ok ==> self@.has_topological_order(),
            r matches Err(e) ==> (e matches CoordinationError::CircularDependency(m) && self@.names_cycle(m@)),
    {
        let n = self.ids.len();
        let mut visited: Vec<bool> = Vec::new();
        let mut rec_stack: Vec<bool> = Vec::new();
        let mut i: usize = 0;
        while i < n
            invariant
                n == self.ids@.len(),
                i <= n,
                visited@.len() == i,
                rec_stack@.len() == i,
                forall|k: int| 0 <= k < i ==> !(#[trigger] visited@[k]),
                forall|k: int| 0 <= k < i ==> !(#[trigger] rec_stack@[k]),
            decreases n - i,
        {
            visited.push(false);
            rec_stack.push(false);
            i = i + 1;
        }
        let mut path: Vec<usize> = Vec::new();
        let ghost mut fin: Seq<usize> = Seq::empty();
        proof {
            assert forall|k: int| 0 <= k < n implies (#[trigger] rec_stack@[k] <==> path@.contains(k as usize)) by {}
            assert forall|k: int| 0 <= k < n implies (#[trigger] visited@[k] <==> (path@.contains(k as usize) || fin.contains(k as usize))) by {}
            assert(self.search_inv(visited@, rec_stack@, path@, fin));
        }
        let mut i: usize = 0;
        while i < n
            invariant
                self.inv(),
                n == self.ids@.len(),
                i <= n,
                path@.len() == 0,
                self.search_inv(visited@, rec_stack@, path@, fin),
                forall|k: int| 0 <= k < i ==> #[trigger] visited@[k],
            decreases n - i,
        {
            if !visited[i] {
                let ghost v0 = visited@;
                let ghost budget = count_false(visited@);
                let (res, Ghost(f2)) = self.dfs_cycle_check(i, &mut visited, &mut rec_stack, &mut path, Ghost(fin), Ghost(budget));
                match res {
                    Err(e) => {
                        return Err(e);
                    },
                    Ok(()) => {},
                }
                proof {
                    fin = f2;
                    assert forall|k: int| 0 <= k < i + 1 implies #[trigger] visited@[k] by {
                        if k < i {
                            assert(v0[k]);
                        } else {
                            assert(fin.contains(i));
                        }
                    }
                }
            }
            i = i + 1;
        }
        proof {
            self.lemma_finished_is_order(visited@, rec_stack@, fin);
        }
        Ok(())
    }

    /// A finished search that visited every store yields a topological order.
    proof fn lemma_finished_is_order(&self, visited: Seq<bool>, rec_stack: Seq<bool>, fin: Seq<usize>)
        requires
            self.inv(),
            self.search_inv(visited, rec_stack, Seq::empty(), fin),
            forall|k: int| 0 <= k < self.ids@.len() ==> #[trigger] visited[k],
        ensures
            self@.is_topological_order(fin.map_values(|x: usize| self.ids@[x as int])),
            self@.has_topological_order(),
            !self@.has_cycle(),
    {
        self.lemma_model();
        let m = self@;
        let order = fin.map_values(|x: usize| self.ids@[x as int]);
        let path: Seq<usize> = Seq::empty();
        assert forall|i: int, j: int| 0 <= i < order.len() && 0 <= j < order.len() && i != j implies order[i]
            != order[j] by {
            assert(fin[i] != fin[j]);
            assert(fin[i] < self.ids@.len() && fin[j] < self.ids@.len());
        }
        assert forall|x: StoreId| m.stores.contains(x) <==> order.contains(x) by {
            if m.stores.contains(x) {
                let i = choose|i: int| 0 <= i < m.stores.len() && m.stores[i] == x;
                assert(visited[i]);
                assert(!path.contains(i as usize));
                assert(fin.contains(i as usize));
                let k = choose|k: int| 0 <= k < fin.len() && fin[k] == i as usize;
                assert(order[k] == x);
            }
            if order.contains(x) {
                let k = choose|k: int| 0 <= k < order.len() && order[k] == x;
                assert(fin[k] < self.ids@.len());
                assert(m.stores[fin[k] as int] == x);
            }
        }
        assert forall|i: int, j: int|
            0 <= i < order.len() && 0 <= j < order.len() && #[trigger] m.depends(order[i], order[j]) implies j < i by {
            assert(fin[i] < self.ids@.len() && fin[j] < self.ids@.len());
            self.lemma_depends_edge(fin[i] as int, fin[j]);
            let d = self.deps@[fin[i] as int]@;
            let jj = choose|jj: int| 0 <= jj < d.len() && d[jj] == fin[j];
            assert(fin.subrange(0, i).contains(d[jj]));
            let mm = choose|mm: int| 0 <= mm < i && fin.subrange(0, i)[mm] == fin[j];
            assert(fin[mm] == fin[j]);
        }
        assert(m.is_topological_order(order));
        lemma_topological_order_excludes_cycles(m, order);
    }


    /// A duplicate-free list of all positions, each after its dependencies,
    /// gives a topological order.
    proof fn lemma_closed_order(&self, fin: Seq<usize>)
        requires
            self.inv(),
            fin.no_duplicates(),
            forall|k: int| 0 <= k < fin.len() ==> #[trigger] fin[k] < self.ids@.len(),
            forall|x: usize| x < self.ids@.len() ==> #[trigger] fin.contains(x),
            forall|k: int, j: int|
                0 <= k < fin.len() && 0 <= j < self.deps@[fin[k] as int]@.len() ==> fin.subrange(
                    0,
                    k,
                ).contains(#[trigger] self.deps@[fin[k] as int]@[j]),
        ensures
            self@.is_topological_order(fin.map_values(|x: usize| self.ids@[x as int])),
            self@.has_topological_order(),
            !self@.has_cycle(),
    {
        self.lemma_model();
        let m = self@;
        let order = fin.map_values(|x: usize| self.ids@[x as int]);
        assert forall|i: int, j: int| 0 <= i < order.len() && 0 <= j < order.len() && i != j implies order[i]
            != order[j] by {
            assert(fin[i] != fin[j]);
            assert(fin[i] < self.ids@.len() && fin[j] < self.ids@.len());
        }
        assert forall|x: StoreId| m.stores.contains(x) <==> order.contains(x) by {
            if m.stores.contains(x) {
                let i = choose|i: int| 0 <= i < m.stores.len() && m.stores[i] == x;
                assert(fin.contains(i as usize));
                let k = choose|k: int| 0 <= k < fin.len() && fin[k] == i as usize;
                assert(order[k] == self.ids@[fin[k] as int]);
                assert(order[k] == x);
            }
            if order.contains(x) {
                let k = choose|k: int| 0 <= k < order.len() && order[k] == x;
                assert(fin[k] < self.ids@.len());
                assert(m.stores[fin[k] as int] == x);
            }
        }
        assert forall|i: int, j: int|
            0 <= i < order.len() && 0 <= j < order.len() && #[trigger] m.depends(order[i], order[j]) implies j < i by {
            assert(fin[i] < self.ids@.len() && fin[j] < self.ids@.len());
            self.lemma_depends_edge(fin[i] as int, fin[j]);
            let d = self.deps@[fin[i] as int]@;
            let jj = choose|jj: int| 0 <= jj < d.len() && d[jj] == fin[j];
            assert(fin.subrange(0, i).contains(d[jj]));
            let mm = choose|mm: int| 0 <= mm < i && fin.subrange(0, i)[mm] == fin[j];
            assert(fin[mm] == fin[j]);
        }
        assert(m.is_topological_order(order));
        lemma_topological_order_excludes_cycles(m, order);
    }

    /// Invariant of Kahn's algorithm: `queue[0..head]` is the processed
    /// prefix, `in_deg[i]` counts the dependencies of `i` not yet processed,
    /// and a position is queued exactly when that count is zero.
    closed spec fn kahn_inv(&self, queue: Seq<usize>, head: int, in_deg: Seq<usize>) -> bool {
        let n = self.ids@.len();
        let done = queue.subrange(0, head);
        &&& 0 <= head <= queue.len()
        &&& queue.no_duplicates()
        &&& forall|k: int| 0 <= k < queue.len() ==> #[trigger] queue[k] < n
        &&& in_deg.len() == n
        &&& forall|i: int| 0 <= i < n ==> #[trigger] in_deg[i] == count_pending(self.deps@[i]@, done)
        &&& forall|i: int| 0 <= i < n ==> (queue.contains(i as usize) <==> #[trigger] in_deg[i] == 0)
        &&& forall|k: int, j: int|
            0 <= k < head && 0 <= j < self.deps@[queue[k] as int]@.len() ==> queue.subrange(
                0,
                k,
            ).contains(#[trigger] self.deps@[queue[k] as int]@[j])
    }

    /// With some topological order, every position gets processed.
    proof fn lemma_kahn_complete(&self, queue: Seq<usize>, in_deg: Seq<usize>)
        requires
            self.inv(),
            self.kahn_inv(queue, queue.len() as int, in_deg),
            self@.has_topological_order(),
        ensures
            forall|x: usize| x < self.ids@.len() ==> #[trigger] queue.contains(x),
    {
        self.lemma_model();
        let m = self@;
        let order = choose|order: Seq<StoreId>| m.is_topological_order(order);
        let done = queue.subrange(0, queue.len() as int);
        assert(done == queue);
        assert forall|p: int| 0 <= p < order.len() implies queue.contains(
            #[trigger] m.stores.index_of(order[p]) as usize,
        ) by {
            self.lemma_kahn_complete_at(queue, in_deg, order, p);
        }
        assert forall|x: usize| x < self.ids@.len() implies #[trigger] queue.contains(x) by {
            let i = x as int;
            assert(m.stores.contains(self.ids@[i]));
            assert(order.contains(self.ids@[i]));
            let p = choose|p: int| 0 <= p < order.len() && order[p] == self.ids@[i];
            assert(m.stores.index_of(order[p]) == i);
            assert(queue.contains(m.stores.index_of(order[p]) as usize));
        }
    }

    proof fn lemma_kahn_complete_at(&self, queue: Seq<usize>, in_deg: Seq<usize>, order: Seq<StoreId>, p: int)
        requires
            self.inv(),
            self.kahn_inv(queue, queue.len() as int, in_deg),
            self@.is_topological_order(order),
            0 <= p < order.len(),
        ensures
            queue.contains(self@.stores.index_of(order[p]) as usize),
        decreases p,
    {
        self.lemma_model();
        let m = self@;
        assert(order.contains(order[p]));
        assert(m.stores.contains(order[p]));
        let i = m.stores.index_of(order[p]);
        assert(0 <= i < self.ids@.len() && self.ids@[i] == order[p]);
        let d = self.deps@[i]@;
        assert forall|j: int| 0 <= j < d.len() implies queue.contains(#[trigger] d[j]) by {
            let t = d[j];
            assert(t < self.ids@.len());
            assert(self.edge(i, t));
            self.lemma_depends_edge(i, t);
            assert(m.depends(order[p], self.ids@[t as int]));
            assert(m.stores.contains(self.ids@[t as int]));
            assert(order.contains(self.ids@[t as int]));
            let q = choose|q: int| 0 <= q < order.len() && order[q] == self.ids@[t as int];
            assert(m.depends(order[p], order[q]));
            assert(q < p);
            self.lemma_kahn_complete_at(queue, in_deg, order, q);
            assert(m.stores.index_of(order[q]) == t as int);
        }
        assert(queue.subrange(0, queue.len() as int) == queue);
        lemma_count_pending_zero(d, queue);
        assert(in_deg[i] == 0);
    }

    /// Compute the topological initialization order with Kahn's algorithm.
    ///
    /// Returns store IDs in the order they should be initialized
    /// (dependencies first); fails exactly when some stores depend on each
    /// other in a circle.
    pub fn topological_order(&self) -> (r: Result<Vec<StoreId>, CoordinationError>)
        requires
            self.inv(),
        ensures
            r is Ok <==> !self@.has_cycle(),
            r matches Ok(order) ==> self@.is_topological_order(order@) && order@.len() == self@.stores.len(),
            r matches Err(e) ==> (e matches CoordinationError::CircularDependency(m) && self@.names_cycle(m@)),
    {
        match self.validate() {
            Err(e) => {
                return Err(e);
            },
            Ok(()) => {},
        }
        let n = self.ids.len();
        proof {
            self.lemma_model();
            lemma_positions(n as nat);
        }
        // Reverse adjacency: for each edge (source -> dep), dep -> source.
        let mut reverse_adj: Vec<Vec<usize>> = Vec::new();
        let mut i: usize = 0;
        while i < n
            invariant
                i <= n,
                reverse_adj@.len() == i,
                forall|t: int| 0 <= t < i ==> (#[trigger] reverse_adj@[t])@.len() == 0,
            decreases n - i,
        {
            reverse_adj.push(Vec::new());
            i = i + 1;
        }
        let mut source: usize = 0;
        while source < n
            invariant
                self.inv(),
                n == self.ids@.len(),
                source <= n,
                reverse_adj@.len() == n,
                forall|t: int, x: usize|
                    0 <= t < n ==> #[trigger] occ(reverse_adj@[t]@, x) == if x < source {
                        occ(self.deps@[x as int]@, t as usize)
                    } else {
                        0
                    },
                forall|t: int, k: int|
                    0 <= t < n && 0 <= k < reverse_adj@[t]@.len() ==> #[trigger] reverse_adj@[t]@[k]
                        < n,
            decreases n - source,
        {
            let m = self.deps[source].len();
            let mut j: usize = 0;
            while j < m
                invariant
                    self.inv(),
                    n == self.ids@.len(),
                    source < n,
                    m == self.deps@[source as int]@.len(),
                    j <= m,
                    reverse_adj@.len() == n,
                    forall|t: int, x: usize|
                        0 <= t < n ==> #[trigger] occ(reverse_adj@[t]@, x) == if x < source {
                            occ(self.deps@[x as int]@, t as usize)
                        } else if x == source {
                            occ(self.deps@[source as int]@.take(j as int), t as usize)
                        } else {
                            0
                        },
                    forall|t: int, k: int|
                        0 <= t < n && 0 <= k < reverse_adj@[t]@.len() ==> #[trigger] reverse_adj@[t]@[k]
                            < n,
                decreases m - j,
            {
                let dep = self.deps[source][j];
                let ghost before = reverse_adj@;
                let mut list = Vec::new();
                std::mem::swap(&mut list, &mut reverse_adj[dep]);
                list.push(source);
                std::mem::swap(&mut list, &mut reverse_adj[dep]);
                proof {
                    assert(dep < n);
                    assert(reverse_adj@ == before.update(dep as int, reverse_adj@[dep as int]));
                    assert(reverse_adj@[dep as int]@ == before[dep as int]@.push(source));
                    assert forall|t: int, x: usize| 0 <= t < n implies #[trigger] occ(reverse_adj@[t]@, x)
                        == if x < source {
                        occ(self.deps@[x as int]@, t as usize)
                    } else if x == source {
                        occ(self.deps@[source as int]@.take(j + 1), t as usize)
                    } else {
                        0
                    } by {
                        lemma_occ_take(self.deps@[source as int]@, j as int, t as usize);
                        if t == dep as int {
                            lemma_occ_push(before[t]@, source, x);
                        } else {
                            assert(reverse_adj@[t] == before[t]);
                        }
                    }
                    assert forall|t: int, k: int|
                        0 <= t < n && 0 <= k < reverse_adj@[t]@.len() implies #[trigger] reverse_adj@[t]@[k]
                            < n by {
                        if t == dep as int {
                            if k < before[t]@.len() {
                                assert(reverse_adj@[t]@[k] == before[t]@[k]);
                            }
                        } else {
                            assert(reverse_adj@[t] == before[t]);
                        }
                    }
                }
                j = j + 1;
            }
            proof {
                assert(self.deps@[source as int]@.take(m as int) == self.deps@[source as int]@);
            }
            source = source + 1;
        }
        // In-degree of a store: the number of its dependencies.
        let mut in_deg: Vec<usize> = Vec::new();
        let mut i: usize = 0;
        while i < n
            invariant
                self.inv(),
                n == self.ids@.len(),
                i <= n,
                in_deg@.len() == i,
                forall|k: int| 0 <= k < i ==> #[trigger] in_deg@[k] == count_pending(
                    self.deps@[k]@,
                    Seq::empty(),
                ),
            decreases n - i,
        {
            proof {
                lemma_count_pending_none_done(self.deps@[i as int]@);
            }
            in_deg.push(self.deps[i].len());
            i = i + 1;
        }
        // Kahn's algorithm.
        let mut queue: Vec<usize> = Vec::new();
        let mut i: usize = 0;
        while i < n
            invariant
                self.inv(),
                n == self.ids@.len(),
                i <= n,
                in_deg@.len() == n,
                queue@.no_duplicates(),
                forall|k: int| 0 <= k < queue@.len() ==> #[trigger] queue@[k] < i,
                forall|k: int| 0 <= k < n ==> #[trigger] in_deg@[k] == count_pending(
                    self.deps@[k]@,
                    Seq::empty(),
                ),
                forall|k: int| 0 <= k < i ==> (queue@.contains(k as usize) <==> #[trigger] in_deg@[k] == 0),
            decreases n - i,
        {
            let ghost q0 = queue@;
            if in_deg[i] == 0 {
                queue.push(i);
            }
            proof {
                assert forall|k: int| 0 <= k < i + 1 implies (queue@.contains(k as usize) <==> #[trigger] in_deg@[k] == 0) by {
                    if queue@.contains(k as usize) && k != i as int {
                        let x = choose|x: int| 0 <= x < queue@.len() && queue@[x] == k as usize;
                        assert(x < q0.len());
                        assert(q0[x] == k as usize);
                    }
                    if q0.contains(k as usize) {
                        let x = choose|x: int| 0 <= x < q0.len() && q0[x] == k as usize;
                        assert(queue@[x] == k as usize);
                    }
                    if k == i as int && queue@.contains(k as usize) && in_deg@[k] != 0 {
                        let x = choose|x: int| 0 <= x < queue@.len() && queue@[x] == k as usize;
                        assert(q0[x] < i);
                    }
                    if k == i as int && in_deg@[k] == 0 {
                        assert(queue@[q0.len() as int] == i);
                    }
                }
            }
            i = i + 1;
        }
        let mut result: Vec<StoreId> = Vec::new();
        let mut head: usize = 0;
        proof {
            assert(queue@.subrange(0, 0) =~= Seq::<usize>::empty());
            lemma_distinct_within(queue@, positions(n as nat));
        }
        while head < queue.len()
            invariant
                self.inv(),
                n == self.ids@.len(),
                reverse_adj@.len() == n,
                forall|t: int, x: usize|
                    0 <= t < n && x < n ==> #[trigger] occ(reverse_adj@[t]@, x) == occ(
                        self.deps@[x as int]@,
                        t as usize,
                    ),
                forall|t: int, k: int|
                    0 <= t < n && 0 <= k < reverse_adj@[t]@.len() ==> #[trigger] reverse_adj@[t]@[k]
                        < n,
                self.kahn_inv(queue@, head as int, in_deg@),
                queue@.len() <= n,
                result@ == queue@.subrange(0, head as int).map_values(|x: usize| self.ids@[x as int]),
            decreases n - head,
        {
            let node = queue[head];
            let ghost done = queue@.subrange(0, head as int);
            let ghost queue0 = queue@;
            let ghost deg0 = in_deg@;
            head = head + 1;
            result.push(self.ids[node]);
            proof {
                assert(!done.contains(node)) by {
                    if done.contains(node) {
                        let k = choose|k: int| 0 <= k < done.len() && done[k] == node;
                        assert(queue@[k] == queue@[head - 1]);
                    }
                }
                assert(queue@.subrange(0, head as int) == done.push(node));
                assert(result@ =~= queue@.subrange(0, head as int).map_values(|x: usize| self.ids@[x as int]));
            }
            // For each store that depends on `node`, decrement its in-degree.
            let dependents_len = reverse_adj[node].len();
            let mut e: usize = 0;
            while e < dependents_len
                invariant
                    self.inv(),
                    n == self.ids@.len(),
                    node < n,
                    reverse_adj@.len() == n,
                    forall|t: int, x: usize|
                        0 <= t < n && x < n ==> #[trigger] occ(reverse_adj@[t]@, x) == occ(
                            self.deps@[x as int]@,
                            t as usize,
                        ),
                    forall|t: int, k: int|
                        0 <= t < n && 0 <= k < reverse_adj@[t]@.len() ==> #[trigger] reverse_adj@[t]@[k]
                            < n,
                    dependents_len == reverse_adj@[node as int]@.len(),
                    e <= dependents_len,
                    !done.contains(node),
                    1 <= head <= queue@.len(),
                    queue@.subrange(0, head as int) == done.push(node),
                    queue@.no_duplicates(),
                    forall|k: int| 0 <= k < queue@.len() ==> #[trigger] queue@[k] < n,
                    in_deg@.len() == n,
                    forall|i: int| 0 <= i < n ==> #[trigger] in_deg@[i] + occ(
                        reverse_adj@[node as int]@.take(e as int),
                        i as usize,
                    ) == count_pending(self.deps@[i]@, done),
                    forall|i: int| 0 <= i < n ==> (queue@.contains(i as usize) <==> #[trigger] in_deg@[i] == 0),
                    forall|k: int, j: int|
                        0 <= k < head - 1 && 0 <= j < self.deps@[queue@[k] as int]@.len() ==> queue@.subrange(
                            0,
                            k,
                        ).contains(#[trigger] self.deps@[queue@[k] as int]@[j]),
                decreases dependents_len - e,
            {
                let dependent = reverse_adj[node][e];
                proof {
                    let rev = reverse_adj@[node as int]@;
                    lemma_occ_take(rev, e as int, dependent);
                    lemma_count_pending_finish(self.deps@[dependent as int]@, done, node);
                    // occurrences seen so far never exceed those of the full list
                    lemma_occ_prefix(rev, e as int + 1, dependent);
                    assert(occ(rev, dependent) == occ(self.deps@[dependent as int]@, node));
                    assert(in_deg@[dependent as int] > 0);
                }
                let ghost deg_before = in_deg@;
                let ghost q_before = queue@;
                let new_deg = in_deg[dependent] - 1;
                in_deg.set(dependent, new_deg);
                if new_deg == 0 {
                    queue.push(dependent);
                }
                proof {
                    let rev = reverse_adj@[node as int]@;
                    assert(!q_before.contains(dependent));
                    assert forall|i: int| 0 <= i < n implies #[trigger] in_deg@[i] + occ(
                        rev.take(e + 1),
                        i as usize,
                    ) == count_pending(self.deps@[i]@, done) by {
                        lemma_occ_take(rev, e as int, i as usize);
                    }
                    assert forall|i: int| 0 <= i < n implies (queue@.contains(i as usize) <==> #[trigger] in_deg@[i] == 0) by {
                        if i != dependent as int {
                            if queue@.contains(i as usize) {
                                let x = choose|x: int| 0 <= x < queue@.len() && queue@[x] == i as usize;
                                if x < q_before.len() {
                                    assert(q_before[x] == i as usize);
                                }
                            }
                            if q_before.contains(i as usize) {
                                let x = choose|x: int| 0 <= x < q_before.len() && q_before[x] == i as usize;
                                assert(queue@[x] == i as usize);
                            }
                        } else {
                            if new_deg == 0 {
                                assert(queue@[q_before.len() as int] == dependent);
                            } else {
                                assert(queue@ == q_before);
                            }
                        }
                    }
                    assert(queue@.subrange(0, head as int) == q_before.subrange(0, head as int));
                    assert forall|k: int, j: int|
                        0 <= k < head - 1 && 0 <= j < self.deps@[queue@[k] as int]@.len() implies queue@.subrange(
                            0,
                            k,
                        ).contains(#[trigger] self.deps@[queue@[k] as int]@[j]) by {
                        assert(queue@[k] == q_before[k]);
                        assert(queue@.subrange(0, k) == q_before.subrange(0, k));
                    }
                }
                e = e + 1;
            }
            proof {
                let rev = reverse_adj@[node as int]@;
                assert(rev.take(dependents_len as int) == rev);
                let done2 = queue@.subrange(0, head as int);
                assert forall|i: int| 0 <= i < n implies #[trigger] in_deg@[i] == count_pending(self.deps@[i]@, done2) by {
                    lemma_count_pending_finish(self.deps@[i]@, done, node);
                    assert(occ(rev, i as usize) == occ(self.deps@[i]@, node));
                }
                // the processed node had nothing pending: its dependencies came earlier
                assert(queue@.subrange(0, head as int)[head - 1] == node);
                assert(queue@[head - 1] == node);
                assert(queue0.contains(node));
                assert(deg0[node as int] == 0);
                lemma_count_pending_zero(self.deps@[node as int]@, done);
                assert forall|k: int, j: int|
                    0 <= k < head && 0 <= j < self.deps@[queue@[k] as int]@.len() implies queue@.subrange(
                        0,
                        k,
                    ).contains(#[trigger] self.deps@[queue@[k] as int]@[j]) by {
                    if k == head - 1 {
                        assert(queue@.subrange(0, k) == done);
                        assert(done.contains(self.deps@[node as int]@[j]));
                    }
                }
                lemma_positions(n as nat);
                lemma_distinct_within(queue@, positions(n as nat));
            }
        }
        proof {
            self.lemma_kahn_complete(queue@, in_deg@);
            lemma_positions(n as nat);
            lemma_distinct_within(positions(n as nat), queue@);
            assert(queue@.subrange(0, head as int) == queue@);
        }
        if result.len() != n {
            // Unreachable once validation passed; kept as a safeguard.
            return Err(CoordinationError::CircularDependency(String::from_str("cycle detected during topological sort")));
        }
        proof {
            self.lemma_closed_order(queue@);
            self.lemma_model();
        }
        Ok(result)
    }

    /// Get all stores that directly depend on the given store, in
    /// registration order.
    pub fn dependents_of(&self, store_id: StoreId) -> (r: Vec<StoreId>)
        requires
            self.inv(),
        ensures
            r@ == self@.dependents_of(store_id),
    {
        proof {
            self.lemma_model();
        }
        let ghost m = self@;
        let ghost pred = |s: StoreId| m.depends(s, store_id);
        let target = self.find(store_id);
        let n = self.ids.len();
        let mut res: Vec<StoreId> = Vec::new();
        let mut i: usize = 0;
        while i < n
            invariant
                n == self.ids@.len(),
                i <= n,
                self.inv(),
                m == self@,
                pred == (|s: StoreId| m.depends(s, store_id)),
                match target {
                    Some(t) => t < n && self.ids@[t as int] == store_id,
                    None => !self.ids@.contains(store_id),
                },
                res@ == self.ids@.take(i as int).filter(pred),
            decreases n - i,
        {
            let hit = match target {
                Some(t) => contains_index(&self.deps[i], t),
                None => false,
            };
            proof {
                match target {
                    Some(t) => {
                        self.lemma_depends_edge(i as int, t);
                    },
                    None => {
                        if m.depends(self.ids@[i as int], store_id) {
                            lemma_dependency_is_store(m, self.ids@[i as int], store_id);
                        }
                    },
                }
                assert(hit == pred(self.ids@[i as int]));
                assert(self.ids@.take(i + 1) == self.ids@.take(i as int).push(self.ids@[i as int]));
                self.ids@.take(i as int).lemma_filter_push(self.ids@[i as int], pred);
            }
            if hit {
                res.push(self.ids[i]);
            }
            i = i + 1;
        }
        proof {
            assert(self.ids@.take(n as int) == self.ids@);
        }
        res
    }
}

/// Number of `false` entries.
pub open spec fn count_false(s: Seq<bool>) -> nat
    decreases s.len(),
{
    if s.len() == 0 {
        0
    } else {
        count_false(s.drop_last()) + if s.last() {
            0nat
        } else {
            1nat
        }
    }
}

/// Turning entries to `true` never adds a `false`; turning one strictly
/// lowers the count.
proof fn lemma_count_false_mono(a: Seq<bool>, b: Seq<bool>, w: int)
    requires
        a.len() == b.len(),
        forall|i: int| 0 <= i < a.len() && #[trigger] a[i] ==> b[i],
    ensures
        count_false(b) <= count_false(a),
        0 <= w < a.len() && !a[w] && b[w] ==> count_false(b) < count_false(a),
    decreases a.len(),
{
    if a.len() > 0 {
        let a1 = a.drop_last();
        let b1 = b.drop_last();
        assert forall|i: int| 0 <= i < a1.len() && #[trigger] a1[i] implies b1[i] by {
            assert(a1[i] == a[i]);
            assert(b1[i] == b[i]);
        }
        lemma_count_false_mono(a1, b1, w);
        if 0 <= w < a1.len() {
            assert(a1[w] == a[w]);
            assert(b1[w] == b[w]);
        }
        assert(a.last() ==> b.last());
    }
}

proof fn lemma_count_false_set(a: Seq<bool>, w: int)
    requires
        0 <= w < a.len(),
        !a[w],
    ensures
        count_false(a.update(w, true)) < count_false(a),
{
    let b = a.update(w, true);
    assert forall|i: int| 0 <= i < a.len() && #[trigger] a[i] implies b[i] by {}
    lemma_count_false_mono(a, b, w);
}

/// Number of occurrences of `x` in `s`.
pub open spec fn occ(s: Seq<usize>, x: usize) -> nat
    decreases s.len(),
{
    if s.len() == 0 {
        0
    } else {
        occ(s.drop_last(), x) + if s.last() == x {
            1nat
        } else {
            0nat
        }
    }
}

/// Number of entries of `s` that `done` does not hold.
pub open spec fn count_pending(s: Seq<usize>, done: Seq<usize>) -> nat
    decreases s.len(),
{
    if s.len() == 0 {
        0
    } else {
        count_pending(s.drop_last(), done) + if done.contains(s.last()) {
            0nat
        } else {
            1nat
        }
    }
}

proof fn lemma_occ_push(s: Seq<usize>, v: usize, x: usize)
    ensures
        occ(s.push(v), x) == occ(s, x) + if v == x {
            1nat
        } else {
            0nat
        },
{
    assert(s.push(v).drop_last() == s);
}

proof fn lemma_occ_prefix(s: Seq<usize>, j: int, x: usize)
    requires
        0 <= j <= s.len(),
    ensures
        occ(s.take(j), x) <= occ(s, x),
    decreases s.len() - j,
{
    if j < s.len() {
        lemma_occ_take(s, j, x);
        lemma_occ_prefix(s, j + 1, x);
    } else {
        assert(s.take(j) == s);
    }
}

proof fn lemma_occ_take(s: Seq<usize>, j: int, x: usize)
    requires
        0 <= j < s.len(),
    ensures
        occ(s.take(j + 1), x) == occ(s.take(j), x) + if s[j] == x {
            1nat
        } else {
            0nat
        },
{
    assert(s.take(j + 1).drop_last() == s.take(j));
}

proof fn lemma_count_pending_none_done(s: Seq<usize>)
    ensures
        count_pending(s, Seq::empty()) == s.len(),
    decreases s.len(),
{
    if s.len() > 0 {
        lemma_count_pending_none_done(s.drop_last());
    }
}

/// Finishing `x` removes exactly its occurrences from the pending count.
proof fn lemma_count_pending_finish(s: Seq<usize>, done: Seq<usize>, x: usize)
    requires
        !done.contains(x),
    ensures
        occ(s, x) <= count_pending(s, done),
        count_pending(s, done.push(x)) == count_pending(s, done) - occ(s, x),
    decreases s.len(),
{
    if s.len() > 0 {
        lemma_count_pending_finish(s.drop_last(), done, x);
        let l = s.last();
        if l == x {
            assert(done.push(x)[done.len() as int] == x);
        } else {
            if done.push(x).contains(l) {
                let k = choose|k: int| 0 <= k < done.len() + 1 && done.push(x)[k] == l;
                assert(done[k] == l);
            }
            if done.contains(l) {
                let k = choose|k: int| 0 <= k < done.len() && done[k] == l;
                assert(done.push(x)[k] == l);
            }
        }
    }
}

/// Nothing pending means every entry is done.
proof fn lemma_count_pending_zero(s: Seq<usize>, done: Seq<usize>)
    ensures
        count_pending(s, done) == 0 <==> forall|k: int| 0 <= k < s.len() ==> done.contains(#[trigger] s[k]),
    decreases s.len(),
{
    if s.len() > 0 {
        let t = s.drop_last();
        lemma_count_pending_zero(t, done);
        if count_pending(s, done) == 0 {
            assert forall|k: int| 0 <= k < s.len() implies done.contains(#[trigger] s[k]) by {
                if k < t.len() {
                    assert(t[k] == s[k]);
                }
            }
        }
        if forall|k: int| 0 <= k < s.len() ==> done.contains(#[trigger] s[k]) {
            assert forall|k: int| 0 <= k < t.len() implies done.contains(#[trigger] t[k]) by {
                assert(t[k] == s[k]);
            }
            assert(done.contains(s[s.len() - 1]));
        }
    }
}

/// A duplicate-free sequence whose entries all occur in `b` is no longer
/// than `b`.
proof fn lemma_distinct_within(a: Seq<usize>, b: Seq<usize>)
    requires
        a.no_duplicates(),
        forall|k: int| 0 <= k < a.len() ==> b.contains(#[trigger] a[k]),
    ensures
        a.len() <= b.len(),
{
    broadcast use vstd::seq_lib::seq_to_set_is_finite;
    a.unique_seq_to_set();
    b.lemma_cardinality_of_set();
    assert(a.to_set().subset_of(b.to_set())) by {
        assert forall|x: usize| a.to_set().contains(x) implies b.to_set().contains(x) by {
            let k = choose|k: int| 0 <= k < a.len() && a[k] == x;
        }
    }
    vstd::set_lib::lemma_len_subset(a.to_set(), b.to_set());
}

/// The positions `0..n`.
pub open spec fn positions(n: nat) -> Seq<usize> {
    Seq::new(n, |i: int| i as usize)
}

proof fn lemma_positions(n: nat)
    requires
        n <= usize::MAX + 1,
    ensures
        positions(n).len() == n,
        positions(n).no_duplicates(),
        forall|x: usize| positions(n).contains(x) <==> x < n,
{
    let p = positions(n);
    assert forall|x: usize| p.contains(x) <==> x < n by {
        if x < n {
            assert(p[x as int] == x);
        }
    }
}

/// Whether `v` holds `x`.
fn contains_index(v: &Vec<usize>, x: usize) -> (r: bool)
    ensures
        r == v@.contains(x),
{
    let n = v.len();
    let mut i: usize = 0;
    while i < n
        invariant
            n == v@.len(),
            i <= n,
            forall|k: int| 0 <= k < i ==> v@[k] != x,
        decreases n - i,
    {
        if v[i] == x {
            return true;
        }
        i = i + 1;
    }
    false
}

} // verus!
