use vstd::prelude::*;

use crate::context::Context;
use crate::error::Error;
use crate::node::{Node, ProcessState};
use crate::registry::{registry_find, registry_keys_unique, registry_map, registry_upsert};
use crate::strutil::str_eq;
use crate::value::{Val, Value};

verus! {

/// A routing rule as the contracts see it: from a unit's name, under a
/// condition label, to a unit's name.
pub struct EdgeView {
    pub from: Seq<char>,
    pub label: Seq<char>,
    pub to: Seq<char>,
}

/// A registered routing rule: from a unit's name, under a condition label,
/// to a unit's name.
#[derive(Debug)]
struct Edge {
    from: String,
    label: String,
    to: String,
}

impl View for Edge {
    type V = EdgeView;

    closed spec fn view(&self) -> EdgeView {
        EdgeView { from: self.from@, label: self.label@, to: self.to@ }
    }
}

/// Whether the edge leaves the given unit under the given label.
pub open spec fn edge_matches(e: EdgeView, from: Seq<char>, label: Seq<char>) -> bool {
    e.from == from && e.label == label
}

/// The first registered edge that leaves `from` under `label`, if any: edge
/// resolution never looks past the first match.
pub open spec fn spec_first_match(
    edges: Seq<EdgeView>,
    from: Seq<char>,
    label: Seq<char>,
) -> Option<EdgeView>
    decreases edges.len(),
{
    if edges.len() <= 0 {
        None
    } else if edge_matches(edges[0], from, label) {
        Some(edges[0])
    } else {
        spec_first_match(edges.drop_first(), from, label)
    }
}

/// Where a run moves next from the unit named `from` once its visit reduced
/// to `label`: the target of the first edge registered under `label`, or,
/// failing that, of the first edge registered under `"default"`, or nowhere.
pub open spec fn spec_resolve(
    edges: Seq<EdgeView>,
    from: Seq<char>,
    label: Seq<char>,
) -> Option<Seq<char>> {
    match spec_first_match(edges, from, label) {
        Some(e) => Some(e.to),
        None => match spec_first_match(edges, from, "default"@) {
            Some(e) => Some(e.to),
            None => None,
        },
    }
}

/// A walk through the graph: each visited unit, paired with the label its
/// visit reduced to, resolves to the unit visited next.
pub open spec fn is_walk(
    edges: Seq<EdgeView>,
    visited: Seq<Seq<char>>,
    labels: Seq<Seq<char>>,
) -> bool {
    &&& visited.len() == labels.len() + 1
    &&& forall|i: int|
        0 <= i < labels.len() ==> spec_resolve(edges, visited[i], labels[i]) == Some(
            visited[i + 1],
        )
}

/// No edge at all leaves `from` under `label` exactly when the first-match
/// search comes back empty.
pub proof fn lemma_no_match_iff_none(edges: Seq<EdgeView>, from: Seq<char>, label: Seq<char>)
    ensures
        (spec_first_match(edges, from, label) is None) <==> (forall|j: int|
            0 <= j < edges.len() ==> !edge_matches(edges[j], from, label)),
    decreases edges.len(),
{
    if edges.len() > 0 {
        let rest = edges.drop_first();
        lemma_no_match_iff_none(rest, from, label);
        if spec_first_match(edges, from, label) is None {
            assert forall|j: int|
                0 <= j < edges.len() implies !edge_matches(edges[j], from, label) by {
                if j > 0 {
                    assert(rest[j - 1] == edges[j]);
                }
            }
        }
        if forall|j: int| 0 <= j < edges.len() ==> !edge_matches(edges[j], from, label) {
            assert forall|j: int|
                0 <= j < rest.len() implies !edge_matches(rest[j], from, label) by {
                assert(rest[j] == edges[j + 1]);
            }
        }
    }
}

/// Edge resolution is deterministic and takes the first registered edge: if
/// the edge at position `i` leaves `from` under `label` and no earlier edge
/// does, that edge, and no other, decides where the run moves.
pub proof fn lemma_first_registered_wins(
    edges: Seq<EdgeView>,
    from: Seq<char>,
    label: Seq<char>,
    i: int,
)
    requires
        0 <= i < edges.len(),
        edge_matches(edges[i], from, label),
        forall|j: int| 0 <= j < i ==> !edge_matches(edges[j], from, label),
    ensures
        spec_first_match(edges, from, label) == Some(edges[i]),
        spec_resolve(edges, from, label) == Some(edges[i].to),
    decreases i,
{
    if i > 0 {
        let rest = edges.drop_first();
        assert(forall|j: int| 0 <= j < rest.len() ==> rest[j] == edges[j + 1]);
        lemma_first_registered_wins(rest, from, label, i - 1);
    }
}

/// Edge resolution is deterministic: for one graph, two walks that start
/// at the same unit and reduce to the same labels visit the same units.
pub proof fn lemma_walk_deterministic(
    edges: Seq<EdgeView>,
    labels: Seq<Seq<char>>,
    visited1: Seq<Seq<char>>,
    visited2: Seq<Seq<char>>,
)
    requires
        is_walk(edges, visited1, labels),
        is_walk(edges, visited2, labels),
        visited1[0] == visited2[0],
    ensures
        visited1 == visited2,
    decreases labels.len(),
{
    if labels.len() == 0 {
        assert(visited1 =~= visited2);
    } else {
        assert(spec_resolve(edges, visited1[0], labels[0]) == Some(visited1[1]));
        assert(spec_resolve(edges, visited2[0], labels[0]) == Some(visited2[1]));
        let t1 = visited1.drop_first();
        let t2 = visited2.drop_first();
        let tl = labels.drop_first();
        assert(is_walk(edges, t1, tl)) by {
            assert forall|i: int|
                0 <= i < tl.len() implies spec_resolve(edges, t1[i], tl[i]) == Some(
                t1[i + 1],
            ) by {
                assert(t1[i] == visited1[i + 1]);
                assert(tl[i] == labels[i + 1]);
                assert(t1[i + 1] == visited1[i + 2]);
                assert(spec_resolve(edges, visited1[i + 1], labels[i + 1]) == Some(
                    visited1[i + 2],
                ));
            }
        }
        assert(is_walk(edges, t2, tl)) by {
            assert forall|i: int|
                0 <= i < tl.len() implies spec_resolve(edges, t2[i], tl[i]) == Some(
                t2[i + 1],
            ) by {
                assert(t2[i] == visited2[i + 1]);
                assert(tl[i] == labels[i + 1]);
                assert(t2[i + 1] == visited2[i + 2]);
                assert(spec_resolve(edges, visited2[i + 1], labels[i + 1]) == Some(
                    visited2[i + 2],
                ));
            }
        }
        lemma_walk_deterministic(edges, tl, t1, t2);
        assert forall|i: int| 0 <= i < visited1.len() implies visited1[i] == visited2[i] by {
            if i > 0 {
                assert(visited1[i] == t1[i - 1]);
                assert(visited2[i] == t2[i - 1]);
            }
        }
        assert(visited1 =~= visited2);
    }
}

/// The default edge is the fallback, and only the fallback: when no edge
/// leaves `from` under the computed label, resolution is decided by the
/// first edge registered under `"default"`; when some edge does, the
/// default edge is not consulted.
pub proof fn lemma_default_fallback(edges: Seq<EdgeView>, from: Seq<char>, label: Seq<char>)
    ensures
        (forall|j: int| 0 <= j < edges.len() ==> !edge_matches(edges[j], from, label))
            ==> spec_resolve(edges, from, label) == (match spec_first_match(
            edges,
            from,
            "default"@,
        ) {
            Some(e) => Some(e.to),
            None => None::<Seq<char>>,
        }),
        (exists|j: int| 0 <= j < edges.len() && edge_matches(edges[j], from, label))
            ==> spec_resolve(edges, from, label) == Some(
            spec_first_match(edges, from, label)->Some_0.to,
        ),
{
    lemma_no_match_iff_none(edges, from, label);
}

/// The first registered edge that leaves `from` under `label`, if any.
fn find_edge<'a>(edges: &'a Vec<Edge>, from: &str, label: &str) -> (r: Option<&'a Edge>)
    ensures
        match r {
            Some(e) => spec_first_match(views_of_edges(edges@), from@, label@) == Some(
                e@,
            ),
            None => spec_first_match(views_of_edges(edges@), from@, label@) is None,
        },
{
    let ghost ev = views_of_edges(edges@);
    let n = edges.len();
    let mut i: usize = 0;
    proof {
        assert(ev.subrange(0, n as int) =~= ev);
    }
    while i < n
        invariant
            i <= n,
            n == edges@.len(),
            ev == views_of_edges(edges@),
            ev.len() == n,
            forall|j: int| 0 <= j < n ==> ev[j] == edges@[j]@,
            spec_first_match(ev, from@, label@) == spec_first_match(
                ev.subrange(i as int, n as int),
                from@,
                label@,
            ),
        decreases n - i,
    {
        proof {
            assert(ev.subrange(i as int, n as int)[0] == ev[i as int]);
            assert(ev.subrange(i as int, n as int).drop_first() =~= ev.subrange(
                i + 1,
                n as int,
            ));
        }
        let matches_from = str_eq(edges[i].from.as_str(), from);
        if matches_from {
            let matches_label = str_eq(edges[i].label.as_str(), label);
            if matches_label {
                return Some(&edges[i]);
            }
        }
        i = i + 1;
    }
    proof {
        assert(ev.subrange(n as int, n as int) =~= Seq::<EdgeView>::empty());
    }
    None
}

/// The routing rules of a sequence of edges, in registration order.
spec fn views_of_edges(s: Seq<Edge>) -> Seq<EdgeView> {
    Seq::new(s.len(), |i: int| s[i]@)
}

/// A named graph of units of work and its run loop. The graph is built
/// once — a start unit, further named units, and labelled edges — and then
/// walked any number of times; a run's path through the graph is decided at
/// each visit by the label the visited unit's outcome reduces to.
pub struct Flow<N: Node> {
    nodes: Vec<(String, N)>,
    edges: Vec<Edge>,
    start_node: String,
}

impl<N: Node> Flow<N> {
    /// The name of the unit a run starts at.
    pub closed spec fn spec_start(&self) -> Seq<char> {
        self.start_node@
    }

    #[verifier::type_invariant]
    spec fn wf(&self) -> bool {
        registry_keys_unique(self.nodes@)
    }

    /// The units of the graph, each under the name it is registered by.
    pub closed spec fn node_map(&self) -> Map<Seq<char>, N> {
        registry_map(self.nodes@)
    }

    /// The names under which units are registered.
    pub closed spec fn node_names(&self) -> Set<Seq<char>> {
        self.node_map().dom()
    }

    /// The registered routing rules, in registration order.
    pub closed spec fn edges_view(&self) -> Seq<EdgeView> {
        views_of_edges(self.edges@)
    }

    /// A graph holding exactly one unit, registered under the given name,
    /// where runs start; no edges yet.
    pub fn new(start_node_name: &str, start_node: N) -> (r: Self)
        ensures
            r.spec_start() == start_node_name@,
            r.node_map() == Map::<Seq<char>, N>::empty().insert(
                start_node_name@,
                start_node,
            ),
            r.node_names() == Set::<Seq<char>>::empty().insert(start_node_name@),
            r.edges_view() == Seq::<EdgeView>::empty(),
    {
        let mut nodes: Vec<(String, N)> = Vec::new();
        registry_upsert(&mut nodes, start_node_name.to_owned(), start_node);
        let r = Flow { nodes, edges: Vec::new(), start_node: start_node_name.to_owned() };
        proof {
            assert(r.node_names() =~= Set::<Seq<char>>::empty().insert(start_node_name@));
            assert(r.edges_view() =~= Seq::<EdgeView>::empty());
        }
        r
    }

    /// Registers a unit under a name; registering a name again replaces the
    /// unit that held it.
    pub fn add_node(&mut self, name: &str, node: N)
        ensures
            final(self).node_map() == old(self).node_map().insert(name@, node),
            final(self).node_names() == old(self).node_names().insert(name@),
            final(self).spec_start() == old(self).spec_start(),
            final(self).edges_view() == old(self).edges_view(),
    {
        proof {
            use_type_invariant(&*self);
        }
        let mut store: Vec<(String, N)> = Vec::new();
        std::mem::swap(&mut store, &mut self.nodes);
        registry_upsert(&mut store, name.to_owned(), node);
        self.nodes = store;
        proof {
            assert(final(self).node_names() =~= old(self).node_names().insert(name@));
        }
    }

    /// Registers an edge from one unit name to another. The edge's label is
    /// the condition label of the given outcome, computed now, at
    /// registration time.
    pub fn add_edge(&mut self, from: &str, to: &str, condition: N::State)
        ensures
            final(self).edges_view() == old(self).edges_view().push(
                EdgeView { from: from@, label: condition.condition_spec(), to: to@ },
            ),
            final(self).spec_start() == old(self).spec_start(),
            final(self).node_map() == old(self).node_map(),
            final(self).node_names() == old(self).node_names(),
    {
        proof {
            use_type_invariant(&*self);
        }
        let label = condition.to_condition();
        let mut store: Vec<Edge> = Vec::new();
        std::mem::swap(&mut store, &mut self.edges);
        store.push(Edge { from: from.to_owned(), label, to: to.to_owned() });
        self.edges = store;
        proof {
            assert(final(self).edges_view() =~= old(self).edges_view().push(
                EdgeView { from: from@, label: condition.condition_spec(), to: to@ },
            ));
        }
    }

    /// The unit registered under the given name, if any.
    fn find_node<'a>(&'a self, name: &str) -> (r: Option<&'a N>)
        ensures
            match r {
                Some(node) => self.node_map().contains_key(name@) && *node
                    == self.node_map()[name@],
                None => !self.node_map().contains_key(name@),
            },
    {
        proof {
            use_type_invariant(self);
        }
        registry_find(&self.nodes, name)
    }

    /// Where a run moves next from the unit named `from` once its visit
    /// reduced to `label`, by the resolution rule: the first edge under the
    /// label, else the first edge under `"default"`, else nowhere.
    pub fn resolve_next(&self, from: &str, label: &str) -> (r: Option<String>)
        ensures
            match r {
                Some(t) => spec_resolve(self.edges_view(), from@, label@) == Some(t@),
                None => spec_resolve(self.edges_view(), from@, label@) is None,
            },
    {
        match find_edge(&self.edges, from, label) {
            Some(e) => Some(e.to.clone()),
            None => match find_edge(&self.edges, from, "default") {
                Some(e) => Some(e.to.clone()),
                None => None,
            },
        }
    }

    /// Walks the graph once, on the given context. Starting at the start
    /// unit, each visit runs the unit's three phases in order, reduces the
    /// outcome to a label, and resolves the next unit; the run ends
    /// normally at a name with no registered unit or at a visit whose label
    /// resolves to no edge, and it ends with an error when a phase fails.
    /// On a normal end the value stored under `"result"`, or a null value
    /// when none is stored, is handed back.
    ///
    /// The engine bounds no cycle: a graph that keeps resolving edges keeps
    /// running. Only after `usize::MAX` visits does the run give up with an
    /// error.
    pub fn run(&self, context: &mut Context) -> (r: Result<Value, Error>)
        ensures
            exists|visited: Seq<Seq<char>>, labels: Seq<Seq<char>>|
                {
                    &&& #[trigger] is_walk(self.edges_view(), visited, labels)
                    &&& visited[0] == self.spec_start()
                    &&& forall|i: int|
                        0 <= i < visited.len() - 1 ==> self.node_names().contains(
                            visited[i],
                        )
                    &&& r is Ok ==> (!self.node_names().contains(visited.last()) || (
                    exists|l: Seq<char>|
                        spec_resolve(self.edges_view(), visited.last(), l) is None))
                },
            r matches Ok(v) ==> v@ == (if final(context)@.data.contains_key("result"@) {
                final(context)@.data["result"@]
            } else {
                Val::Null
            }),
            !self.node_names().contains(self.spec_start()) ==> r is Ok,
    {
        let mut current: String = self.start_node.clone();
        let ghost mut visited: Seq<Seq<char>> = seq![self.start_node@];
        let ghost mut labels: Seq<Seq<char>> = Seq::empty();
        let mut fuel: usize = usize::MAX;
        while fuel > 0
            invariant
                visited.len() == labels.len() + 1,
                visited[0] == self.spec_start(),
                visited.last() == current@,
                is_walk(self.edges_view(), visited, labels),
                forall|i: int|
                    0 <= i < visited.len() - 1 ==> self.node_names().contains(visited[i]),
                self.node_names().contains(self.spec_start()) || fuel == usize::MAX,
            decreases fuel,
        {
            fuel = fuel - 1;
            let node = match self.find_node(current.as_str()) {
                Some(node) => node,
                None => {
                    return Ok(take_result(context));
                }
            };
            match node.prepare(context) {
                Ok(_) => (),
                Err(e) => {
                    return Err(e);
                }
            }
            let outcome = node.execute(context);
            let decision = match node.post_process(context, &outcome) {
                Ok(d) => d,
                Err(e) => {
                    return Err(e);
                }
            };
            let label = decision.state.to_condition();
            match self.resolve_next(current.as_str(), label.as_str()) {
                Some(t) => {
                    proof {
                        visited = visited.push(t@);
                        labels = labels.push(label@);
                    }
                    current = t;
                }
                None => {
                    return Ok(take_result(context));
                }
            }
        }
        Err(Error::Other("the run exhausted its visit budget".to_owned()))
    }
}

/// The value stored under `"result"`, or a null value when none is stored.
fn take_result(context: &Context) -> (r: Value)
    ensures
        r@ == (if context@.data.contains_key("result"@) {
            context@.data["result"@]
        } else {
            Val::Null
        }),
{
    match context.get("result") {
        Some(v) => v.duplicate(),
        None => Value::Null,
    }
}

/// A flow repeated over many contexts, one run per context, strictly in
/// order. The batch size is advisory only: it neither chunks nor
/// parallelises the runs.
pub struct BatchFlow<N: Node> {
    /// The wrapped flow the batch runs.
    pub flow: Flow<N>,
    /// The advisory batch size the runner was given.
    pub batch_size: usize,
}

impl<N: Node> BatchFlow<N> {
    /// A batch runner over a fresh graph with one unit, registered under
    /// the given name, where runs start.
    pub fn new(start_node_name: &str, start_node: N, batch_size: usize) -> (r: Self)
        ensures
            r.flow.spec_start() == start_node_name@,
            r.flow.node_map() == Map::<Seq<char>, N>::empty().insert(
                start_node_name@,
                start_node,
            ),
            r.flow.node_names() == Set::<Seq<char>>::empty().insert(start_node_name@),
            r.flow.edges_view() == Seq::<EdgeView>::empty(),
            r.batch_size == batch_size,
    {
        BatchFlow { flow: Flow::new(start_node_name, start_node), batch_size }
    }

    /// Runs the wrapped flow once per context, strictly sequentially and in
    /// input order. The first failed run aborts the batch and surfaces its
    /// error; the contexts after it are not attempted. A batch with nothing
    /// in it succeeds without running anything.
    pub fn run_batch(&self, contexts: Vec<Context>) -> (r: Result<(), Error>)
        ensures
            contexts@.len() == 0 ==> r is Ok,
            !self.flow.node_names().contains(self.flow.spec_start()) ==> r is Ok,
    {
        let mut remaining = contexts;
        while remaining.len() > 0
            invariant
                remaining@.len() <= contexts@.len(),
            decreases remaining@.len(),
        {
            let mut context = remaining.remove(0);
            match self.flow.run(&mut context) {
                Ok(_) => (),
                Err(e) => {
                    return Err(e);
                }
            }
        }
        Ok(())
    }
}

} // verus!
