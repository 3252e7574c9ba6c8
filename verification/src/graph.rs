//! State graphs: a builder that collects nodes and edges, a compile step that checks that
//! every reference resolves, and the routing rule that picks the next node to run.
//!
//! Nodes and routers are opaque payloads (`N`, `R`): running a node and asking a router
//! for its key happen outside, the graph decides where execution goes.
use vstd::prelude::*;

use crate::assoc::{
    assoc_find, assoc_get, assoc_map, assoc_upsert, keys_unique, lemma_assoc_map_dom,
    lemma_assoc_unique_index,
};
use crate::error::{opt_view, Failure, NuroError};
use crate::text::{concat3, concat_str};

verus! {

/// A conditional edge: a router whose key selects the next node through `routes`.
#[derive(Debug)]
pub struct ConditionalEdge<R> {
    pub router: R,
    pub routes: Vec<(String, String)>,
}

/// The route table of a conditional edge: route key to target node.
pub open spec fn route_map<R>(e: ConditionalEdge<R>) -> Map<Seq<char>, Seq<char>> {
    assoc_map(e.routes@).map_values(|t: String| t@)
}

/// The model of a graph.
pub ghost struct GraphModel<N, R> {
    pub nodes: Map<Seq<char>, N>,
    pub edges: Seq<(Seq<char>, Seq<char>)>,
    pub conditional: Map<Seq<char>, ConditionalEdge<R>>,
    pub entry: Option<Seq<char>>,
    pub finish: Option<Seq<char>>,
}

/// The plain edges of a list of pairs.
pub open spec fn edges_view(es: Seq<(String, String)>) -> Seq<(Seq<char>, Seq<char>)> {
    es.map_values(|e: (String, String)| (e.0@, e.1@))
}

/// `id` names a node of the graph.
pub open spec fn is_node<N, R>(g: GraphModel<N, R>, id: Seq<char>) -> bool {
    g.nodes.contains_key(id)
}

/// Every plain edge starts and ends at a node.
pub open spec fn edges_ok<N, R>(g: GraphModel<N, R>) -> bool {
    forall|i: int|
        #![trigger g.edges[i]]
        0 <= i < g.edges.len() ==> is_node(g, g.edges[i].0) && is_node(g, g.edges[i].1)
}

/// Every conditional edge starts at a node and routes only to nodes.
pub open spec fn routes_ok<N, R>(g: GraphModel<N, R>) -> bool {
    forall|from: Seq<char>|
        #[trigger] g.conditional.contains_key(from) ==> {
            &&& is_node(g, from)
            &&& forall|key: Seq<char>|
                #[trigger] route_map(g.conditional[from]).contains_key(key) ==> is_node(
                    g,
                    route_map(g.conditional[from])[key],
                )
        }
}

/// What `compile` checks: the entry point is set and is a node, the finish point (if
/// set) is a node, and every edge refers to nodes only.
pub open spec fn graph_ok<N, R>(g: GraphModel<N, R>) -> bool {
    &&& g.entry matches Some(e) && is_node(g, e)
    &&& g.finish matches Some(f) ==> is_node(g, f)
    &&& edges_ok(g)
    &&& routes_ok(g)
}

/// Message for a missing entry node.
pub open spec fn msg_entry_missing(e: Seq<char>) -> Seq<char> {
    "entry node '"@ + e + "' not found in graph"@
}

/// Message for a missing finish node.
pub open spec fn msg_finish_missing(f: Seq<char>) -> Seq<char> {
    "finish node '"@ + f + "' not found in graph"@
}

/// Message for a plain edge from an unknown node.
pub open spec fn msg_edge_source(from: Seq<char>) -> Seq<char> {
    "edge references unknown source node '"@ + from + "'"@
}

/// Message for a plain edge to an unknown node.
pub open spec fn msg_edge_target(from: Seq<char>, to: Seq<char>) -> Seq<char> {
    "edge from '"@ + from + "' references unknown target node '"@ + to + "'"@
}

/// Message for a conditional edge from an unknown node.
pub open spec fn msg_cond_source(from: Seq<char>) -> Seq<char> {
    "conditional edge references unknown source node '"@ + from + "'"@
}

/// Message for a route to an unknown node.
pub open spec fn msg_cond_target(from: Seq<char>, key: Seq<char>, to: Seq<char>) -> Seq<char> {
    "conditional edge from '"@ + from + "' with route key '"@ + key
        + "' references unknown target node '"@ + to + "'"@
}

/// `m` reports some plain edge that refers to an unknown node.
pub open spec fn reports_bad_edge<N, R>(g: GraphModel<N, R>, m: Seq<char>) -> bool {
    exists|i: int|
        #![trigger g.edges[i]]
        0 <= i < g.edges.len() && {
            ||| !is_node(g, g.edges[i].0) && m == msg_edge_source(g.edges[i].0)
            ||| is_node(g, g.edges[i].0) && !is_node(g, g.edges[i].1) && m == msg_edge_target(
                g.edges[i].0,
                g.edges[i].1,
            )
        }
}

/// `m` reports some conditional edge that refers to an unknown node.
pub open spec fn reports_bad_route<N, R>(g: GraphModel<N, R>, m: Seq<char>) -> bool {
    exists|from: Seq<char>|
        #![trigger g.conditional.contains_key(from)]
        g.conditional.contains_key(from) && {
            ||| !is_node(g, from) && m == msg_cond_source(from)
            ||| is_node(g, from) && exists|key: Seq<char>|
                #![trigger route_map(g.conditional[from]).contains_key(key)]
                route_map(g.conditional[from]).contains_key(key) && !is_node(
                    g,
                    route_map(g.conditional[from])[key],
                ) && m == msg_cond_target(from, key, route_map(g.conditional[from])[key])
        }
}

/// The first plain edge out of `from`, in insertion order.
pub open spec fn first_target(edges: Seq<(Seq<char>, Seq<char>)>, from: Seq<char>) -> Option<
    Seq<char>,
>
    decreases edges.len(),
{
    if edges.len() == 0 {
        None
    } else if edges[0].0 == from {
        Some(edges[0].1)
    } else {
        first_target(edges.drop_first(), from)
    }
}

/// Where execution goes after node `cur` has run, given the key its router returned (if
/// it has one): nowhere after the finish node; else along the route that the key selects;
/// else along the first plain edge; else nowhere.
pub open spec fn successor<N, R>(g: GraphModel<N, R>, cur: Seq<char>, key: Option<Seq<char>>) -> Option<
    Seq<char>,
> {
    if g.finish == Some(cur) {
        None
    } else if g.conditional.contains_key(cur) && key is Some && route_map(
        g.conditional[cur],
    ).contains_key(key->0) {
        Some(route_map(g.conditional[cur])[key->0])
    } else {
        first_target(g.edges, cur)
    }
}

/// The model of an optional key.
pub open spec fn key_view(k: Option<&str>) -> Option<Seq<char>> {
    match k {
        Some(k) => Some(k@),
        None => None,
    }
}

/// A graph under construction.
#[derive(Debug)]
pub struct StateGraph<N, R> {
    nodes: Vec<(String, N)>,
    edges: Vec<(String, String)>,
    conditional_edges: Vec<(String, ConditionalEdge<R>)>,
    entry: Option<String>,
    finish: Option<String>,
}

/// The route tables of all conditional edges have unique keys.
pub open spec fn routes_unique<R>(cs: Seq<(String, ConditionalEdge<R>)>) -> bool {
    forall|i: int| 0 <= i < cs.len() ==> keys_unique(#[trigger] cs[i].1.routes@)
}

impl<N, R> View for StateGraph<N, R> {
    type V = GraphModel<N, R>;

    closed spec fn view(&self) -> GraphModel<N, R> {
        GraphModel {
            nodes: assoc_map(self.nodes@),
            edges: edges_view(self.edges@),
            conditional: assoc_map(self.conditional_edges@),
            entry: opt_view(self.entry),
            finish: opt_view(self.finish),
        }
    }
}

impl<N, R> StateGraph<N, R> {
    /// The graph's internal consistency: keys of conditional edges and of route tables
    /// are unique.
    pub closed spec fn well_formed(&self) -> bool {
        keys_unique(self.conditional_edges@) && routes_unique(self.conditional_edges@)
    }

    /// An empty graph.
    pub fn new() -> (g: Self)
        ensures
            g.well_formed(),
            g@.nodes == Map::<Seq<char>, N>::empty(),
            g@.edges == Seq::<(Seq<char>, Seq<char>)>::empty(),
            g@.conditional == Map::<Seq<char>, ConditionalEdge<R>>::empty(),
            g@.entry is None,
            g@.finish is None,
    {
        let g = StateGraph {
            nodes: Vec::new(),
            edges: Vec::new(),
            conditional_edges: Vec::new(),
            entry: None,
            finish: None,
        };
        assert(g@.edges =~= Seq::<(Seq<char>, Seq<char>)>::empty());
        g
    }

    /// Adds (or replaces) the node `id`.
    pub fn add_node(self, id: String, node: N) -> (g: Self)
        requires
            self.well_formed(),
        ensures
            g.well_formed(),
            g@ == (GraphModel { nodes: self@.nodes.insert(id@, node), ..self@ }),
    {
        let mut nodes = self.nodes;
        assoc_upsert(&mut nodes, id, node);
        StateGraph { nodes, ..self }
    }

    /// Adds the plain edge `from -> to` after the existing ones.
    pub fn add_edge(self, from: String, to: String) -> (g: Self)
        requires
            self.well_formed(),
        ensures
            g.well_formed(),
            g@ == (GraphModel { edges: self@.edges.push((from@, to@)), ..self@ }),
    {
        let mut edges = self.edges;
        let ghost old_edges = edges@;
        edges.push((from, to));
        let g = StateGraph { edges, ..self };
        assert(edges_view(g.edges@) =~= edges_view(old_edges).push((from@, to@)));
        g
    }

    /// Adds (or replaces) the conditional edge out of `from`. When `routes` names a key more
    /// than once, the last pair wins.
    pub fn add_conditional_edge(self, from: String, router: R, routes: Vec<(String, String)>) -> (g:
        Self)
        requires
            self.well_formed(),
        ensures
            g.well_formed(),
            g@.nodes == self@.nodes,
            g@.edges == self@.edges,
            g@.entry == self@.entry,
            g@.finish == self@.finish,
            g@.conditional.dom() == self@.conditional.dom().insert(from@),
            forall|k: Seq<char>|
                k != from@ && #[trigger] self@.conditional.contains_key(k) ==> g@.conditional[k]
                    == self@.conditional[k],
            g@.conditional[from@].router == router,
            route_map(g@.conditional[from@]) == assoc_map(routes@).map_values(|t: String| t@),
    {
        let mut table: Vec<(String, String)> = Vec::new();
        let mut rest = routes;
        let ghost all = rest@;
        let mut i: usize = 0;
        let n = rest.len();
        while rest.len() > 0
            invariant
                keys_unique(table@),
                i + rest@.len() == n,
                n == all.len(),
                rest@ == all.subrange(i as int, n as int),
                assoc_map(table@) == assoc_map(all.take(i as int)),
            decreases rest@.len(),
        {
            let (k, v) = rest.remove(0);
            proof {
                assert(all.take(i + 1).drop_last() =~= all.take(i as int));
                assert(all.take(i + 1).last() == all[i as int]);
            }
            assoc_upsert(&mut table, k, v);
            i = i + 1;
            proof {
                assert(rest@ =~= all.subrange(i as int, n as int));
            }
        }
        assert(all.take(n as int) =~= all);
        let edge = ConditionalEdge { router, routes: table };
        let mut conditional_edges = self.conditional_edges;
        let ghost before = conditional_edges@;
        let ghost e = edge;
        assoc_upsert(&mut conditional_edges, from, edge);
        proof {
            assert forall|j: int| 0 <= j < conditional_edges@.len() implies keys_unique(
                #[trigger] conditional_edges@[j].1.routes@,
            ) by {
                lemma_assoc_unique_index(conditional_edges@, j);
                let kj = conditional_edges@[j].0@;
                if kj == from@ {
                    assert(conditional_edges@[j].1 == e);
                } else {
                    lemma_assoc_map_dom(before, kj);
                    let b = choose|b: int| 0 <= b < before.len() && before[b].0@ == kj;
                    lemma_assoc_unique_index(before, b);
                    assert(keys_unique(before[b].1.routes@));
                }
            }
            assert(assoc_map(conditional_edges@).dom() =~= assoc_map(before).dom().insert(from@));
        }
        StateGraph { conditional_edges, ..self }
    }

    /// Sets the entry point.
    pub fn set_entry_point(self, id: String) -> (g: Self)
        requires
            self.well_formed(),
        ensures
            g.well_formed(),
            g@ == (GraphModel { entry: Some(id@), ..self@ }),
    {
        StateGraph { entry: Some(id), ..self }
    }

    /// Sets the finish point.
    pub fn set_finish_point(self, id: String) -> (g: Self)
        requires
            self.well_formed(),
        ensures
            g.well_formed(),
            g@ == (GraphModel { finish: Some(id@), ..self@ }),
    {
        StateGraph { finish: Some(id), ..self }
    }

    /// Checks the plain edges: `Ok` when all refer to nodes, else the report of one that
    /// does not.
    fn check_edges(&self) -> (r: Result<(), String>)
        ensures
            r is Ok <==> edges_ok(self@),
            r matches Err(m) ==> reports_bad_edge(self@, m@),
    {
        let ghost g = self@;
        let mut i: usize = 0;
        while i < self.edges.len()
            invariant
                g == self@,
                i <= self.edges@.len(),
                g.edges == edges_view(self.edges@),
                forall|k: int|
                    #![trigger g.edges[k]]
                    0 <= k < i ==> is_node(g, g.edges[k].0) && is_node(g, g.edges[k].1),
            decreases self.edges@.len() - i,
        {
            let (from, to) = (&self.edges[i].0, &self.edges[i].1);
            assert(g.edges[i as int] == (from@, to@));
            match assoc_find(&self.nodes, from.as_str()) {
                None => {
                    let a = concat3("edge references unknown source node '", from.as_str(), "'");
                    assert(reports_bad_edge(g, a@));
                    return Err(a);
                },
                Some(_) => {},
            }
            match assoc_find(&self.nodes, to.as_str()) {
                None => {
                    let a = concat3(
                        "edge from '",
                        from.as_str(),
                        "' references unknown target node '",
                    );
                    let b = concat_str(a.as_str(), to.as_str());
                    let c = concat_str(b.as_str(), "'");
                    assert(c@ == msg_edge_target(from@, to@));
                    assert(reports_bad_edge(g, c@));
                    return Err(c);
                },
                Some(_) => {},
            }
            assert(is_node(g, g.edges[i as int].0) && is_node(g, g.edges[i as int].1));
            i = i + 1;
        }
        Ok(())
    }

    /// Checks the conditional edges: `Ok` when all refer to nodes, else the report of one
    /// that does not.
    fn check_routes(&self) -> (r: Result<(), String>)
        requires
            self.well_formed(),
        ensures
            r is Ok <==> routes_ok(self@),
            r matches Err(m) ==> reports_bad_route(self@, m@),
    {
        let ghost g = self@;
        let ghost cs = self.conditional_edges@;
        let mut i: usize = 0;
        while i < self.conditional_edges.len()
            invariant
                g == self@,
                cs == self.conditional_edges@,
                keys_unique(cs),
                routes_unique(cs),
                g.conditional == assoc_map(cs),
                i <= cs.len(),
                forall|k: int|
                    0 <= k < i ==> {
                        &&& is_node(g, #[trigger] cs[k].0@)
                        &&& forall|key: Seq<char>|
                            route_map(cs[k].1).contains_key(key) ==> is_node(
                                g,
                                route_map(cs[k].1)[key],
                            )
                    },
            decreases cs.len() - i,
        {
            let from = &self.conditional_edges[i].0;
            let edge = &self.conditional_edges[i].1;
            proof {
                lemma_assoc_unique_index(cs, i as int);
            }
            match assoc_find(&self.nodes, from.as_str()) {
                None => {
                    let a = concat3(
                        "conditional edge references unknown source node '",
                        from.as_str(),
                        "'",
                    );
                    assert(g.conditional.contains_key(from@));
                    assert(reports_bad_route(g, a@));
                    return Err(a);
                },
                Some(_) => {},
            }
            let mut j: usize = 0;
            while j < edge.routes.len()
                invariant
                    g == self@,
                    cs == self.conditional_edges@,
                    i < cs.len(),
                    *edge == cs[i as int].1,
                    *from == cs[i as int].0,
                    keys_unique(edge.routes@),
                    g.conditional.contains_key(from@),
                    g.conditional[from@] == *edge,
                    is_node(g, from@),
                    j <= edge.routes@.len(),
                    forall|m: int|
                        0 <= m < j ==> is_node(g, #[trigger] edge.routes@[m].1@),
                decreases edge.routes@.len() - j,
            {
                let key = &edge.routes[j].0;
                let to = &edge.routes[j].1;
                match assoc_find(&self.nodes, to.as_str()) {
                    None => {
                        proof {
                            lemma_assoc_unique_index(edge.routes@, j as int);
                            assert(route_map(*edge).contains_key(key@));
                            assert(route_map(*edge)[key@] == to@);
                        }
                        let a = concat3(
                            "conditional edge from '",
                            from.as_str(),
                            "' with route key '",
                        );
                        let b = concat3(
                            a.as_str(),
                            key.as_str(),
                            "' references unknown target node '",
                        );
                        let c = concat3(b.as_str(), to.as_str(), "'");
                        assert(c@ == msg_cond_target(from@, key@, to@));
                        assert(g.conditional.contains_key(from@));
                        assert(route_map(g.conditional[from@]).contains_key(key@));
                        assert(reports_bad_route(g, c@));
                        return Err(c);
                    },
                    Some(_) => {},
                }
                j = j + 1;
            }
            proof {
                assert forall|key: Seq<char>|
                    route_map(cs[i as int].1).contains_key(key) implies is_node(
                    g,
                    route_map(cs[i as int].1)[key],
                ) by {
                    lemma_assoc_map_dom(edge.routes@, key);
                    let m = choose|m: int| 0 <= m < edge.routes@.len() && edge.routes@[m].0@ == key;
                    lemma_assoc_unique_index(edge.routes@, m);
                }
            }
            i = i + 1;
        }
        proof {
            assert forall|from: Seq<char>| #[trigger] g.conditional.contains_key(from) implies {
                &&& is_node(g, from)
                &&& forall|key: Seq<char>|
                    #[trigger] route_map(g.conditional[from]).contains_key(key) ==> is_node(
                        g,
                        route_map(g.conditional[from])[key],
                    )
            } by {
                lemma_assoc_map_dom(cs, from);
                let k = choose|k: int| 0 <= k < cs.len() && cs[k].0@ == from;
                lemma_assoc_unique_index(cs, k);
                assert(is_node(g, cs[k].0@));
            }
        }
        Ok(())
    }

    /// Checks that the graph is complete and turns it into a runnable graph.
    ///
    /// Fails with `InvalidInput` when the entry point is not set or is not a node, when the
    /// finish point is set and is not a node, or when an edge refers to an unknown node.
    pub fn compile<C>(self) -> (r: Result<CompiledGraph<N, R, C>, NuroError>)
        requires
            self.well_formed(),
        ensures
            r is Ok <==> graph_ok(self@),
            r matches Ok(c) ==> c.well_formed() && c@ == self@ && c.checkpointer() is None,
            self@.entry is None ==> (r matches Err(e) && e@ == Failure::InvalidInput(
                "entry point is not set"@,
            )),
            self@.entry is Some && !is_node(self@, self@.entry->0) ==> (r matches Err(x) && x@
                == Failure::InvalidInput(msg_entry_missing(self@.entry->0))),
            self@.entry is Some && is_node(self@, self@.entry->0) && self@.finish is Some
                && !is_node(self@, self@.finish->0) ==> (r matches Err(x) && x@
                == Failure::InvalidInput(msg_finish_missing(self@.finish->0))),
            self@.entry is Some && is_node(self@, self@.entry->0) && (self@.finish is Some
                ==> is_node(self@, self@.finish->0)) && !edges_ok(self@) ==> (r matches Err(x)
                && x@ is InvalidInput && reports_bad_edge(self@, x@->InvalidInput_0)),
            self@.entry is Some && is_node(self@, self@.entry->0) && (self@.finish is Some
                ==> is_node(self@, self@.finish->0)) && edges_ok(self@) && !routes_ok(self@) ==> (
            r matches Err(x) && x@ is InvalidInput && reports_bad_route(
                self@,
                x@->InvalidInput_0,
            )),
    {
        let entry = match &self.entry {
            None => {
                return Err(NuroError::InvalidInput(String::from_str("entry point is not set")));
            },
            Some(e) => e.clone(),
        };
        if assoc_find(&self.nodes, entry.as_str()).is_none() {
            let m = concat3("entry node '", entry.as_str(), "' not found in graph");
            return Err(NuroError::InvalidInput(m));
        }
        match &self.finish {
            Some(f) => {
                if assoc_find(&self.nodes, f.as_str()).is_none() {
                    let m = concat3("finish node '", f.as_str(), "' not found in graph");
                    return Err(NuroError::InvalidInput(m));
                }
            },
            None => {},
        }
        match self.check_edges() {
            Err(m) => {
                return Err(NuroError::InvalidInput(m));
            },
            Ok(()) => {},
        }
        match self.check_routes() {
            Err(m) => {
                return Err(NuroError::InvalidInput(m));
            },
            Ok(()) => {},
        }
        let c = CompiledGraph {
            entry,
            finish: self.finish,
            nodes: self.nodes,
            edges: self.edges,
            conditional_edges: self.conditional_edges,
            checkpointer: None,
        };
        Ok(c)
    }
}

/// A checked graph, ready to run.
#[derive(Debug)]
pub struct CompiledGraph<N, R, C> {
    entry: String,
    finish: Option<String>,
    nodes: Vec<(String, N)>,
    edges: Vec<(String, String)>,
    conditional_edges: Vec<(String, ConditionalEdge<R>)>,
    checkpointer: Option<C>,
}

impl<N, R, C> View for CompiledGraph<N, R, C> {
    type V = GraphModel<N, R>;

    closed spec fn view(&self) -> GraphModel<N, R> {
        GraphModel {
            nodes: assoc_map(self.nodes@),
            edges: edges_view(self.edges@),
            conditional: assoc_map(self.conditional_edges@),
            entry: Some(self.entry@),
            finish: opt_view(self.finish),
        }
    }
}

impl<N, R, C> CompiledGraph<N, R, C> {
    /// A compiled graph passed all the checks of `compile`.
    pub closed spec fn well_formed(&self) -> bool {
        graph_ok(self@) && keys_unique(self.conditional_edges@) && routes_unique(
            self.conditional_edges@,
        )
    }

    /// The checkpoint store attached to the graph.
    pub closed spec fn checkpointer(&self) -> Option<C> {
        self.checkpointer
    }

    /// The same graph with `checkpointer` attached in place of any earlier one.
    pub closed spec fn attached(self, checkpointer: C) -> Self {
        CompiledGraph { checkpointer: Some(checkpointer), ..self }
    }

    /// Attaches a checkpoint store.
    pub fn with_checkpointer(self, checkpointer: C) -> (g: Self)
        requires
            self.well_formed(),
        ensures
            g == self.attached(checkpointer),
            g.well_formed(),
            g@ == self@,
            g.checkpointer() == Some(checkpointer),
    {
        CompiledGraph { checkpointer: Some(checkpointer), ..self }
    }

    /// The attached checkpoint store, if any.
    pub fn checkpoint_store(&self) -> (r: Option<&C>)
        ensures
            r matches Some(c) ==> self.checkpointer() == Some(*c),
            r is None ==> self.checkpointer() is None,
    {
        match &self.checkpointer {
            Some(c) => Some(c),
            None => None,
        }
    }

    /// The node execution starts at.
    pub fn entry(&self) -> (r: &String)
        ensures
            self@.entry == Some(r@),
    {
        &self.entry
    }

    /// The node named `id`.
    pub fn node(&self, id: &str) -> (r: Option<&N>)
        ensures
            r matches Some(n) ==> self@.nodes.contains_key(id@) && self@.nodes[id@] == *n,
            r is None ==> !self@.nodes.contains_key(id@),
    {
        assoc_get(&self.nodes, id)
    }

    /// The router to consult after node `current` has run: the one of its conditional edge,
    /// unless `current` is the finish node.
    pub fn router_for(&self, current: &str) -> (r: Option<&R>)
        ensures
            r matches Some(x) ==> self@.finish != Some(current@) && self@.conditional.contains_key(
                current@,
            ) && self@.conditional[current@].router == *x,
            r is None ==> self@.finish == Some(current@) || !self@.conditional.contains_key(
                current@,
            ),
    {
        if let Some(f) = &self.finish {
            if crate::text::str_eq(f.as_str(), current) {
                return None;
            }
        }
        match assoc_get(&self.conditional_edges, current) {
            Some(e) => Some(&e.router),
            None => None,
        }
    }

    /// The node to run after `current`, given the key its router returned (`None` when it
    /// has no router). `None` means execution stops.
    pub fn next_node(&self, current: &str, route_key: Option<&str>) -> (r: Option<String>)
        ensures
            opt_view(r) == successor(self@, current@, key_view(route_key)),
    {
        let ghost key = key_view(route_key);
        if let Some(f) = &self.finish {
            if crate::text::str_eq(f.as_str(), current) {
                return None;
            }
        }
        let cond = assoc_get(&self.conditional_edges, current);
        let chosen: Option<&String> = match (cond, route_key) {
            (Some(e), Some(k)) => assoc_get(&e.routes, k),
            _ => None,
        };
        if let Some(t) = chosen {
            return Some(t.clone());
        }
        assert(successor(self@, current@, key) == first_target(self@.edges, current@));
        let ghost es = self@.edges;
        let mut i: usize = 0;
        assert(es.skip(0) =~= es);
        while i < self.edges.len()
            invariant
                es == edges_view(self.edges@),
                es.len() == self.edges@.len(),
                i <= es.len(),
                first_target(es, current@) == first_target(es.skip(i as int), current@),
                successor(self@, current@, key) == first_target(es, current@),
                key == key_view(route_key),
                es == self@.edges,
            decreases es.len() - i,
        {
            let ghost rest = es.skip(i as int);
            assert(rest[0] == es[i as int]);
            assert(es[i as int] == (self.edges@[i as int].0@, self.edges@[i as int].1@));
            if crate::text::str_eq(self.edges[i].0.as_str(), current) {
                assert(first_target(rest, current@) == Some(rest[0].1));
                return Some(self.edges[i].1.clone());
            }
            assert(rest.drop_first() =~= es.skip(i + 1));
            i = i + 1;
        }
        None
    }
}

/// The nodes an execution runs when it starts at `start` and the routers consulted return
/// `keys` in turn (`None` where a node has no router): each next node is the
/// [`successor`] of the one before, up to `keys.len() + 1` nodes, fewer when execution
/// stops earlier.
pub open spec fn walk<N, R>(g: GraphModel<N, R>, start: Seq<char>, keys: Seq<Option<Seq<char>>>) -> Seq<
    Seq<char>,
>
    decreases keys.len(),
{
    if keys.len() == 0 {
        seq![start]
    } else {
        match successor(g, start, keys[0]) {
            Some(next) => seq![start] + walk(g, next, keys.drop_first()),
            None => seq![start],
        }
    }
}

/// A graph runs the same with or without a checkpoint store: attaching one (in place of
/// any earlier one) keeps the graph checked and its entry, finish, nodes and edges, so
/// from the entry point and for any keys its routers return, execution visits the same
/// nodes.
pub proof fn lemma_checkpointer_keeps_run<N, R, C>(
    g: CompiledGraph<N, R, C>,
    c: C,
    keys: Seq<Option<Seq<char>>>,
)
    requires
        g.well_formed(),
    ensures
        g.attached(c).well_formed(),
        g.attached(c)@ == g@,
        g.attached(c).checkpointer() == Some(c),
        walk(g.attached(c)@, g.attached(c)@.entry->0, keys) == walk(g@, g@.entry->0, keys),
{
    assert(g.attached(c)@ == g@);
}

/// An execution of a checked graph that starts at a node runs only nodes of the graph.
pub proof fn lemma_walk_in_graph<N, R>(g: GraphModel<N, R>, start: Seq<char>, keys: Seq<Option<Seq<char>>>)
    requires
        graph_ok(g),
        is_node(g, start),
    ensures
        forall|i: int| 0 <= i < walk(g, start, keys).len() ==> is_node(g, #[trigger] walk(g, start, keys)[i]),
    decreases keys.len(),
{
    if keys.len() > 0 {
        lemma_execution_stays_in_graph(g, start, keys[0]);
        if let Some(next) = successor(g, start, keys[0]) {
            lemma_walk_in_graph(g, next, keys.drop_first());
            let w = walk(g, start, keys);
            let rest = walk(g, next, keys.drop_first());
            assert forall|i: int| 0 <= i < w.len() implies is_node(g, #[trigger] w[i]) by {
                if i > 0 {
                    assert(w[i] == rest[i - 1]);
                }
            }
        }
    }
}

/// `target` is where the first plain edge out of `from` leads: the edge leaving `from`
/// that was added before any other leaving it, or nothing when no edge leaves `from`.
pub open spec fn first_edge_leads_to(
    edges: Seq<(Seq<char>, Seq<char>)>,
    from: Seq<char>,
    target: Option<Seq<char>>,
) -> bool {
    ||| exists|i: int|
        #![trigger edges[i]]
        0 <= i < edges.len() && edges[i].0 == from && (forall|j: int| 0 <= j < i ==> edges[j].0 != from)
            && target == Some(edges[i].1)
    ||| (forall|i: int| 0 <= i < edges.len() ==> edges[i].0 != from) && target == None::<Seq<char>>
}

/// Whether the router of `cur` returned a key that its route table holds.
pub open spec fn route_chosen<N, R>(g: GraphModel<N, R>, cur: Seq<char>, key: Option<Seq<char>>) -> bool {
    g.conditional.contains_key(cur) && key is Some && route_map(g.conditional[cur]).contains_key(key->0)
}

/// Where execution goes after a node, in terms of the graph itself. At the finish node it
/// stops. Elsewhere, when the node has a conditional edge and the key its router returned
/// is in the route table, it goes to that route's target, whatever plain edges leave the
/// node. Otherwise it follows the first plain edge out of the node in the order the edges
/// were added, and stops when there is none.
pub proof fn lemma_next_node_routes<N, R>(g: GraphModel<N, R>, cur: Seq<char>, key: Option<Seq<char>>)
    ensures
        g.finish == Some(cur) ==> successor(g, cur, key) == None::<Seq<char>>,
        g.finish != Some(cur) && route_chosen(g, cur, key) ==> successor(g, cur, key) == Some(
            route_map(g.conditional[cur])[key->0],
        ),
        g.finish != Some(cur) && !route_chosen(g, cur, key) ==> first_edge_leads_to(
            g.edges,
            cur,
            successor(g, cur, key),
        ),
{
    lemma_first_target_is_first_edge(g.edges, cur);
}

/// The first plain edge out of `from` is what `first_target` finds.
proof fn lemma_first_target_is_first_edge(edges: Seq<(Seq<char>, Seq<char>)>, from: Seq<char>)
    ensures
        first_edge_leads_to(edges, from, first_target(edges, from)),
    decreases edges.len(),
{
    if edges.len() == 0 {
    } else if edges[0].0 == from {
        assert(edges[0].0 == from);
    } else {
        let rest = edges.drop_first();
        lemma_first_target_is_first_edge(rest, from);
        let t = first_target(rest, from);
        if exists|i: int|
            #![trigger rest[i]]
            0 <= i < rest.len() && rest[i].0 == from && (forall|j: int| 0 <= j < i ==> rest[j].0 != from)
                && t == Some(rest[i].1) {
            let i = choose|i: int|
                #![trigger rest[i]]
                0 <= i < rest.len() && rest[i].0 == from && (forall|j: int| 0 <= j < i ==> rest[j].0 != from)
                    && t == Some(rest[i].1);
            assert(edges[i + 1] == rest[i]);
            assert forall|j: int| 0 <= j < i + 1 implies edges[j].0 != from by {
                if j > 0 {
                    assert(edges[j] == rest[j - 1]);
                }
            }
        } else {
            assert forall|i: int| 0 <= i < edges.len() implies edges[i].0 != from by {
                if i > 0 {
                    assert(edges[i] == rest[i - 1]);
                }
            }
        }
    }
}

/// The first plain edge out of a node, if any, ends at a node of a checked graph.
proof fn lemma_first_target_is_node<N, R>(g: GraphModel<N, R>, es: Seq<(Seq<char>, Seq<char>)>, cur: Seq<char>)
    requires
        forall|i: int| 0 <= i < es.len() ==> is_node(g, #[trigger] es[i].1),
    ensures
        first_target(es, cur) matches Some(t) ==> is_node(g, t),
    decreases es.len(),
{
    if es.len() > 0 && es[0].0 != cur {
        assert forall|i: int| 0 <= i < es.drop_first().len() implies is_node(
            g,
            #[trigger] es.drop_first()[i].1,
        ) by {
            assert(es.drop_first()[i] == es[i + 1]);
        }
        lemma_first_target_is_node(g, es.drop_first(), cur);
    }
}

/// In a checked graph execution never reaches a missing node: the entry point is a node,
/// and whatever node runs and whatever key its router returns, the next node (if any) is a
/// node of the graph.
pub proof fn lemma_execution_stays_in_graph<N, R>(g: GraphModel<N, R>, cur: Seq<char>, key: Option<Seq<char>>)
    requires
        graph_ok(g),
    ensures
        is_node(g, g.entry->0),
        successor(g, cur, key) matches Some(t) ==> is_node(g, t),
{
    assert forall|i: int| 0 <= i < g.edges.len() implies is_node(g, #[trigger] g.edges[i].1) by {
        assert(is_node(g, g.edges[i].0) && is_node(g, g.edges[i].1));
    }
    lemma_first_target_is_node(g, g.edges, cur);
    if g.conditional.contains_key(cur) && key is Some && route_map(g.conditional[cur]).contains_key(
        key->0,
    ) {
        assert(is_node(g, cur));
    }
}

/// The state carried through a graph: each node returns an update that the state
/// applies to itself.
pub trait GraphStateTrait {
    /// What a node returns.
    type Update;

    /// Merges an update into the state.
    fn apply_update(&mut self, update: Self::Update);
}

/// A store of the latest state saved after each node.
pub trait Checkpointer<S> {
    /// Saves `state` as the latest state of `node_id`.
    fn save_state(&mut self, node_id: &str, state: S) -> Result<(), NuroError>;

    /// The latest state saved for `node_id`; by default, none.
    fn load_state(&self, node_id: &str) -> (r: Result<Option<&S>, NuroError>)
        default_ensures
            r matches Ok(o) && o is None,
    {
        Ok(None)
    }
}

/// A checkpoint store that keeps the latest state saved for each node, in memory.
#[derive(Debug)]
pub struct InMemoryCheckpointer<S> {
    inner: Vec<(String, S)>,
}

impl<S> View for InMemoryCheckpointer<S> {
    type V = Map<Seq<char>, S>;

    closed spec fn view(&self) -> Map<Seq<char>, S> {
        assoc_map(self.inner@)
    }
}

impl<S> InMemoryCheckpointer<S> {
    /// An empty store.
    pub fn new() -> (c: Self)
        ensures
            c@ == Map::<Seq<char>, S>::empty(),
    {
        InMemoryCheckpointer { inner: Vec::new() }
    }

    /// The latest state saved for `node_id`.
    pub fn get(&self, node_id: &str) -> (r: Option<&S>)
        ensures
            r matches Some(s) ==> self@.contains_key(node_id@) && self@[node_id@] == *s,
            r is None ==> !self@.contains_key(node_id@),
    {
        assoc_get(&self.inner, node_id)
    }

    /// Saves `state` as the latest state of `node_id`. Always succeeds.
    pub fn save_state(&mut self, node_id: &str, state: S) -> (r: Result<(), NuroError>)
        ensures
            r is Ok,
            final(self)@ == old(self)@.insert(node_id@, state),
    {
        assoc_upsert(&mut self.inner, String::from_str(node_id), state);
        Ok(())
    }

    /// The latest state saved for `node_id`. Always succeeds.
    pub fn load_state(&self, node_id: &str) -> (r: Result<Option<&S>, NuroError>)
        ensures
            r matches Ok(Some(s)) ==> self@.contains_key(node_id@) && self@[node_id@] == *s,
            r matches Ok(None) ==> !self@.contains_key(node_id@),
            r is Ok,
    {
        Ok(self.get(node_id))
    }
}

impl<S> Checkpointer<S> for InMemoryCheckpointer<S> {
    fn save_state(&mut self, node_id: &str, state: S) -> (r: Result<(), NuroError>)
        ensures
            r is Ok,
            final(self)@ == old(self)@.insert(node_id@, state),
    {
        InMemoryCheckpointer::save_state(self, node_id, state)
    }

    fn load_state(&self, node_id: &str) -> (r: Result<Option<&S>, NuroError>)
        ensures
            r matches Ok(Some(s)) ==> self@.contains_key(node_id@) && self@[node_id@] == *s,
            r matches Ok(None) ==> !self@.contains_key(node_id@),
            r is Ok,
    {
        InMemoryCheckpointer::load_state(self, node_id)
    }
}

/// A read after a save gives back the state saved, and saving for one node leaves the
/// others as they were.
pub proof fn lemma_checkpoint_read_after_write<S>(m: Map<Seq<char>, S>, node: Seq<char>, state: S, other: Seq<char>)
    requires
        other != node,
    ensures
        m.insert(node, state).contains_key(node),
        m.insert(node, state)[node] == state,
        m.insert(node, state).contains_key(other) == m.contains_key(other),
        m.contains_key(other) ==> m.insert(node, state)[other] == m[other],
{
}

/// The state a resumed run starts from: the checkpoint loaded for `node_id`.
///
/// Fails with `InvalidInput` when no checkpoint store is attached or none was saved for
/// the node.
pub fn resume_state<S>(has_checkpointer: bool, loaded: Option<S>, node_id: &str) -> (r: Result<
    S,
    NuroError,
>)
    ensures
        !has_checkpointer ==> (r matches Err(e) && e@ == Failure::InvalidInput(
            "cannot resume without a checkpointer"@,
        )),
        has_checkpointer && loaded is None ==> (r matches Err(e) && e@ == Failure::InvalidInput(
            "no checkpoint found for node '"@ + node_id@ + "'"@,
        )),
        has_checkpointer && loaded is Some ==> r == Ok::<S, NuroError>(loaded->0),
{
    if !has_checkpointer {
        return Err(NuroError::InvalidInput(String::from_str("cannot resume without a checkpointer")));
    }
    match loaded {
        Some(s) => Ok(s),
        None => Err(NuroError::InvalidInput(concat3("no checkpoint found for node '", node_id, "'"))),
    }
}

} // verus!
