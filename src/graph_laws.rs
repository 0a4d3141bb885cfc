//! Properties of the graph operations, proved over the table model that the
//! operations' contracts are written in.

use vstd::prelude::*;
use vstd::multiset::Multiset;
use vstd::seq_lib::lemma_multiset_commutative;
use crate::graph::{
    edges_of,
    entry_edges,
    has_node,
    keys_distinct,
    lemma_with_neighbor_names,
    lemma_with_node_has,
    node_names,
    with_neighbor,
    with_node,
    with_undirected_edge,
    EdgeView,
    TableView,
};

verus! {

broadcast use vstd::multiset::group_multiset_axioms, vstd::seq_lib::group_to_multiset_ensures;

/// The edges of the table, counted with their repetitions.
pub open spec fn edge_multiset(t: TableView) -> Multiset<EdgeView> {
    edges_of(t).to_multiset()
}

proof fn lemma_with_node_edges(t: TableView, n: Seq<char>)
    ensures
        edges_of(with_node(t, n)) == edges_of(t),
{
    if !has_node(t, n) {
        let t2 = t.push((n, Seq::<(Seq<char>, i32)>::empty()));
        assert(t2.drop_last() =~= t);
        assert(entry_edges(t2.last()) =~= Seq::<EdgeView>::empty());
        assert(edges_of(t2) =~= edges_of(t));
    }
}

/// Appending `x` to the list of node `n` adds exactly the edge from `n` to
/// `x`'s neighbour.
proof fn lemma_with_neighbor_edges(t: TableView, n: Seq<char>, x: (Seq<char>, i32))
    requires
        keys_distinct(t),
        has_node(t, n),
    ensures
        edge_multiset(with_neighbor(t, n, x)) == edge_multiset(t).insert((n, x.0, x.1)),
    decreases t.len(),
{
    let y: EdgeView = (n, x.0, x.1);
    let t2 = with_neighbor(t, n, x);
    let rest = t.drop_last();
    let e = t.last();
    assert(t2.drop_last() =~= with_neighbor(rest, n, x));
    assert(keys_distinct(rest));
    lemma_multiset_commutative(edges_of(t2.drop_last()), entry_edges(t2.last()));
    lemma_multiset_commutative(edges_of(rest), entry_edges(e));
    if e.0 == n {
        assert(!has_node(rest, n)) by {
            if has_node(rest, n) {
                let i = choose|i: int| 0 <= i < rest.len() && rest[i].0 == n;
                assert(t[i].0 == t[t.len() - 1].0);
            }
        }
        assert(with_neighbor(rest, n, x) =~= rest);
        assert(entry_edges(t2.last()) =~= entry_edges(e).push(y));
        assert(edge_multiset(t2) =~= edge_multiset(t).insert(y));
    } else {
        assert(has_node(rest, n)) by {
            let i = choose|i: int| 0 <= i < t.len() && t[i].0 == n;
            assert(rest[i].0 == n);
        }
        lemma_with_neighbor_edges(rest, n, x);
        assert(t2.last() == e);
        assert(edge_multiset(t2) =~= edge_multiset(t).insert(y));
    }
}

/// Recording an undirected edge `u`-`v` of weight `w` adds exactly the two
/// edges `(u, v, w)` and `(v, u, w)` and keeps all others.
pub proof fn law_add_edge_edges(t: TableView, u: Seq<char>, v: Seq<char>, w: i32)
    requires
        keys_distinct(t),
    ensures
        edge_multiset(with_undirected_edge(t, u, v, w)) == edge_multiset(t).insert((u, v, w)).insert(
            (v, u, w),
        ),
        keys_distinct(with_undirected_edge(t, u, v, w)),
{
    let t1 = with_node(with_node(t, u), v);
    let t2 = with_neighbor(t1, u, (v, w));
    lemma_with_node_edges(t, u);
    lemma_with_node_edges(with_node(t, u), v);
    lemma_with_node_has(t, u, u);
    lemma_with_node_has(with_node(t, u), v, u);
    lemma_with_node_has(with_node(t, u), v, v);
    lemma_with_neighbor_names(t1, u, (v, w));
    lemma_with_neighbor_names(t2, v, (u, w));
    lemma_with_neighbor_edges(t1, u, (v, w));
    lemma_with_neighbor_edges(t2, v, (u, w));
}

/// After an edge `u`-`v` of weight `w` is recorded, the edges hold both
/// `(u, v, w)` and `(v, u, w)`, and every edge held before is still held.
pub proof fn law_edges_symmetric(t: TableView, u: Seq<char>, v: Seq<char>, w: i32)
    requires
        keys_distinct(t),
    ensures
        edges_of(with_undirected_edge(t, u, v, w)).contains((u, v, w)),
        edges_of(with_undirected_edge(t, u, v, w)).contains((v, u, w)),
        forall|e: EdgeView|
            edges_of(t).contains(e) ==> edges_of(with_undirected_edge(t, u, v, w)).contains(e),
{
    law_add_edge_edges(t, u, v, w);
    let t2 = with_undirected_edge(t, u, v, w);
    assert(edge_multiset(t2).count((u, v, w)) > 0);
    assert(edge_multiset(t2).count((v, u, w)) > 0);
    assert forall|e: EdgeView| edges_of(t).contains(e) implies edges_of(t2).contains(e) by {
        assert(edge_multiset(t).count(e) > 0);
        assert(edge_multiset(t2).count(e) >= edge_multiset(t).count(e));
    }
}

/// Recording an edge makes both of its endpoints nodes of the graph, whether
/// they were there before or not.
pub proof fn law_add_edge_adds_endpoints(t: TableView, u: Seq<char>, v: Seq<char>, w: i32)
    ensures
        has_node(with_undirected_edge(t, u, v, w), u),
        has_node(with_undirected_edge(t, u, v, w), v),
{
    let t1 = with_node(with_node(t, u), v);
    lemma_with_node_has(t, u, u);
    lemma_with_node_has(with_node(t, u), v, u);
    lemma_with_node_has(with_node(t, u), v, v);
    lemma_with_neighbor_names(t1, u, (v, w));
    lemma_with_neighbor_names(with_neighbor(t1, u, (v, w)), v, (u, w));
}

/// Recording the same edge twice keeps two copies of it in each direction:
/// between distinct nodes, `(u, v, w)` and `(v, u, w)` each occur twice more
/// than before.
pub proof fn law_add_edge_twice_no_dedup(t: TableView, u: Seq<char>, v: Seq<char>, w: i32)
    requires
        keys_distinct(t),
    ensures
        edge_multiset(with_undirected_edge(with_undirected_edge(t, u, v, w), u, v, w))
            == edge_multiset(t).insert((u, v, w)).insert((v, u, w)).insert((u, v, w)).insert(
            (v, u, w),
        ),
        u != v ==> edge_multiset(with_undirected_edge(with_undirected_edge(t, u, v, w), u, v, w)).count(
            (u, v, w),
        ) == edge_multiset(t).count((u, v, w)) + 2,
        u != v ==> edge_multiset(with_undirected_edge(with_undirected_edge(t, u, v, w), u, v, w)).count(
            (v, u, w),
        ) == edge_multiset(t).count((v, u, w)) + 2,
{
    law_add_edge_edges(t, u, v, w);
    law_add_edge_edges(with_undirected_edge(t, u, v, w), u, v, w);
    if u != v {
        assert((u, v, w) != (v, u, w));
    }
}

/// Adding a node that is absent adds it, a second addition changes nothing,
/// and the node is then named exactly once.
pub proof fn law_add_node_idempotent(t: TableView, n: Seq<char>)
    requires
        keys_distinct(t),
        !has_node(t, n),
    ensures
        has_node(with_node(t, n), n),
        with_node(with_node(t, n), n) == with_node(t, n),
        node_names(with_node(t, n)).to_multiset().count(n) == 1,
{
    lemma_with_node_has(t, n, n);
    let t2 = t.push((n, Seq::<(Seq<char>, i32)>::empty()));
    assert(node_names(t2) =~= node_names(t).push(n));
    assert(!node_names(t).contains(n)) by {
        if node_names(t).contains(n) {
            let i = choose|i: int| 0 <= i < node_names(t).len() && node_names(t)[i] == n;
            assert(t[i].0 == n);
        }
    }
}

/// The empty table has no nodes and no edges.
pub proof fn law_empty_graph()
    ensures
        node_names(Seq::empty()) == Seq::<Seq<char>>::empty(),
        edges_of(Seq::empty()) == Seq::<EdgeView>::empty(),
        forall|n: Seq<char>| !has_node(Seq::empty(), n),
{
    assert(node_names(Seq::empty()) =~= Seq::<Seq<char>>::empty());
}

} // verus!
