//! An undirected weighted graph kept as an adjacency table.
//!
//! The table is a sequence of entries, one per node, each holding the node's
//! name and its list of (neighbour, weight) pairs. Node names are unique in
//! the table; every undirected edge is stored once at each endpoint.

use vstd::prelude::*;

verus! {

/// What the table holds, in the order of its entries.
pub type TableView = Seq<(Seq<char>, Seq<(Seq<char>, i32)>)>;

/// An edge as reported by `edges`: source, target and weight.
pub type EdgeView = (Seq<char>, Seq<char>, i32);

/// The storage behind a graph: one entry per node with its adjacency list.
pub type AdjacencyTable = Vec<(String, Vec<(String, i32)>)>;

/// No two entries of the table share a name.
pub open spec fn keys_distinct(t: TableView) -> bool {
    forall|i: int, j: int| 0 <= i < t.len() && 0 <= j < t.len() && i != j ==> t[i].0 != t[j].0
}

/// `n` names an entry of the table.
pub open spec fn has_node(t: TableView, n: Seq<char>) -> bool {
    exists|i: int| 0 <= i < t.len() && t[i].0 == n
}

/// The names of the table's nodes, in the order of its entries.
pub open spec fn node_names(t: TableView) -> Seq<Seq<char>> {
    t.map_values(|e: (Seq<char>, Seq<(Seq<char>, i32)>)| e.0)
}

/// The edges that one entry contributes, in the order of its list.
pub open spec fn entry_edges(e: (Seq<char>, Seq<(Seq<char>, i32)>)) -> Seq<EdgeView> {
    e.1.map_values(|p: (Seq<char>, i32)| (e.0, p.0, p.1))
}

/// All adjacency entries of the table flattened into edges, entry by entry.
pub open spec fn edges_of(t: TableView) -> Seq<EdgeView>
    decreases t.len(),
{
    if t.len() == 0 {
        Seq::empty()
    } else {
        edges_of(t.drop_last()) + entry_edges(t.last())
    }
}

/// The table after adding node `n`: a new entry with an empty list at the
/// end, or the table unchanged where `n` is already present.
pub open spec fn with_node(t: TableView, n: Seq<char>) -> TableView {
    if has_node(t, n) {
        t
    } else {
        t.push((n, Seq::empty()))
    }
}

/// The table with `x` appended to the list of the entry named `n`.
pub open spec fn with_neighbor(t: TableView, n: Seq<char>, x: (Seq<char>, i32)) -> TableView {
    t.map_values(
        |e: (Seq<char>, Seq<(Seq<char>, i32)>)|
            if e.0 == n {
                (e.0, e.1.push(x))
            } else {
                e
            },
    )
}

/// The table after recording the undirected edge `u`-`v` of weight `w`:
/// both endpoints added, then `(v, w)` appended to `u`'s list and `(u, w)`
/// appended to `v`'s list.
pub open spec fn with_undirected_edge(t: TableView, u: Seq<char>, v: Seq<char>, w: i32) -> TableView {
    with_neighbor(with_neighbor(with_node(with_node(t, u), v), u, (v, w)), v, (u, w))
}

/// Adding a node keeps every node and adds that one.
pub(crate) proof fn lemma_with_node_has(t: TableView, n: Seq<char>, m: Seq<char>)
    ensures
        has_node(with_node(t, n), m) == (has_node(t, m) || m == n),
        keys_distinct(t) ==> keys_distinct(with_node(t, n)),
{
    if !has_node(t, n) {
        let t2 = t.push((n, Seq::<(Seq<char>, i32)>::empty()));
        if m == n {
            assert(t2[t.len() as int].0 == n);
        }
        if has_node(t, m) {
            let i = choose|i: int| 0 <= i < t.len() && t[i].0 == m;
            assert(t2[i].0 == m);
        }
        if has_node(t2, m) {
            let i = choose|i: int| 0 <= i < t2.len() && t2[i].0 == m;
            if i < t.len() {
                assert(t[i].0 == m);
            }
        }
    }
}

/// Appending to one list leaves the names of all entries as they were.
pub(crate) proof fn lemma_with_neighbor_names(t: TableView, n: Seq<char>, x: (Seq<char>, i32))
    ensures
        node_names(with_neighbor(t, n, x)) == node_names(t),
        keys_distinct(t) ==> keys_distinct(with_neighbor(t, n, x)),
        forall|m: Seq<char>| has_node(with_neighbor(t, n, x), m) == has_node(t, m),
{
    let t2 = with_neighbor(t, n, x);
    assert(node_names(t2) =~= node_names(t));
    assert forall|m: Seq<char>| has_node(t2, m) == has_node(t, m) by {
        if has_node(t, m) {
            let i = choose|i: int| 0 <= i < t.len() && t[i].0 == m;
            assert(t2[i].0 == m);
        }
        if has_node(t2, m) {
            let i = choose|i: int| 0 <= i < t2.len() && t2[i].0 == m;
            assert(t[i].0 == m);
        }
    }
}

/// Position of the entry named `key`, if there is one.
fn find_node(table: &AdjacencyTable, key: &String) -> (r: Option<usize>)
    ensures
        match r {
            Some(i) => i < table.deep_view().len() && table.deep_view()[i as int].0 == key@,
            None => !has_node(table.deep_view(), key@),
        },
{
    let mut i: usize = 0;
    while i < table.len()
        invariant
            i <= table.len(),
            forall|k: int| 0 <= k < i ==> table.deep_view()[k].0 != key@,
        decreases table.len() - i,
    {
        if table[i].0 == *key {
            return Some(i);
        }
        i = i + 1;
    }
    None
}

/// Appends `x` to the list of the entry named `key`.
fn push_neighbor(table: &mut AdjacencyTable, key: &String, x: (String, i32))
    requires
        keys_distinct(old(table).deep_view()),
        has_node(old(table).deep_view(), key@),
    ensures
        final(table).deep_view() == with_neighbor(old(table).deep_view(), key@, x.deep_view()),
{
    let ghost t0 = table.deep_view();
    let ghost v0 = table@;
    match find_node(table, key) {
        Some(i) => {
            table[i].1.push(x);
            assert(table@[i as int].1@ == v0[i as int].1@.push(x));
            assert(forall|k: int| 0 <= k < v0.len() && k != i ==> table@[k] == v0[k]);
            assert(table.deep_view()[i as int].1 =~= t0[i as int].1.push(x.deep_view()));
            assert(table.deep_view() =~= with_neighbor(t0, key@, x.deep_view()));
        },
        None => {},
    }
}

/// Marker for a lookup of a node that the graph does not hold.
#[derive(Debug, Clone, Copy)]
pub struct NodeNotInGraph;

impl NodeNotInGraph {
    /// The message that describes this error.
    pub fn message(&self) -> (r: &'static str)
        ensures
            r@ == "accessing a node that is not in the graph"@,
    {
        "accessing a node that is not in the graph"
    }
}

/// The operations every graph representation offers. A representation
/// supplies its storage and its edge policy; node insertion and the queries
/// are shared.
pub trait Graph: Sized {
    /// The graph's adjacency table, as a view.
    spec fn table_spec(&self) -> TableView;

    /// An empty graph.
    fn new() -> (g: Self)
        ensures
            g.table_spec() == Seq::<(Seq<char>, Seq<(Seq<char>, i32)>)>::empty(),
    ;

    /// Mutable access to the storage; what is written through it becomes the
    /// graph's table.
    fn adjacency_table_mutable(&mut self) -> (t: &mut AdjacencyTable)
        ensures
            t.deep_view() == old(self).table_spec(),
            final(self).table_spec() == (*final(t)).deep_view(),
    ;

    /// Read-only access to the storage.
    fn adjacency_table(&self) -> (t: &AdjacencyTable)
        ensures
            t.deep_view() == self.table_spec(),
    ;

    /// Adds `node` with an empty adjacency list unless it is present already;
    /// tells whether it was added.
    fn add_node(&mut self, node: &str) -> (added: bool)
        requires
            keys_distinct(old(self).table_spec()),
        ensures
            added == !has_node(old(self).table_spec(), node@),
            final(self).table_spec() == with_node(old(self).table_spec(), node@),
            keys_distinct(final(self).table_spec()),
    {
        let key: String = node.to_owned();
        let table = self.adjacency_table_mutable();
        match find_node(table, &key) {
            Some(_) => false,
            None => {
                table.push((key, Vec::new()));
                proof {
                    let t = table.deep_view();
                    assert(t =~~= with_node((*old(self)).table_spec(), node@));
                }
                true
            },
        }
    }

    /// Records an edge between the two endpoints of `edge`, adding them as
    /// nodes where they are missing.
    fn add_edge(&mut self, edge: (&str, &str, i32))
        requires
            keys_distinct(old(self).table_spec()),
        ensures
            keys_distinct(final(self).table_spec()),
            has_node(final(self).table_spec(), edge.0@),
            has_node(final(self).table_spec(), edge.1@),
    ;

    /// Whether `node` is a node of the graph.
    fn contains(&self, node: &str) -> (r: bool)
        ensures
            r == has_node(self.table_spec(), node@),
    {
        let key: String = node.to_owned();
        find_node(self.adjacency_table(), &key).is_some()
    }

    /// The names of all nodes, each once.
    fn nodes(&self) -> (r: Vec<String>)
        ensures
            r.deep_view() == node_names(self.table_spec()),
    {
        let table = self.adjacency_table();
        let mut r: Vec<String> = Vec::new();
        let mut i: usize = 0;
        while i < table.len()
            invariant
                i <= table.len(),
                r.deep_view() == node_names(table.deep_view().take(i as int)),
            decreases table.len() - i,
        {
            let ghost prev = r.deep_view();
            r.push(table[i].0.clone());
            assert(r.deep_view() =~= prev.push(table.deep_view()[i as int].0));
            assert(node_names(table.deep_view().take(i as int + 1)) =~= node_names(
                table.deep_view().take(i as int),
            ).push(table.deep_view()[i as int].0));
            i = i + 1;
        }
        assert(table.deep_view().take(i as int) =~= table.deep_view());
        r
    }

    /// Every adjacency entry as a (source, target, weight) triple; each
    /// undirected edge shows once from each endpoint.
    fn edges(&self) -> (r: Vec<(String, String, i32)>)
        ensures
            r.deep_view() == edges_of(self.table_spec()),
    {
        let table = self.adjacency_table();
        let ghost t = table.deep_view();
        let mut r: Vec<(String, String, i32)> = Vec::new();
        let mut i: usize = 0;
        while i < table.len()
            invariant
                i <= table.len(),
                t == table.deep_view(),
                r.deep_view() == edges_of(t.take(i as int)),
            decreases table.len() - i,
        {
            let from = &table[i].0;
            let list = &table[i].1;
            let ghost before = r.deep_view();
            let mut j: usize = 0;
            while j < list.len()
                invariant
                    i < table.len(),
                    t == table.deep_view(),
                    from == &table[i as int].0,
                    list == &table[i as int].1,
                    j <= list.len(),
                    r.deep_view() == before + entry_edges(t[i as int]).take(j as int),
                decreases list.len() - j,
            {
                let ghost prev = r.deep_view();
                r.push((from.clone(), list[j].0.clone(), list[j].1));
                assert(r.deep_view() =~= prev.push(entry_edges(t[i as int])[j as int]));
                assert(entry_edges(t[i as int]).take(j as int + 1) =~= entry_edges(t[i as int]).take(
                    j as int,
                ).push(entry_edges(t[i as int])[j as int]));
                j = j + 1;
                assert(r.deep_view() =~= before + entry_edges(t[i as int]).take(j as int));
            }
            assert(t.take(i as int + 1).drop_last() =~= t.take(i as int));
            assert(entry_edges(t[i as int]).take(j as int) =~= entry_edges(t[i as int]));
            i = i + 1;
        }
        assert(t.take(i as int) =~= t);
        r
    }
}

/// A graph whose edges have no direction: each edge is kept in the lists of
/// both endpoints.
pub struct UndirectedGraph {
    adjacency_table: AdjacencyTable,
}

impl Graph for UndirectedGraph {
    closed spec fn table_spec(&self) -> TableView {
        self.adjacency_table.deep_view()
    }

    fn new() -> (g: UndirectedGraph) {
        let g = UndirectedGraph { adjacency_table: Vec::new() };
        assert(g.adjacency_table.deep_view() =~= Seq::empty());
        g
    }

    fn adjacency_table_mutable(&mut self) -> (t: &mut AdjacencyTable) {
        &mut self.adjacency_table
    }

    fn adjacency_table(&self) -> (t: &AdjacencyTable) {
        &self.adjacency_table
    }

    fn add_edge(&mut self, edge: (&str, &str, i32))
        ensures
            final(self).table_spec() == with_undirected_edge(
                old(self).table_spec(),
                edge.0@,
                edge.1@,
                edge.2,
            ),
    {
        let (src, dest, weight) = edge;
        let ghost t0 = self.table_spec();
        self.add_node(src);
        self.add_node(dest);
        let src_key: String = src.to_owned();
        let dest_key: String = dest.to_owned();
        let ghost t1 = with_node(with_node(t0, src@), dest@);
        proof {
            lemma_with_node_has(t0, src@, src@);
            lemma_with_node_has(with_node(t0, src@), dest@, src@);
            lemma_with_node_has(with_node(t0, src@), dest@, dest@);
            lemma_with_neighbor_names(t1, src@, (dest@, weight));
            lemma_with_neighbor_names(with_neighbor(t1, src@, (dest@, weight)), dest@, (src@, weight));
        }
        let table = self.adjacency_table_mutable();
        push_neighbor(table, &src_key, (dest.to_owned(), weight));
        push_neighbor(table, &dest_key, (src.to_owned(), weight));
    }
}

} // verus!
