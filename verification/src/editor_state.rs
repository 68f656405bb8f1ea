//! The state of the editor shell: its panels, tabs and the file tree that
//! the server sends.
use vstd::prelude::*;
use std::collections::HashMap;
use std::collections::VecDeque;
use crate::text::str_equal;

verus! {

/// A directory tree as the server describes it.
pub enum TreeNode {
    Directory { entries: Vec<DirectoryEntry> },
    File,
}

pub struct DirectoryEntry {
    pub name: String,
    pub node: TreeNode,
}

/// An edge of the file tree: the name under which a node stands, and the
/// node at its other end.
pub struct FileEdge {
    pub name: String,
    pub node_id: usize,
}

/// A node of the file tree as the shell keeps it, under its id.
pub struct FileNode {
    pub parent_edge: Option<FileEdge>,
    pub name: String,
    pub child_edges: Option<Vec<FileEdge>>,
}

impl FileNode {
    /// A node without child edges is a file.
    pub fn is_file(&self) -> (b: bool)
        ensures
            b == self.child_edges is None,
    {
        self.child_edges.is_none()
    }
}

pub open spec fn edge_view(e: FileEdge) -> (Seq<char>, nat) {
    (e.name@, e.node_id as nat)
}

pub open spec fn opt_edge_view(e: Option<FileEdge>) -> Option<(Seq<char>, nat)> {
    match e {
        Some(e) => Some(edge_view(e)),
        None => None,
    }
}

/// The nodes below the root of a tree, numbered from `base + 1`.
pub open spec fn child_nodes(t: TreeNode, base: nat) -> Seq<FileNodeView> {
    match t {
        TreeNode::File => Seq::empty(),
        TreeNode::Directory { entries } => flatten_entries(entries@, base + 1, base).0,
    }
}

/// A node seen as texts and numbers.
pub struct FileNodeView {
    pub parent_edge: Option<(Seq<char>, nat)>,
    pub name: Seq<char>,
    pub child_edges: Option<Seq<(Seq<char>, nat)>>,
}

impl View for FileNode {
    type V = FileNodeView;

    open spec fn view(&self) -> FileNodeView {
        FileNodeView {
            parent_edge: match self.parent_edge {
                Some(e) => Some(edge_view(e)),
                None => None,
            },
            name: self.name@,
            child_edges: match self.child_edges {
                Some(v) => Some(v@.map_values(|e: FileEdge| edge_view(e))),
                None => None,
            },
        }
    }
}

/// The name that a node gets from the edge it hangs on; the root is "root".
pub open spec fn node_name(parent_edge: Option<(Seq<char>, nat)>) -> Seq<char> {
    match parent_edge {
        Some(e) => e.0,
        None => "root"@,
    }
}

/// The nodes that a tree becomes, numbered in pre-order from `base`: the
/// node of the tree itself, then the nodes of each entry in turn.
pub open spec fn flatten(t: TreeNode, base: nat, parent_edge: Option<(Seq<char>, nat)>) -> Seq<
    FileNodeView,
>
    decreases t, 1nat,
{
    match t {
        TreeNode::File => seq![
            FileNodeView { parent_edge, name: node_name(parent_edge), child_edges: None },
        ],
        TreeNode::Directory { entries } => {
            let r = flatten_entries(entries@, base + 1, base);
            seq![
                FileNodeView {
                    parent_edge,
                    name: node_name(parent_edge),
                    child_edges: Some(r.1),
                },
            ] + r.0
        },
    }
}

/// The nodes of a directory's entries, numbered from `next`, and the edges
/// from the directory (node `parent`) to them.
pub open spec fn flatten_entries(entries: Seq<DirectoryEntry>, next: nat, parent: nat) -> (
    Seq<FileNodeView>,
    Seq<(Seq<char>, nat)>,
)
    decreases entries, 0nat,
{
    if entries.len() == 0 {
        (Seq::empty(), Seq::empty())
    } else {
        let r = flatten_entries(entries.drop_last(), next, parent);
        let e = entries.last();
        let id = next + r.0.len();
        (r.0 + flatten(e.node, id, Some((e.name@, parent))), r.1.push((e.name@, id)))
    }
}


proof fn lemma_flatten_len(t: TreeNode, base: nat, parent_edge: Option<(Seq<char>, nat)>)
    ensures
        flatten(t, base, parent_edge).len() >= 1,
        flatten(t, base, parent_edge)[0].parent_edge == parent_edge,
    decreases t, 1nat,
{
}

proof fn lemma_flatten_entries_len(entries: Seq<DirectoryEntry>, next: nat, parent: nat)
    ensures
        flatten_entries(entries, next, parent).1.len() == entries.len(),
    decreases entries, 0nat,
{
    if entries.len() > 0 {
        lemma_flatten_entries_len(entries.drop_last(), next, parent);
    }
}

proof fn lemma_flatten_entries_prefix(es: Seq<DirectoryEntry>, j: int, next: nat, parent: nat)
    requires
        0 <= j <= es.len(),
    ensures
        flatten_entries(es.take(j), next, parent).0.len() <= flatten_entries(es, next, parent).0.len(),
    decreases es.len(),
{
    if j == es.len() {
        assert(es.take(j) =~= es);
    } else {
        assert(es.drop_last().take(j) =~= es.take(j));
        lemma_flatten_entries_prefix(es.drop_last(), j, next, parent);
    }
}

/// `m` is `old_m` with `nodes` placed under the ids `base`, `base + 1`, ...
pub open spec fn placed(
    old_m: Map<usize, FileNode>,
    m: Map<usize, FileNode>,
    base: nat,
    nodes: Seq<FileNodeView>,
) -> bool {
    &&& base + nodes.len() <= usize::MAX
    &&& forall|k: usize| #[trigger]
        m.contains_key(k) <==> (old_m.contains_key(k) || (base <= k < base + nodes.len()))
    &&& forall|k: usize|
        old_m.contains_key(k) && !(base <= k < base + nodes.len()) ==> #[trigger] m[k] == old_m[k]
    &&& forall|i: int| 0 <= i < nodes.len() ==> (#[trigger] m[(base + i) as usize])@ == nodes[i]
}

proof fn lemma_placed_empty(m: Map<usize, FileNode>, base: nat)
    requires
        base <= usize::MAX,
    ensures
        placed(m, m, base, Seq::empty()),
{
}

proof fn lemma_placed_append(
    m0: Map<usize, FileNode>,
    m1: Map<usize, FileNode>,
    m2: Map<usize, FileNode>,
    base: nat,
    xs: Seq<FileNodeView>,
    ys: Seq<FileNodeView>,
)
    requires
        placed(m0, m1, base, xs),
        placed(m1, m2, base + xs.len(), ys),
        base + xs.len() + ys.len() <= usize::MAX,
    ensures
        placed(m0, m2, base, xs + ys),
{
    let zs = xs + ys;
    assert forall|i: int| 0 <= i < zs.len() implies (#[trigger] m2[(base + i) as usize])@ == zs[i] by {
        if i < xs.len() {
            assert(m1.contains_key((base + i) as usize));
            assert(m2[(base + i) as usize] == m1[(base + i) as usize]);
        } else {
            let j = i - xs.len();
            assert(m2[(base + xs.len() + j) as usize]@ == ys[j]);
        }
    }
}

proof fn lemma_placed_front(
    m0: Map<usize, FileNode>,
    m1: Map<usize, FileNode>,
    base: nat,
    xs: Seq<FileNodeView>,
    n: FileNode,
)
    requires
        placed(m0, m1, base + 1, xs),
        base < usize::MAX,
    ensures
        placed(m0, m1.insert(base as usize, n), base, seq![n@] + xs),
{
    let m2 = m1.insert(base as usize, n);
    let zs = seq![n@] + xs;
    assert forall|i: int| 0 <= i < zs.len() implies (#[trigger] m2[(base + i) as usize])@ == zs[i] by {
        if i > 0 {
            assert(m1[(base + 1 + (i - 1)) as usize]@ == xs[i - 1]);
        }
    }
}

/// Adds the nodes of `node` to `nodes`, numbered in pre-order from the
/// current `next_node_id`, and returns the id of its own node.
fn create_file_node(
    next_node_id: &mut usize,
    nodes: &mut HashMap<usize, FileNode>,
    parent_edge: Option<FileEdge>,
    node: &TreeNode,
) -> (id: usize)
    requires
        *old(next_node_id) + flatten(
            *node,
            *old(next_node_id) as nat,
            match parent_edge {
                Some(e) => Some(edge_view(e)),
                None => None,
            },
        ).len() <= usize::MAX,
    ensures
        ({
            let flat = flatten(*node, *old(next_node_id) as nat, opt_edge_view(parent_edge));
            &&& id == *old(next_node_id)
            &&& *final(next_node_id) == *old(next_node_id) + flat.len()
            &&& placed(old(nodes)@, final(nodes)@, *old(next_node_id) as nat, flat)
        }),
    decreases *node, 1nat,
{
    let ghost pe = opt_edge_view(parent_edge);
    let ghost m0 = nodes@;
    let id = *next_node_id;
    proof {
        lemma_flatten_len(*node, id as nat, pe);
    }
    *next_node_id = id + 1;
    let name = match &parent_edge {
        Some(e) => e.name.clone(),
        None => String::from_str("root"),
    };
    let child_edges = match node {
        TreeNode::File => None,
        TreeNode::Directory { entries } => {
            let ghost es = entries@;
            let mut edges: Vec<FileEdge> = Vec::new();
            let mut k: usize = 0;
            proof {
                lemma_placed_empty(m0, id as nat + 1);
                assert(es.take(0) =~= Seq::<DirectoryEntry>::empty());
            }
            while k < entries.len()
                invariant
                    k <= entries@.len(),
                    es == entries@,
                    *node == (TreeNode::Directory { entries: *entries }),
                    flatten(*node, id as nat, pe) == seq![
                        FileNodeView {
                            parent_edge: pe,
                            name: node_name(pe),
                            child_edges: Some(flatten_entries(es, id as nat + 1, id as nat).1),
                        },
                    ] + flatten_entries(es, id as nat + 1, id as nat).0,
                    id + flatten(*node, id as nat, pe).len() <= usize::MAX,
                    *next_node_id == id + 1 + flatten_entries(es.take(k as int), id as nat + 1, id as nat).0.len(),
                    edges@.map_values(|e: FileEdge| edge_view(e)) == flatten_entries(
                        es.take(k as int),
                        id as nat + 1,
                        id as nat,
                    ).1,
                    placed(
                        m0,
                        nodes@,
                        id as nat + 1,
                        flatten_entries(es.take(k as int), id as nat + 1, id as nat).0,
                    ),
                decreases entries.len() - k,
            {
                let ghost m1 = nodes@;
                let ghost before = flatten_entries(es.take(k as int), id as nat + 1, id as nat);
                let ghost after = flatten_entries(es.take(k + 1), id as nat + 1, id as nat);
                proof {
                    assert(es.take(k + 1).drop_last() =~= es.take(k as int));
                    assert(es.take(k + 1).last() == es[k as int]);
                    lemma_flatten_entries_prefix(es, k + 1, id as nat + 1, id as nat);
                }
                let entry = &entries[k];
                let child_id = *next_node_id;
                let edge_name = entry.name.clone();
                assert(decreases_to!(*node => entry.node));
                let cid = create_file_node(
                    next_node_id,
                    nodes,
                    Some(FileEdge { name: edge_name, node_id: id }),
                    &entry.node,
                );
                edges.push(FileEdge { name: entry.name.clone(), node_id: cid });
                proof {
                    lemma_placed_append(
                        m0,
                        m1,
                        nodes@,
                        id as nat + 1,
                        before.0,
                        flatten(entry.node, child_id as nat, Some((entry.name@, id as nat))),
                    );
                    assert(edges@.map_values(|e: FileEdge| edge_view(e)) =~= after.1);
                }
                k = k + 1;
            }
            proof {
                assert(es.take(entries.len() as int) =~= es);
            }
            Some(edges)
        },
    };
    let ghost m1 = nodes@;
    let ghost children = child_nodes(*node, id as nat);
    proof {
        if node is File {
            lemma_placed_empty(m0, id as nat + 1);
            assert(m1 == m0);
        }
    }
    let file_node = FileNode { parent_edge, name, child_edges };
    nodes.insert(id, file_node);
    proof {
        lemma_placed_front(m0, m1, id as nat, children, file_node);
        assert(seq![file_node@] + children =~= flatten(*node, id as nat, pe));
    }
    id
}


/// Within the nodes of a tree, every node but the first hangs on an edge
/// from a node with a smaller number that is among them.
proof fn lemma_flatten_parents(t: TreeNode, base: nat, parent_edge: Option<(Seq<char>, nat)>)
    ensures
        forall|i: int|
            0 < i < flatten(t, base, parent_edge).len() ==> ((#[trigger] flatten(
                t,
                base,
                parent_edge,
            )[i]).parent_edge matches Some((_, p)) && base <= p < base + i),
    decreases t, 1nat,
{
    match t {
        TreeNode::File => {},
        TreeNode::Directory { entries } => {
            lemma_flatten_entries_parents(entries@, base + 1, base);
        },
    }
}

proof fn lemma_flatten_entries_parents(entries: Seq<DirectoryEntry>, next: nat, parent: nat)
    requires
        parent < next,
    ensures
        forall|i: int|
            0 <= i < flatten_entries(entries, next, parent).0.len() ==> ((
            #[trigger] flatten_entries(entries, next, parent).0[i]).parent_edge matches Some((_, p))
                && parent <= p < next + i),
    decreases entries, 0nat,
{
    if entries.len() > 0 {
        let r = flatten_entries(entries.drop_last(), next, parent);
        let e = entries.last();
        let id = next + r.0.len();
        let f = flatten(e.node, id, Some((e.name@, parent)));
        lemma_flatten_entries_parents(entries.drop_last(), next, parent);
        lemma_flatten_parents(e.node, id, Some((e.name@, parent)));
        lemma_flatten_len(e.node, id, Some((e.name@, parent)));
        let all = flatten_entries(entries, next, parent).0;
        assert(all == r.0 + f);
        assert forall|i: int| 0 <= i < all.len() implies (#[trigger] all[i]).parent_edge matches Some((_, p))
            && parent <= p < next + i by {
            if i < r.0.len() {
                assert(all[i] == r.0[i]);
            } else {
                assert(all[i] == f[i - r.0.len()]);
            }
        }
    }
}

/// The path of names to each node of a tree, numbered as `flatten` numbers
/// them: the tree's own node has `prefix`, each entry's nodes extend it by
/// the entry's name.
pub open spec fn flatten_paths(t: TreeNode, prefix: Seq<Seq<char>>) -> Seq<Seq<Seq<char>>>
    decreases t, 1nat,
{
    match t {
        TreeNode::File => seq![prefix],
        TreeNode::Directory { entries } => seq![prefix] + entries_paths(entries@, prefix),
    }
}

/// The paths of the nodes of a directory's entries, below `prefix`.
pub open spec fn entries_paths(entries: Seq<DirectoryEntry>, prefix: Seq<Seq<char>>) -> Seq<
    Seq<Seq<char>>,
>
    decreases entries, 0nat,
{
    if entries.len() == 0 {
        Seq::empty()
    } else {
        let e = entries.last();
        entries_paths(entries.drop_last(), prefix) + flatten_paths(e.node, prefix.push(e.name@))
    }
}

/// Edges listed with rising node numbers.
pub open spec fn edges_sorted(es: Seq<(Seq<char>, nat)>) -> bool {
    forall|a: int, b: int| 0 <= a < b < es.len() ==> #[trigger] es[a].1 < #[trigger] es[b].1
}

/// Node `base + i` (with `i > 0`) hangs on an edge from an earlier node that
/// lists it among its children, and its path is that node's path and the
/// edge's name.
pub open spec fn child_ok(f: Seq<FileNodeView>, p: Seq<Seq<Seq<char>>>, base: nat, i: int) -> bool {
    match f[i].parent_edge {
        Some((nm, q)) => base <= q < base + i && match f[q - base].child_edges {
            Some(es) => es.contains((nm, (base + i) as nat)) && p[i] == p[q - base].push(nm),
            None => false,
        },
        None => false,
    }
}

/// An edge from node `base + j` leads to a later node that hangs on it.
pub open spec fn edge_ok(f: Seq<FileNodeView>, base: nat, j: int, e: (Seq<char>, nat)) -> bool {
    base + j < e.1 < base + f.len() && f[e.1 - base].parent_edge == Some((e.0, (base + j) as nat))
}

/// The child edges of node `base + j` lead to later nodes that hang on
/// them, in rising order.
pub open spec fn parent_ok(f: Seq<FileNodeView>, base: nat, j: int) -> bool {
    f[j].child_edges matches Some(es) ==> (edges_sorted(es) && forall|k: int|
        0 <= k < es.len() ==> #[trigger] edge_ok(f, base, j, es[k]))
}

/// The shape of numbered nodes: each but the first hangs on an edge from an
/// earlier one that lists it, each edge leads to the node that hangs on it,
/// and paths follow the edges.
pub open spec fn flat_ok(f: Seq<FileNodeView>, p: Seq<Seq<Seq<char>>>, base: nat) -> bool {
    &&& p.len() == f.len()
    &&& forall|i: int| 0 < i < f.len() ==> #[trigger] child_ok(f, p, base, i)
    &&& forall|j: int| 0 <= j < f.len() ==> #[trigger] parent_ok(f, base, j)
}

/// The edge for entry `k` leads to that entry's node, which hangs on the
/// directory `parent` and whose path is `prefix` and the entry's name.
pub open spec fn entry_edge_ok(
    r: Seq<FileNodeView>,
    es: Seq<(Seq<char>, nat)>,
    q: Seq<Seq<Seq<char>>>,
    entries: Seq<DirectoryEntry>,
    next: nat,
    parent: nat,
    prefix: Seq<Seq<char>>,
    k: int,
) -> bool {
    &&& es[k].0 == entries[k].name@
    &&& next <= es[k].1 < next + r.len()
    &&& r[es[k].1 - next].parent_edge == Some((es[k].0, parent))
    &&& q[es[k].1 - next] == prefix.push(es[k].0)
}

/// Node `next + i` of a directory's entries hangs on the directory (by one of
/// its edges) or on an earlier node of the entries that lists it.
pub open spec fn entry_child_ok(
    r: Seq<FileNodeView>,
    es: Seq<(Seq<char>, nat)>,
    q: Seq<Seq<Seq<char>>>,
    next: nat,
    parent: nat,
    prefix: Seq<Seq<char>>,
    i: int,
) -> bool {
    match r[i].parent_edge {
        Some((nm, p)) => (p == parent && es.contains((nm, (next + i) as nat)) && q[i] == prefix.push(
            nm,
        )) || (next <= p < next + i && match r[p - next].child_edges {
            Some(ces) => ces.contains((nm, (next + i) as nat)) && q[i] == q[p - next].push(nm),
            None => false,
        }),
        None => false,
    }
}

pub open spec fn entries_ok(
    r: Seq<FileNodeView>,
    es: Seq<(Seq<char>, nat)>,
    q: Seq<Seq<Seq<char>>>,
    entries: Seq<DirectoryEntry>,
    next: nat,
    parent: nat,
    prefix: Seq<Seq<char>>,
) -> bool {
    &&& q.len() == r.len()
    &&& es.len() == entries.len()
    &&& edges_sorted(es)
    &&& forall|k: int|
        0 <= k < es.len() ==> #[trigger] entry_edge_ok(r, es, q, entries, next, parent, prefix, k)
    &&& forall|i: int| 0 <= i < r.len() ==> #[trigger] entry_child_ok(r, es, q, next, parent, prefix, i)
    &&& forall|j: int| 0 <= j < r.len() ==> #[trigger] parent_ok(r, next, j)
}

proof fn lemma_flatten_ok(t: TreeNode, base: nat, pe: Option<(Seq<char>, nat)>, prefix: Seq<Seq<char>>)
    ensures
        flatten(t, base, pe).len() >= 1,
        flatten(t, base, pe)[0].parent_edge == pe,
        flatten(t, base, pe)[0].name == node_name(pe),
        flatten_paths(t, prefix)[0] == prefix,
        flat_ok(flatten(t, base, pe), flatten_paths(t, prefix), base),
    decreases t, 1nat,
{
    let f = flatten(t, base, pe);
    let p = flatten_paths(t, prefix);
    match t {
        TreeNode::File => {
            assert(parent_ok(f, base, 0));
        },
        TreeNode::Directory { entries } => {
            let (r, es) = flatten_entries(entries@, base + 1, base);
            let q = entries_paths(entries@, prefix);
            lemma_entries_ok(entries@, base + 1, base, prefix);
            assert(f == seq![f[0]] + r);
            assert(p == seq![prefix] + q);
            assert(f[0].child_edges == Some(es));
            assert forall|i: int| 0 < i < f.len() implies #[trigger] child_ok(f, p, base, i) by {
                assert(f[i] == r[i - 1]);
                assert(p[i] == q[i - 1]);
                assert(entry_child_ok(r, es, q, base + 1, base, prefix, i - 1));
                let (nm, pp) = r[i - 1].parent_edge.unwrap();
                if pp == base {
                } else {
                    assert(f[pp - base] == r[pp - (base + 1)]);
                    assert(p[pp - base] == q[pp - (base + 1)]);
                }
            }
            assert forall|j: int| 0 <= j < f.len() implies #[trigger] parent_ok(f, base, j) by {
                if j == 0 {
                    assert forall|k: int| 0 <= k < es.len() implies #[trigger] edge_ok(f, base, 0, es[k]) by {
                        assert(entry_edge_ok(r, es, q, entries@, base + 1, base, prefix, k));
                        assert(f[es[k].1 - base] == r[es[k].1 - (base + 1)]);
                    }
                } else {
                    assert(f[j] == r[j - 1]);
                    assert(parent_ok(r, base + 1, j - 1));
                    match f[j].child_edges {
                        Some(ces) => {
                            assert forall|k: int| 0 <= k < ces.len() implies #[trigger] edge_ok(f, base, j, ces[k]) by {
                                assert(edge_ok(r, base + 1, j - 1, ces[k]));
                                assert(f[ces[k].1 - base] == r[ces[k].1 - (base + 1)]);
                            }
                        },
                        None => {},
                    }
                }
            }
        },
    }
}

proof fn lemma_entries_ok(entries: Seq<DirectoryEntry>, next: nat, parent: nat, prefix: Seq<Seq<char>>)
    requires
        parent < next,
    ensures
        entries_ok(
            flatten_entries(entries, next, parent).0,
            flatten_entries(entries, next, parent).1,
            entries_paths(entries, prefix),
            entries,
            next,
            parent,
            prefix,
        ),
    decreases entries, 0nat,
{
    let (r, es) = flatten_entries(entries, next, parent);
    let q = entries_paths(entries, prefix);
    if entries.len() == 0 {
    } else {
        let init = entries.drop_last();
        let e = entries.last();
        let (r0, es0) = flatten_entries(init, next, parent);
        let q0 = entries_paths(init, prefix);
        let id = next + r0.len();
        let pe = Some((e.name@, parent));
        let f = flatten(e.node, id, pe);
        let p = flatten_paths(e.node, prefix.push(e.name@));
        lemma_entries_ok(init, next, parent, prefix);
        lemma_flatten_ok(e.node, id, pe, prefix.push(e.name@));
        assert(r == r0 + f);
        assert(es == es0.push((e.name@, id)));
        assert(q == q0 + p);
        assert(edges_sorted(es)) by {
            assert forall|a: int, b: int| 0 <= a < b < es.len() implies #[trigger] es[a].1 < #[trigger] es[b].1 by {
                if b < es0.len() {
                    assert(es[a] == es0[a]);
                    assert(es[b] == es0[b]);
                } else {
                    assert(es[a] == es0[a]);
                    assert(entry_edge_ok(r0, es0, q0, init, next, parent, prefix, a));
                }
            }
        }
        assert forall|k: int| 0 <= k < es.len() implies #[trigger] entry_edge_ok(r, es, q, entries, next, parent, prefix, k) by {
            if k < es0.len() {
                assert(es[k] == es0[k]);
                assert(entries[k] == init[k]);
                assert(entry_edge_ok(r0, es0, q0, init, next, parent, prefix, k));
                assert(r[es[k].1 - next] == r0[es[k].1 - next]);
                assert(q[es[k].1 - next] == q0[es[k].1 - next]);
            } else {
                assert(r[id - next] == f[0]);
                assert(q[id - next] == p[0]);
            }
        }
        assert forall|i: int| 0 <= i < r.len() implies #[trigger] entry_child_ok(r, es, q, next, parent, prefix, i) by {
            if i < r0.len() {
                assert(r[i] == r0[i]);
                assert(q[i] == q0[i]);
                assert(entry_child_ok(r0, es0, q0, next, parent, prefix, i));
                let (nm, pp) = r0[i].parent_edge.unwrap();
                if pp == parent {
                    let k = choose|k: int| 0 <= k < es0.len() && es0[k] == (nm, (next + i) as nat);
                    assert(es[k] == es0[k]);
                } else {
                    assert(r[pp - next] == r0[pp - next]);
                    assert(q[pp - next] == q0[pp - next]);
                }
            } else {
                let ii = i - r0.len();
                assert(r[i] == f[ii]);
                assert(q[i] == p[ii]);
                if ii == 0 {
                    assert(es[es0.len() as int] == (e.name@, id));
                } else {
                    assert(child_ok(f, p, id, ii));
                    let (nm, pp) = f[ii].parent_edge.unwrap();
                    assert(r[pp - next] == f[pp - id]);
                    assert(q[pp - next] == p[pp - id]);
                }
            }
        }
        assert forall|j: int| 0 <= j < r.len() implies #[trigger] parent_ok(r, next, j) by {
            if j < r0.len() {
                assert(r[j] == r0[j]);
                assert(parent_ok(r0, next, j));
                match r[j].child_edges {
                    Some(ces) => {
                        assert forall|k: int| 0 <= k < ces.len() implies #[trigger] edge_ok(r, next, j, ces[k]) by {
                            assert(edge_ok(r0, next, j, ces[k]));
                            assert(r[ces[k].1 - next] == r0[ces[k].1 - next]);
                        }
                    },
                    None => {},
                }
            } else {
                let jj = j - r0.len();
                assert(r[j] == f[jj]);
                assert(parent_ok(f, id, jj));
                match r[j].child_edges {
                    Some(ces) => {
                        assert forall|k: int| 0 <= k < ces.len() implies #[trigger] edge_ok(r, next, j, ces[k]) by {
                            assert(edge_ok(f, id, jj, ces[k]));
                            assert(r[ces[k].1 - next] == f[ces[k].1 - id]);
                        }
                    },
                    None => {},
                }
            }
        }
    }
}

/// After the file tree is replaced, node 0 is its root, named "root" with no
/// parent; every other node hangs on an edge from an earlier node (pre-order)
/// that lists it among its children, in the order of the directory's entries;
/// every child edge leads to the node that hangs on it.
pub proof fn law_file_tree_shape(old: State, new: State, root: TreeNode)
    requires
        file_tree_set(old, new, root),
    ensures
        new.file_nodes_by_node_id@.contains_key(0),
        new.file_nodes_by_node_id@[0]@.parent_edge is None,
        new.file_nodes_by_node_id@[0]@.name == "root"@,
        flat_ok(flatten(root, 0, None), flatten_paths(root, Seq::empty()), 0),
        forall|k: usize|
            #[trigger] new.file_nodes_by_node_id@.contains_key(k) ==> new.file_nodes_by_node_id@[k]@
                == flatten(root, 0, None)[k as int],
{
    lemma_flatten_ok(root, 0, None, Seq::empty());
    assert(new.file_nodes_by_node_id@[0]@ == flatten(root, 0, None)[0]);
}

proof fn lemma_path_is_entry_names(m: Map<usize, FileNode>, f: Seq<FileNodeView>, p: Seq<Seq<Seq<char>>>, k: nat)
    requires
        k < f.len(),
        f.len() <= usize::MAX + 1,
        flat_ok(f, p, 0),
        f[0].parent_edge is None,
        p[0] == Seq::<Seq<char>>::empty(),
        forall|n: usize| n < f.len() ==> #[trigger] m.contains_key(n) && m[n]@ == f[n as int],
    ensures
        path_of(m, k) == p[k as int],
    decreases k,
{
    assert(m.contains_key(k as usize));
    assert(m[k as usize]@ == f[k as int]);
    if k > 0 {
        assert(child_ok(f, p, 0, k as int));
        let e = m[k as usize].parent_edge.unwrap();
        assert(f[k as int].parent_edge == Some((e.name@, e.node_id as nat)));
        lemma_path_is_entry_names(m, f, p, e.node_id as nat);
    }
}

/// After the file tree is replaced, the path of each node is the names of
/// the directory entries from the root down to it (empty for the root).
pub proof fn law_file_paths_are_entry_names(old: State, new: State, root: TreeNode, k: usize)
    requires
        file_tree_set(old, new, root),
        new.file_nodes_by_node_id@.contains_key(k),
    ensures
        path_of(new.file_nodes_by_node_id@, k as nat) == flatten_paths(root, Seq::empty())[k as int],
{
    let f = flatten(root, 0, None);
    lemma_flatten_ok(root, 0, None, Seq::empty());
    assert forall|n: usize| n < f.len() implies #[trigger] new.file_nodes_by_node_id@.contains_key(n)
        && new.file_nodes_by_node_id@[n]@ == f[n as int] by {}
    lemma_path_is_entry_names(new.file_nodes_by_node_id@, f, flatten_paths(root, Seq::empty()), k as nat);
}

/// The subtrees of a tree in pre-order: the tree itself, then the subtrees
/// of each of its entries in turn.
pub open spec fn preorder_nodes(t: TreeNode) -> Seq<TreeNode>
    decreases t, 1nat,
{
    match t {
        TreeNode::File => seq![t],
        TreeNode::Directory { entries } => seq![t] + preorder_entries(entries@),
    }
}

/// The subtrees of a directory's entries in pre-order.
pub open spec fn preorder_entries(entries: Seq<DirectoryEntry>) -> Seq<TreeNode>
    decreases entries, 0nat,
{
    if entries.len() == 0 {
        Seq::empty()
    } else {
        preorder_entries(entries.drop_last()) + preorder_nodes(entries.last().node)
    }
}

/// A node made from tree `t`: a file has no child edges; a directory, empty
/// or not, has one child edge per entry, named as the entry.
pub open spec fn node_kind_ok(v: FileNodeView, t: TreeNode) -> bool {
    match t {
        TreeNode::File => v.child_edges is None,
        TreeNode::Directory { entries } => match v.child_edges {
            Some(es) => es.len() == entries@.len() && forall|j: int|
                0 <= j < es.len() ==> #[trigger] es[j].0 == entries@[j].name@,
            None => false,
        },
    }
}

proof fn lemma_flatten_kinds(t: TreeNode, base: nat, pe: Option<(Seq<char>, nat)>)
    ensures
        flatten(t, base, pe).len() == preorder_nodes(t).len(),
        forall|i: int|
            0 <= i < preorder_nodes(t).len() ==> #[trigger] node_kind_ok(
                flatten(t, base, pe)[i],
                preorder_nodes(t)[i],
            ),
    decreases t, 1nat,
{
    let f = flatten(t, base, pe);
    let n = preorder_nodes(t);
    match t {
        TreeNode::File => {
            assert(node_kind_ok(f[0], n[0]));
        },
        TreeNode::Directory { entries } => {
            let (r, es) = flatten_entries(entries@, base + 1, base);
            let pr = preorder_entries(entries@);
            lemma_entries_kinds(entries@, base + 1, base);
            lemma_flatten_entries_len(entries@, base + 1, base);
            lemma_entries_ok(entries@, base + 1, base, Seq::empty());
            assert(f == seq![f[0]] + r);
            assert(n == seq![t] + pr);
            assert forall|i: int| 0 <= i < n.len() implies #[trigger] node_kind_ok(f[i], n[i]) by {
                if i == 0 {
                    assert(f[0].child_edges == Some(es));
                    assert forall|j: int| 0 <= j < es.len() implies #[trigger] es[j].0 == entries@[j].name@ by {
                        assert(entry_edge_ok(r, es, entries_paths(entries@, Seq::empty()), entries@, base + 1, base, Seq::empty(), j));
                    }
                } else {
                    assert(f[i] == r[i - 1]);
                    assert(n[i] == pr[i - 1]);
                    assert(node_kind_ok(r[i - 1], pr[i - 1]));
                }
            }
        },
    }
}

proof fn lemma_entries_kinds(entries: Seq<DirectoryEntry>, next: nat, parent: nat)
    ensures
        flatten_entries(entries, next, parent).0.len() == preorder_entries(entries).len(),
        forall|i: int|
            0 <= i < preorder_entries(entries).len() ==> #[trigger] node_kind_ok(
                flatten_entries(entries, next, parent).0[i],
                preorder_entries(entries)[i],
            ),
    decreases entries, 0nat,
{
    if entries.len() > 0 {
        let init = entries.drop_last();
        let e = entries.last();
        let (r0, es0) = flatten_entries(init, next, parent);
        let id = next + r0.len();
        let f = flatten(e.node, id, Some((e.name@, parent)));
        let r = flatten_entries(entries, next, parent).0;
        let pr = preorder_entries(entries);
        lemma_entries_kinds(init, next, parent);
        lemma_flatten_kinds(e.node, id, Some((e.name@, parent)));
        assert(r == r0 + f);
        assert(pr == preorder_entries(init) + preorder_nodes(e.node));
        assert forall|i: int| 0 <= i < pr.len() implies #[trigger] node_kind_ok(r[i], pr[i]) by {
            if i < r0.len() {
                assert(r[i] == r0[i]);
                assert(pr[i] == preorder_entries(init)[i]);
            } else {
                assert(r[i] == f[i - r0.len()]);
                assert(pr[i] == preorder_nodes(e.node)[i - r0.len()]);
            }
        }
    }
}

/// After the file tree is replaced, node `k` comes from the `k`-th subtree of
/// the server's tree in pre-order: it has no child edges exactly when that
/// subtree is a file, and a directory, even an empty one, has one child edge
/// per entry, named as the entry.
pub proof fn law_directories_have_child_edges(old: State, new: State, root: TreeNode, k: usize)
    requires
        file_tree_set(old, new, root),
        new.file_nodes_by_node_id@.contains_key(k),
    ensures
        k < preorder_nodes(root).len(),
        new.file_nodes_by_node_id@[k]@.child_edges is None <==> preorder_nodes(root)[k as int] is File,
        node_kind_ok(new.file_nodes_by_node_id@[k]@, preorder_nodes(root)[k as int]),
{
    lemma_flatten_kinds(root, 0, None);
    assert(node_kind_ok(flatten(root, 0, None)[k as int], preorder_nodes(root)[k as int]));
}

/// Every node of the tree hangs on an edge from a node with a smaller id
/// that is in the tree too, so that walking up from a node ends at a root.
pub open spec fn tree_wf(m: Map<usize, FileNode>) -> bool {
    forall|k: usize| #[trigger]
        m.contains_key(k) ==> (m[k].parent_edge matches Some(e) ==> (e.node_id < k
            && m.contains_key(e.node_id)))
}

/// The names of the edges from the root down to node `id`.
pub open spec fn path_of(m: Map<usize, FileNode>, id: nat) -> Seq<Seq<char>>
    decreases id,
{
    if m.contains_key(id as usize) && id <= usize::MAX {
        match m[id as usize].parent_edge {
            Some(e) => if e.node_id < id {
                path_of(m, e.node_id as nat).push(e.name@)
            } else {
                Seq::empty()
            },
            None => Seq::empty(),
        }
    } else {
        Seq::empty()
    }
}

/// What the contents of a panel are.
pub enum Panel {
    Splitter { panel_ids: (usize, usize) },
    TabBar { item_ids: Vec<usize> },
}

pub enum TabKind {
    FileTree,
    CodeEditor { session_id: usize },
}

pub struct Tab {
    pub panel_id: usize,
    pub name: String,
    pub kind: TabKind,
}

/// The editor shell's state. Panels, tabs and file nodes are kept under their
/// ids; a session is kept as the path of its document.
pub struct State {
    pub next_node_id: usize,
    pub next_item_id: usize,
    pub next_session_id: usize,
    pub panels_by_panel_id: HashMap<usize, Panel>,
    pub tabs_by_item_id: HashMap<usize, Tab>,
    pub file_nodes_by_node_id: HashMap<usize, FileNode>,
    pub sessions_by_session_id: HashMap<usize, Vec<String>>,
    pub documents: Vec<Vec<String>>,
}

/// What `set_file_tree` makes of the state: the tree's nodes under the ids
/// 0, 1, ... in pre-order, and nothing else changed.
pub open spec fn file_tree_set(old: State, new: State, root: TreeNode) -> bool {
    &&& new.next_node_id == flatten(root, 0, None).len()
    &&& forall|k: usize| #[trigger]
        new.file_nodes_by_node_id@.contains_key(k) <==> k < flatten(root, 0, None).len()
    &&& forall|k: usize|
        k < flatten(root, 0, None).len() ==> (#[trigger] new.file_nodes_by_node_id@[k])@
            == flatten(root, 0, None)[k as int]
    &&& tree_wf(new.file_nodes_by_node_id@)
    &&& new.next_item_id == old.next_item_id
    &&& new.next_session_id == old.next_session_id
    &&& new.panels_by_panel_id == old.panels_by_panel_id
    &&& new.tabs_by_item_id == old.tabs_by_item_id
    &&& new.sessions_by_session_id == old.sessions_by_session_id
    &&& new.documents == old.documents
}

/// What `open_document` makes of the state for `path`, returning the ids `r`.
pub open spec fn document_opened(old: State, new: State, path: Seq<Seq<char>>, r: (usize, usize)) -> bool {
    &&& r == (old.next_item_id, old.next_session_id)
    &&& new.next_item_id == old.next_item_id + 1
    &&& new.next_session_id == old.next_session_id + 1
    &&& new.next_node_id == old.next_node_id
    &&& new.file_nodes_by_node_id == old.file_nodes_by_node_id
    &&& new.tabs_by_item_id@.dom() == old.tabs_by_item_id@.dom().insert(r.0)
    &&& forall|k: usize| k != r.0 && #[trigger] old.tabs_by_item_id@.contains_key(k)
        ==> new.tabs_by_item_id@[k] == old.tabs_by_item_id@[k]
    &&& new.tabs_by_item_id@[r.0].panel_id == 2
    &&& new.tabs_by_item_id@[r.0].name@ == path.last()
    &&& new.tabs_by_item_id@[r.0].kind == (TabKind::CodeEditor { session_id: r.1 })
    &&& new.sessions_by_session_id@.dom() == old.sessions_by_session_id@.dom().insert(r.1)
    &&& forall|k: usize| k != r.1 && #[trigger] old.sessions_by_session_id@.contains_key(k)
        ==> new.sessions_by_session_id@[k] == old.sessions_by_session_id@[k]
    &&& new.sessions_by_session_id@[r.1].deep_view() == path
    &&& new.panels_by_panel_id@.dom() == old.panels_by_panel_id@.dom()
    &&& forall|k: usize| k != 2 && #[trigger] old.panels_by_panel_id@.contains_key(k)
        ==> new.panels_by_panel_id@[k] == old.panels_by_panel_id@[k]
    &&& new.panels_by_panel_id@[2] matches Panel::TabBar { item_ids }
        && old.panels_by_panel_id@[2] matches Panel::TabBar { item_ids: old_ids }
        && item_ids@ == old_ids@.push(r.0)
    &&& new.documents.deep_view() == if old.documents.deep_view().contains(path) {
        old.documents.deep_view()
    } else {
        old.documents.deep_view().push(path)
    }
}

/// No document is open twice.
pub open spec fn documents_unique(s: State) -> bool {
    forall|i: int, j: int|
        0 <= i < j < s.documents@.len() ==> #[trigger] s.documents.deep_view()[i]
            != #[trigger] s.documents.deep_view()[j]
}

/// Panel `p`, where it is a tab bar, lists each of its tabs once, and each
/// of them is a tab of panel `p`.
pub open spec fn tab_bar_wf(s: State, p: usize) -> bool {
    s.panels_by_panel_id@[p] matches Panel::TabBar { item_ids } ==> {
        &&& forall|i: int|
            0 <= i < item_ids@.len() ==> s.tabs_by_item_id@.contains_key(#[trigger] item_ids@[i])
                && s.tabs_by_item_id@[item_ids@[i]].panel_id == p
        &&& forall|i: int, j: int|
            0 <= i < j < item_ids@.len() ==> #[trigger] item_ids@[i] != #[trigger] item_ids@[j]
    }
}

/// Every tab id was handed out already, and every tab bar is well-formed.
pub open spec fn tabs_wf(s: State) -> bool {
    &&& forall|k: usize| #[trigger] s.tabs_by_item_id@.contains_key(k) ==> k < s.next_item_id
    &&& forall|p: usize| #[trigger] s.panels_by_panel_id@.contains_key(p) ==> tab_bar_wf(s, p)
}

/// What the shell's state always keeps: a well-formed file tree, well-formed
/// tab bars, and each document open once.
pub open spec fn state_wf(s: State) -> bool {
    &&& tree_wf(s.file_nodes_by_node_id@)
    &&& tabs_wf(s)
    &&& documents_unique(s)
}

/// Replacing the file tree keeps the state well-formed.
pub proof fn law_set_file_tree_keeps_state_wf(old: State, new: State, root: TreeNode)
    requires
        state_wf(old),
        file_tree_set(old, new, root),
    ensures
        state_wf(new),
{
    assert forall|p: usize| #[trigger] new.panels_by_panel_id@.contains_key(p) implies tab_bar_wf(new, p) by {
        assert(tab_bar_wf(old, p));
    }
}

/// Opening a document keeps the state well-formed: its new tab is listed
/// once, in panel 2, and the document is not open twice.
pub proof fn law_open_document_keeps_state_wf(old: State, new: State, path: Seq<Seq<char>>, r: (usize, usize))
    requires
        state_wf(old),
        document_opened(old, new, path, r),
    ensures
        state_wf(new),
{
    assert forall|k: usize| #[trigger] new.tabs_by_item_id@.contains_key(k) implies k < new.next_item_id by {
        if k != r.0 {
            assert(old.tabs_by_item_id@.contains_key(k));
        }
    }
    assert forall|p: usize| #[trigger] new.panels_by_panel_id@.contains_key(p) implies tab_bar_wf(new, p) by {
        assert(old.panels_by_panel_id@.contains_key(p));
        assert(tab_bar_wf(old, p));
        if p != 2 {
            match new.panels_by_panel_id@[p] {
                Panel::TabBar { item_ids } => {
                    assert forall|i: int| 0 <= i < item_ids@.len() implies new.tabs_by_item_id@.contains_key(#[trigger] item_ids@[i])
                        && new.tabs_by_item_id@[item_ids@[i]].panel_id == p by {
                        let k = item_ids@[i];
                        assert(old.tabs_by_item_id@.contains_key(k));
                        assert(k != r.0);
                    }
                },
                _ => {},
            }
        } else {
            match (new.panels_by_panel_id@[2], old.panels_by_panel_id@[2]) {
                (Panel::TabBar { item_ids }, Panel::TabBar { item_ids: old_ids }) => {
                    assert forall|i: int| 0 <= i < item_ids@.len() implies new.tabs_by_item_id@.contains_key(#[trigger] item_ids@[i])
                        && new.tabs_by_item_id@[item_ids@[i]].panel_id == p by {
                        if i < old_ids@.len() {
                            let k = old_ids@[i];
                            assert(item_ids@[i] == k);
                            assert(old.tabs_by_item_id@.contains_key(k));
                            assert(k != r.0);
                        }
                    }
                    assert forall|i: int, j: int| 0 <= i < j < item_ids@.len() implies #[trigger] item_ids@[i] != #[trigger] item_ids@[j] by {
                        if j < old_ids@.len() {
                            assert(item_ids@[i] == old_ids@[i]);
                            assert(item_ids@[j] == old_ids@[j]);
                        } else {
                            let k = old_ids@[i];
                            assert(item_ids@[i] == k);
                            assert(old.tabs_by_item_id@.contains_key(k));
                        }
                    }
                },
                _ => {},
            }
        }
    }
    let od = old.documents.deep_view();
    let nd = new.documents.deep_view();
    assert(nd.len() == new.documents@.len());
    if !od.contains(path) {
        assert(nd == od.push(path));
        assert forall|i: int, j: int| 0 <= i < j < new.documents@.len() implies #[trigger] nd[i] != #[trigger] nd[j] by {
            assert(nd[i] == od.push(path)[i]);
            assert(nd[j] == od.push(path)[j]);
            if j == od.len() {
                assert(nd[i] == od[i]);
                assert(nd[j] == path);
            } else {
                assert(nd[i] == od[i]);
                assert(nd[j] == od[j]);
            }
        }
    } else {
        assert forall|i: int, j: int| 0 <= i < j < new.documents@.len() implies #[trigger] nd[i] != #[trigger] nd[j] by {
            assert(nd[i] == od[i]);
            assert(nd[j] == od[j]);
        }
    }
}

impl State {
    /// The starting layout: a splitter (panel 0) over the file-tree tab bar
    /// (panel 1, holding tab 0) and an empty tab bar for editors (panel 2); a
    /// file tree of just its root; nothing open.
    pub fn new() -> (s: State)
        ensures
            s.next_node_id == 1,
            s.next_item_id == 1,
            s.next_session_id == 0,
            s.panels_by_panel_id@.dom() == set![0usize, 1usize, 2usize],
            s.panels_by_panel_id@[0] matches Panel::Splitter { panel_ids } && panel_ids == (1usize, 2usize),
            s.panels_by_panel_id@[1] matches Panel::TabBar { item_ids } && item_ids@ == seq![0usize],
            s.panels_by_panel_id@[2] matches Panel::TabBar { item_ids } && item_ids@.len() == 0,
            s.tabs_by_item_id@.dom() == set![0usize],
            s.tabs_by_item_id@[0].panel_id == 1,
            s.tabs_by_item_id@[0].name@ == "File Tree"@,
            s.tabs_by_item_id@[0].kind is FileTree,
            s.file_nodes_by_node_id@.dom() == set![0usize],
            s.file_nodes_by_node_id@[0]@ == (FileNodeView {
                parent_edge: None,
                name: "root"@,
                child_edges: Some(Seq::empty()),
            }),
            s.sessions_by_session_id@.dom().len() == 0,
            s.documents@.len() == 0,
            state_wf(s),
    {
        let mut panels_by_panel_id: HashMap<usize, Panel> = HashMap::new();
        panels_by_panel_id.insert(0, Panel::Splitter { panel_ids: (1, 2) });
        let mut first_items: Vec<usize> = Vec::new();
        first_items.push(0);
        panels_by_panel_id.insert(1, Panel::TabBar { item_ids: first_items });
        panels_by_panel_id.insert(2, Panel::TabBar { item_ids: Vec::new() });
        let mut tabs_by_item_id: HashMap<usize, Tab> = HashMap::new();
        tabs_by_item_id.insert(
            0,
            Tab { panel_id: 1, name: String::from_str("File Tree"), kind: TabKind::FileTree },
        );
        let mut file_nodes_by_node_id: HashMap<usize, FileNode> = HashMap::new();
        let root = FileNode {
            parent_edge: None,
            name: String::from_str("root"),
            child_edges: Some(Vec::new()),
        };
        file_nodes_by_node_id.insert(0, root);
        proof {
            assert(panels_by_panel_id@.dom() =~= set![0usize, 1usize, 2usize]);
            assert(tabs_by_item_id@.dom() =~= set![0usize]);
            assert(file_nodes_by_node_id@.dom() =~= set![0usize]);
            assert(file_nodes_by_node_id@[0]@.child_edges =~= Some(Seq::<(Seq<char>, nat)>::empty()));
        }
        State {
            next_node_id: 1,
            next_item_id: 1,
            next_session_id: 0,
            panels_by_panel_id,
            tabs_by_item_id,
            file_nodes_by_node_id,
            sessions_by_session_id: HashMap::new(),
            documents: Vec::new(),
        }
    }

    /// Replaces the file tree with the one the server sent: its nodes get the
    /// ids 0, 1, ... in pre-order, the root being node 0.
    pub fn set_file_tree(&mut self, root: TreeNode)
        requires
            flatten(root, 0, None).len() <= usize::MAX,
        ensures
            file_tree_set(*old(self), *final(self), root),
    {
        self.next_node_id = 0;
        self.file_nodes_by_node_id.clear();
        let ghost m0 = self.file_nodes_by_node_id@;
        create_file_node(&mut self.next_node_id, &mut self.file_nodes_by_node_id, None, &root);
        proof {
            let flat = flatten(root, 0, None);
            let m = self.file_nodes_by_node_id@;
            assert(m0.dom().len() == 0);
            assert forall|k: usize| #[trigger] m.contains_key(k) <==> k < flat.len() by {
                assert(!m0.contains_key(k));
            }
            assert forall|k: usize| k < flat.len() implies (#[trigger] m[k])@ == flat[k as int] by {
                assert(m[(0 + k as int) as usize]@ == flat[k as int]);
            }
            lemma_flatten_parents(root, 0, None);
            lemma_flatten_len(root, 0, None);
            assert forall|k: usize| #[trigger] m.contains_key(k) implies (m[k].parent_edge matches Some(e) ==> (e.node_id < k
                && m.contains_key(e.node_id))) by {
                assert(m[k]@ == flat[k as int]);
                if k > 0 {
                    assert(flat[k as int].parent_edge matches Some((_, p)) && p < k);
                }
            }
        }
    }

    /// The path of a node: the names of the edges from the root down to it.
    pub fn file_node_path(&self, node_id: usize) -> (r: Vec<String>)
        requires
            tree_wf(self.file_nodes_by_node_id@),
            self.file_nodes_by_node_id@.contains_key(node_id),
        ensures
            r.deep_view() == path_of(self.file_nodes_by_node_id@, node_id as nat),
    {
        let ghost m = self.file_nodes_by_node_id@;
        let mut components: Vec<String> = Vec::new();
        let mut cur: usize = node_id;
        let ghost mut tail: Seq<Seq<char>> = Seq::empty();
        loop
            invariant
                m == self.file_nodes_by_node_id@,
                tree_wf(m),
                m.contains_key(cur),
                path_of(m, node_id as nat) == path_of(m, cur as nat) + tail,
                tail.len() == components@.len(),
                forall|i: int| 0 <= i < tail.len() ==> tail[i] == #[trigger] components@[components@.len() - 1 - i]@,
            ensures
                path_of(m, node_id as nat) == tail,
                tail.len() == components@.len(),
                forall|i: int| 0 <= i < tail.len() ==> tail[i] == #[trigger] components@[components@.len() - 1 - i]@,
            decreases cur,
        {
            let node = self.file_nodes_by_node_id.get(&cur).unwrap();
            match &node.parent_edge {
                Some(e) => {
                    proof {
                        assert(path_of(m, cur as nat) == path_of(m, e.node_id as nat).push(e.name@));
                        assert(path_of(m, cur as nat) + tail =~= path_of(m, e.node_id as nat) + seq![e.name@] + tail);
                        assert(seq![e.name@] + tail =~= (seq![e.name@] + tail));
                    }
                    let ghost old_components = components@;
                    components.push(e.name.clone());
                    proof {
                        let t2 = seq![e.name@] + tail;
                        assert(path_of(m, node_id as nat) =~= path_of(m, e.node_id as nat) + t2);
                        assert forall|i: int| 0 <= i < t2.len() implies t2[i] == #[trigger] components@[components@.len() - 1 - i]@ by {
                            if i > 0 {
                                assert(t2[i] == tail[i - 1]);
                                assert(components@[components@.len() - 1 - i] == old_components[old_components.len() - 1 - (i - 1)]);
                            }
                        }
                        tail = t2;
                    }
                    cur = e.node_id;
                },
                None => {
                    proof {
                        assert(path_of(m, cur as nat) =~= Seq::<Seq<char>>::empty());
                        assert(path_of(m, node_id as nat) =~= tail);
                    }
                    break;
                },
            }
        }
        let mut r: Vec<String> = Vec::new();
        let mut i: usize = components.len();
        while i > 0
            invariant
                i <= components@.len(),
                r@.len() == components@.len() - i,
                tail.len() == components@.len(),
                forall|j: int| 0 <= j < tail.len() ==> tail[j] == #[trigger] components@[components@.len() - 1 - j]@,
                forall|j: int| 0 <= j < r@.len() ==> #[trigger] r@[j]@ == tail[j],
            decreases i,
        {
            i = i - 1;
            r.push(components[i].clone());
            proof {
                let j = r@.len() - 1;
                assert(components@[components@.len() - 1 - j] == components@[i as int]);
            }
        }
        proof {
            assert(r.deep_view() =~= tail);
        }
        r
    }

    /// Whether a document with this path is open.
    pub fn has_document(&self, path: &Vec<String>) -> (r: bool)
        ensures
            r == self.documents.deep_view().contains(path.deep_view()),
    {
        let mut i: usize = 0;
        while i < self.documents.len()
            invariant
                i <= self.documents@.len(),
                forall|j: int| 0 <= j < i ==> self.documents.deep_view()[j] != path.deep_view(),
            decreases self.documents.len() - i,
        {
            if paths_equal(&self.documents[i], path) {
                assert(self.documents.deep_view()[i as int] == path.deep_view());
                return true;
            }
            i = i + 1;
        }
        false
    }

    /// What pressing a node of the file tree asks for: the path of a file
    /// whose document is not open yet, to be opened; nothing for a directory
    /// or an open file.
    pub fn file_to_open(&self, node_id: usize) -> (r: Option<Vec<String>>)
        requires
            tree_wf(self.file_nodes_by_node_id@),
            self.file_nodes_by_node_id@.contains_key(node_id),
        ensures
            ({
                let path = path_of(self.file_nodes_by_node_id@, node_id as nat);
                let is_file = self.file_nodes_by_node_id@[node_id].child_edges is None;
                match r {
                    Some(p) => is_file && !self.documents.deep_view().contains(path) && p.deep_view() == path,
                    None => !is_file || self.documents.deep_view().contains(path),
                }
            }),
    {
        let node = self.file_nodes_by_node_id.get(&node_id).unwrap();
        if node.is_file() {
            let path = self.file_node_path(node_id);
            if !self.has_document(&path) {
                return Some(path);
            }
        }
        None
    }

    /// What pressing a tab asks for: for an editor's tab, its panel's editor
    /// shows the tab's session; the file tree's tab asks for nothing.
    pub fn tab_pressed(&self, item_id: usize) -> (r: Option<(usize, usize)>)
        requires
            self.tabs_by_item_id@.contains_key(item_id),
        ensures
            r == match self.tabs_by_item_id@[item_id].kind {
                TabKind::FileTree => None,
                TabKind::CodeEditor { session_id } => Some(
                    (self.tabs_by_item_id@[item_id].panel_id, session_id),
                ),
            },
    {
        let tab = self.tabs_by_item_id.get(&item_id).unwrap();
        match tab.kind {
            TabKind::FileTree => None,
            TabKind::CodeEditor { session_id } => Some((tab.panel_id, session_id)),
        }
    }

    /// Takes in a document that the server opened: it gets a new tab (named
    /// after the file) in the editors' tab bar, panel 2, and a new session.
    /// Returns the ids of the tab and of the session.
    pub fn open_document(&mut self, path: Vec<String>) -> (r: (usize, usize))
        requires
            path@.len() > 0,
            old(self).next_item_id < usize::MAX,
            old(self).next_session_id < usize::MAX,
            old(self).panels_by_panel_id@.contains_key(2),
            old(self).panels_by_panel_id@[2] is TabBar,
        ensures
            document_opened(*old(self), *final(self), path.deep_view(), r),
    {
        let panel_id: usize = 2;
        let item_id = self.next_item_id;
        self.next_item_id = self.next_item_id + 1;
        let session_id = self.next_session_id;
        self.next_session_id = self.next_session_id + 1;
        let name = path[path.len() - 1].clone();
        let ghost old_docs = self.documents.deep_view();
        if !self.has_document(&path) {
            self.documents.push(clone_path(&path));
            proof {
                assert(self.documents.deep_view() =~= old_docs.push(path.deep_view()));
            }
        }
        let ghost path_view = path.deep_view();
        self.sessions_by_session_id.insert(session_id, path);
        self.tabs_by_item_id.insert(
            item_id,
            Tab { panel_id, name, kind: TabKind::CodeEditor { session_id } },
        );
        let ghost old_panels = self.panels_by_panel_id@;
        let panel = self.panels_by_panel_id.remove(&panel_id);
        match panel {
            Some(Panel::TabBar { item_ids }) => {
                let mut item_ids = item_ids;
                item_ids.push(item_id);
                self.panels_by_panel_id.insert(panel_id, Panel::TabBar { item_ids });
            },
            _ => {
                assert(false);
            },
        }
        proof {
            assert(self.panels_by_panel_id@.dom() =~= old_panels.dom());
            assert(self.tabs_by_item_id@[item_id as usize].name@ == path_view.last());
        }
        (item_id, session_id)
    }
}

/// A request to the server.
#[derive(Clone, Debug)]
pub enum Request {
    GetFileTree,
    OpenFile(Vec<String>),
    ApplyDelta(Vec<String>, usize),
}

/// A successful answer of the server, to the oldest request not answered yet.
pub enum Response {
    GetFileTree(TreeNode),
    OpenFile { revision: usize, text: String },
    ApplyDelta,
}

/// Whether a response is of the kind that answers a request.
pub open spec fn answers(response: Response, request: Request) -> bool {
    match (response, request) {
        (Response::GetFileTree(_), Request::GetFileTree) => true,
        (Response::OpenFile { .. }, Request::OpenFile(_)) => true,
        (Response::ApplyDelta, Request::ApplyDelta(_, _)) => true,
        _ => false,
    }
}

/// What the shell still has to do after a response: show the file tree
/// (select tab 0 of panel 1); open an editor on the new session in its
/// panel's tab; or finish applying local edits to the document at `path`.
pub enum ResponseEffect {
    ShowFileTree,
    OpenEditor {
        panel_id: usize,
        item_id: usize,
        session_id: usize,
        path: Vec<String>,
        revision: usize,
        text: String,
    },
    FinishLocalDelta { path: Vec<String> },
}

/// The requests sent to the server and not answered yet, oldest first.
pub struct RequestQueue {
    pub outstanding: VecDeque<Request>,
}

impl RequestQueue {
    pub fn new() -> (q: RequestQueue)
        ensures
            q.outstanding@.len() == 0,
    {
        RequestQueue { outstanding: VecDeque::new() }
    }

    /// Notes a request as sent; answers come back in the order requests went out.
    pub fn send_request(&mut self, request: Request)
        ensures
            final(self).outstanding@ == old(self).outstanding@.push(request),
    {
        self.outstanding.push_back(request);
    }

    /// Takes in the answer to the oldest outstanding request.
    pub fn handle_response(&mut self, state: &mut State, response: Response) -> (e: ResponseEffect)
        requires
            old(self).outstanding@.len() > 0,
            answers(response, old(self).outstanding@[0]),
            response matches Response::GetFileTree(root) ==> flatten(root, 0, None).len() <= usize::MAX,
            response is OpenFile ==> ({
                &&& old(self).outstanding@[0] matches Request::OpenFile(p) && p@.len() > 0
                &&& old(state).next_item_id < usize::MAX
                &&& old(state).next_session_id < usize::MAX
                &&& old(state).panels_by_panel_id@.contains_key(2)
                &&& old(state).panels_by_panel_id@[2] is TabBar
            }),
        ensures
            final(self).outstanding@ == old(self).outstanding@.drop_first(),
            match (response, old(self).outstanding@[0]) {
                (Response::GetFileTree(root), _) => e is ShowFileTree && file_tree_set(
                    *old(state),
                    *final(state),
                    root,
                ),
                (Response::OpenFile { revision, text }, Request::OpenFile(path)) => e matches ResponseEffect::OpenEditor {
                    panel_id,
                    item_id,
                    session_id,
                    path: p,
                    revision: rv,
                    text: t,
                } && panel_id == 2 && p.deep_view() == path.deep_view() && rv == revision && t == text
                    && document_opened(
                    *old(state),
                    *final(state),
                    path.deep_view(),
                    (item_id, session_id),
                ),
                (Response::ApplyDelta, Request::ApplyDelta(path, _)) => e matches ResponseEffect::FinishLocalDelta { path: p }
                    && p.deep_view() == path.deep_view() && *final(state) == *old(state),
                _ => false,
            },
            state_wf(*old(state)) ==> state_wf(*final(state)),
    {
        let ghost old_state = *state;
        let request = self.outstanding.pop_front().unwrap();
        match response {
            Response::GetFileTree(root) => {
                let ghost r = root;
                state.set_file_tree(root);
                proof {
                    if state_wf(old_state) {
                        law_set_file_tree_keeps_state_wf(old_state, *state, r);
                    }
                }
                ResponseEffect::ShowFileTree
            },
            Response::OpenFile { revision, text } => {
                match request {
                    Request::OpenFile(path) => {
                        let kept = clone_path(&path);
                        let ghost pv = path.deep_view();
                        let (item_id, session_id) = state.open_document(path);
                        proof {
                            if state_wf(old_state) {
                                law_open_document_keeps_state_wf(old_state, *state, pv, (item_id, session_id));
                            }
                        }
                        ResponseEffect::OpenEditor {
                            panel_id: 2,
                            item_id,
                            session_id,
                            path: kept,
                            revision,
                            text,
                        }
                    },
                    _ => {
                        assert(false);
                        ResponseEffect::ShowFileTree
                    },
                }
            },
            Response::ApplyDelta => {
                match request {
                    Request::ApplyDelta(path, _) => ResponseEffect::FinishLocalDelta { path },
                    _ => {
                        assert(false);
                        ResponseEffect::ShowFileTree
                    },
                }
            },
        }
    }
}

/// Two paths are the same when their components are.
pub fn paths_equal(a: &Vec<String>, b: &Vec<String>) -> (r: bool)
    ensures
        r == (a.deep_view() == b.deep_view()),
{
    if a.len() != b.len() {
        assert(a.deep_view().len() != b.deep_view().len());
        return false;
    }
    let mut i: usize = 0;
    while i < a.len()
        invariant
            i <= a@.len(),
            a@.len() == b@.len(),
            forall|j: int| 0 <= j < i ==> a@[j]@ == b@[j]@,
        decreases a.len() - i,
    {
        if !str_equal(a[i].as_str(), b[i].as_str()) {
            assert(a.deep_view()[i as int] != b.deep_view()[i as int]);
            return false;
        }
        i = i + 1;
    }
    assert(a.deep_view() =~= b.deep_view());
    true
}

fn clone_path(p: &Vec<String>) -> (r: Vec<String>)
    ensures
        r.deep_view() == p.deep_view(),
{
    let mut r: Vec<String> = Vec::new();
    let mut i: usize = 0;
    while i < p.len()
        invariant
            i <= p@.len(),
            r@.len() == i,
            forall|j: int| 0 <= j < i ==> r@[j]@ == p@[j]@,
        decreases p.len() - i,
    {
        r.push(p[i].clone());
        i = i + 1;
    }
    assert(r.deep_view() =~= p.deep_view());
    r
}

/// A node's path is the path of the node it hangs on, followed by the name
/// of the edge between them.
pub proof fn law_child_path_extends_parent(m: Map<usize, FileNode>, k: usize)
    requires
        tree_wf(m),
        m.contains_key(k),
        m[k].parent_edge is Some,
    ensures
        path_of(m, k as nat) == path_of(m, m[k].parent_edge->0.node_id as nat).push(
            m[k].parent_edge->0.name@,
        ),
{
}

} // verus!
