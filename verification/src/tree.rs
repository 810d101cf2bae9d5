//! # Tree
//!
//! A tree of elements, each under a unique `u64` id, with a map from each id
//! to the id of its branch (its parent; `None` for a root).
use vstd::prelude::*;
use std::collections::HashMap;
use vstd::std_specs::iter::IteratorSpec;

verus! {

broadcast use vstd::std_specs::hash::group_hash_axioms;

/// The `k`-th ancestor of `id` in the branch map `m`: `id` itself for 0,
/// then the branch of the one before, as long as there is one in the map.
pub open spec fn ancestor(m: Map<u64, Option<u64>>, id: u64, k: nat) -> Option<u64>
    decreases k,
{
    if k == 0 {
        Some(id)
    } else {
        match ancestor(m, id, (k - 1) as nat) {
            Some(c) => if m.contains_key(c) {
                m[c]
            } else {
                None
            },
            None => None,
        }
    }
}

/// Walking up from `id`, the `n`-th step is the first that reaches `start`
/// or runs out of branches.
pub open spec fn stops_at(m: Map<u64, Option<u64>>, id: u64, start: Option<u64>, n: nat) -> bool {
    &&& n >= 1
    &&& forall|j: nat| 1 <= j < n ==> #[trigger] ancestor(m, id, j) is Some && ancestor(m, id, j) != start
    &&& (ancestor(m, id, n) == start || ancestor(m, id, n) is None)
}

/// The ids from `id` up to, and not including, `start`: `id`, its branch,
/// the branch of that, and so on; empty when `id` is not in the map or the
/// walk reaches a root without meeting `start`.
pub open spec fn id_path(m: Map<u64, Option<u64>>, id: u64, start: Option<u64>) -> Seq<u64> {
    if !m.contains_key(id) {
        Seq::empty()
    } else {
        let n = choose|n: nat| stops_at(m, id, start, n);
        if ancestor(m, id, n) == start {
            Seq::new(n, |j: int| ancestor(m, id, j as nat)->0)
        } else {
            Seq::empty()
        }
    }
}

/// `d` gives every id of the branch map `m` a depth: 0 for a root, one more
/// than its branch's for any other; every branch is in the map.
pub open spec fn depths_ok(m: Map<u64, Option<u64>>, d: Map<u64, nat>) -> bool {
    forall|x: u64|
        #[trigger] m.contains_key(x) ==> d.contains_key(x) && match m[x] {
            None => d[x] == 0,
            Some(p) => m.contains_key(p) && d[x] == d[p] + 1,
        }
}

/// The branch map is a forest: every walk up from an id ends at a root.
pub open spec fn well_founded(m: Map<u64, Option<u64>>) -> bool {
    exists|d: Map<u64, nat>| depths_ok(m, d)
}

/// In a forest, the walk up from an id that is in it meets only ids in it,
/// each one level up.
proof fn lemma_ancestor_depth(m: Map<u64, Option<u64>>, d: Map<u64, nat>, id: u64, k: nat)
    requires
        depths_ok(m, d),
        m.contains_key(id),
    ensures
        ancestor(m, id, k) matches Some(c) ==> m.contains_key(c) && d[c] + k == d[id],
        k > d[id] ==> ancestor(m, id, k) is None,
    decreases k,
{
    if k > 0 {
        lemma_ancestor_depth(m, d, id, (k - 1) as nat);
    }
}

/// The step at which a walk stops is unique.
proof fn lemma_stops_at_unique(m: Map<u64, Option<u64>>, id: u64, start: Option<u64>, n1: nat, n2: nat)
    requires
        stops_at(m, id, start, n1),
        stops_at(m, id, start, n2),
    ensures
        n1 == n2,
{
    if n1 < n2 {
        assert(ancestor(m, id, n1) is Some && ancestor(m, id, n1) != start);
    } else if n2 < n1 {
        assert(ancestor(m, id, n2) is Some && ancestor(m, id, n2) != start);
    }
}

/// A tree of elements, each stored under a unique `u64` id.
#[derive(Debug)]
pub struct Tree<T> {
    roots: HashMap<u64, Node<T>>,
    branches: HashMap<u64, Option<u64>>,
}

/// An element of a tree with its id and its leaves.
#[derive(Debug)]
pub struct Node<T> {
    id: u64,
    element: T,
    leaves: HashMap<u64, Node<T>>,
}

/// Read access to a node of a tree.
#[derive(Clone, Copy, Debug)]
pub struct NodeRef<'tree, T> {
    pub branch_id: Option<u64>,
    pub element: &'tree T,
    pub leaves: LeavesRef<'tree, T>,
}

/// Write access to a node of a tree.
#[derive(Debug)]
pub struct NodeMut<'tree, T> {
    pub branch_id: Option<u64>,
    pub element: &'tree mut T,
    pub leaves: LeavesMut<'tree, T>,
}

/// Read access to the leaves of a node (or to the roots of a tree).
#[derive(Clone, Copy, Debug)]
pub struct LeavesRef<'tree, T> {
    branch_id: Option<u64>,
    leaves: &'tree HashMap<u64, Node<T>>,
    branches: BranchesRef<'tree>,
}

/// Write access to the leaves of a node (or to the roots of a tree), with
/// write access to the branch map of the whole tree.
#[derive(Debug)]
pub struct LeavesMut<'tree, T> {
    pub branch_id: Option<u64>,
    pub leaves: &'tree mut HashMap<u64, Node<T>>,
    pub branches: BranchesMut<'tree>,
}

/// Read access to the branch map of a tree.
#[derive(Clone, Copy, Debug)]
pub struct BranchesRef<'tree> {
    branches: &'tree HashMap<u64, Option<u64>>,
}

/// Write access to the branch map of a tree.
#[derive(Debug)]
pub struct BranchesMut<'tree> {
    pub branches: &'tree mut HashMap<u64, Option<u64>>,
}

/// `HashMap::get_mut`: a mutable reference to the value stored under `k`,
/// if there is one. The map holds afterwards, under `k`, what the reference
/// was last given, and nothing else changes; the map is left as it is when
/// there is no value under `k` or the value was not changed.
#[verifier::external_body]
fn map_get_mut<'a, V>(m: &'a mut HashMap<u64, V>, k: &u64) -> (r: Option<&'a mut V>)
    ensures
        r is Some <==> old(m)@.contains_key(*k),
        r matches Some(v) ==> *v == old(m)@[*k] && final(m)@ == old(m)@.insert(*k, *final(v)),
        r matches Some(v) ==> (*final(v) == *v ==> *final(m) == *old(m)),
        r is None ==> *final(m) == *old(m),
{
    m.get_mut(k)
}

/// The node reached from the forest `f` by following the ids of `path`,
/// one level down per id; `None` when an id is missing on the way.
pub closed spec fn node_at<T>(f: Map<u64, Node<T>>, path: Seq<u64>) -> Option<Node<T>>
    decreases path.len(),
{
    if path.len() == 0 || !f.contains_key(path[0]) {
        None
    } else if path.len() == 1 {
        Some(f[path[0]])
    } else {
        node_at(f[path[0]].leaves@, path.drop_first())
    }
}

/// The ids to follow from the leaves of `start` (the roots for `None`) down
/// to `id`: the ids from the branch of `id` up to `start` (see [`id_path`]),
/// outermost first, then `id` itself.
pub open spec fn path_to(m: Map<u64, Option<u64>>, id: u64, start: Option<u64>) -> Seq<u64> {
    match m[id] {
        Some(b) => id_path(m, b, start).reverse().push(id),
        None => seq![id],
    }
}

/// Every node of the forest `f`, at any depth, is stored under its own id,
/// and the branch map gives it the branch it hangs from (`parent` for the
/// nodes of `f` itself).
pub closed spec fn forest_ok<T>(f: Map<u64, Node<T>>, parent: Option<u64>, m: Map<u64, Option<u64>>) -> bool
    decreases f,
{
    f.dom().finite() && forall|k: u64|
        #[trigger] f.contains_key(k) ==> {
            &&& f[k].id == k
            &&& m.contains_key(k) && m[k] == parent
            &&& forest_ok(f[k].leaves@, Some(k), m)
        }
}

/// Following `p` and then `q` reaches what following `q` from the node at
/// the end of `p` reaches.
proof fn lemma_node_at_append<T>(f: Map<u64, Node<T>>, p: Seq<u64>, q: Seq<u64>)
    requires
        p.len() > 0,
        q.len() > 0,
    ensures
        node_at(f, p + q) == match node_at(f, p) {
            Some(n) => node_at(n.leaves@, q),
            None => None,
        },
    decreases p.len(),
{
    assert((p + q)[0] == p[0]);
    if p.len() == 1 {
        assert((p + q).drop_first() =~= q);
    } else {
        assert((p + q).drop_first() =~= p.drop_first() + q);
        if f.contains_key(p[0]) {
            lemma_node_at_append(f[p[0]].leaves@, p.drop_first(), q);
        }
    }
}

/// In a forest that is consistent with the branch map, the node reached by
/// following a path is stored under the last id of the path.
proof fn lemma_node_at_ids<T>(f: Map<u64, Node<T>>, parent: Option<u64>, m: Map<u64, Option<u64>>, path: Seq<u64>)
    requires
        forest_ok(f, parent, m),
    ensures
        node_at(f, path) matches Some(n) ==> n.id == path.last(),
    decreases path.len(),
{
    if path.len() > 1 && f.contains_key(path[0]) {
        lemma_node_at_ids(f[path[0]].leaves@, Some(path[0]), m, path.drop_first());
    }
}

/// Whether `x` is the id of node `n` or of a node below it.
pub closed spec fn in_subtree<T>(n: Node<T>, x: u64) -> bool
    decreases n,
{
    n.id == x || (n.leaves@.dom().finite() && exists|k: u64|
        #[trigger] n.leaves@.contains_key(k) && in_subtree(n.leaves@[k], x))
}

/// The ids of node `n` and of all the nodes below it.
pub open spec fn subtree_ids<T>(n: Node<T>) -> Set<u64> {
    Set::new(|x: u64| in_subtree(n, x))
}

/// Removes the ids of `node` and of all the nodes below it from the branch
/// map.
fn remove_leaves<T>(node: &Node<T>, branches: &mut HashMap<u64, Option<u64>>)
    ensures
        final(branches)@ == old(branches)@.remove_keys(subtree_ids(*node)),
    decreases *node,
{
    let ghost orig = branches@;
    let ghost entries = vstd::std_specs::hash::spec_hash_map_iter(&node.leaves).remaining();
    for leaf in it: node.leaves.iter()
        invariant
            it.seq() == entries,
            entries.len() == node.leaves@.dom().len(),
            forall|i: int|
                #![trigger node.leaves@.contains_key(*entries[i].0)]
                0 <= i < entries.len() ==> node.leaves@.contains_key(*entries[i].0) && node.leaves@[*entries[i].0]
                    == *entries[i].1,
            branches@ == orig.remove_keys(
                Set::new(|x: u64| exists|j: int| 0 <= j < it.index() && #[trigger] in_subtree(*entries[j].1, x)),
            ),
    {
        let ghost i = it.index();
        let ghost before = branches@;
        proof {
            assert(node.leaves@.contains_key(*entries[i].0));
            assert(decreases_to!(*node => *leaf.1));
        }
        remove_leaves(leaf.1, branches);
        proof {
            assert(branches@ =~= orig.remove_keys(
                Set::new(|x: u64| exists|j: int| 0 <= j < i + 1 && #[trigger] in_subtree(*entries[j].1, x)),
            ));
        }
    }
    proof {
        let below = Set::new(|x: u64| exists|j: int| 0 <= j < entries.len() && #[trigger] in_subtree(*entries[j].1, x));
        assert(below.insert(node.id) =~= subtree_ids(*node)) by {
            assert forall|x: u64| #[trigger] subtree_ids(*node).contains(x) implies below.insert(node.id).contains(x) by {
                if x != node.id {
                    let k = choose|k: u64| #[trigger] node.leaves@.contains_key(k) && in_subtree(node.leaves@[k], x);
                    assert(entries.contains((&k, &node.leaves@[k])));
                    let j = choose|j: int| 0 <= j < entries.len() && entries[j] == (&k, &node.leaves@[k]);
                    assert(in_subtree(*entries[j].1, x));
                }
            }
            assert forall|x: u64| #[trigger] below.insert(node.id).contains(x) implies subtree_ids(*node).contains(x) by {
                if x != node.id {
                    let j = choose|j: int| 0 <= j < entries.len() && #[trigger] in_subtree(*entries[j].1, x);
                    assert(node.leaves@.contains_key(*entries[j].0));
                }
            }
        }
    }
    branches.remove(&node.id);
    proof {
        let below = Set::new(|x: u64| exists|j: int| 0 <= j < entries.len() && #[trigger] in_subtree(*entries[j].1, x));
        assert(branches@ =~= orig.remove_keys(below.insert(node.id)));
    }
}

/// The forest `g` is the forest `f` with the node at the end of `path`
/// replaced by the node with id `id`, element `element` and leaves
/// `leaves`; the nodes on the way keep their ids and elements, and nothing
/// else changes.
pub closed spec fn replaced_at<T>(
    f: Map<u64, Node<T>>,
    g: Map<u64, Node<T>>,
    path: Seq<u64>,
    id: u64,
    element: T,
    leaves: HashMap<u64, Node<T>>,
) -> bool
    decreases path.len(),
{
    if path.len() == 0 || !f.contains_key(path[0]) {
        false
    } else if path.len() == 1 {
        g == f.insert(path[0], Node { id, element, leaves })
    } else {
        &&& g == f.insert(path[0], g[path[0]])
        &&& g[path[0]].id == f[path[0]].id
        &&& g[path[0]].element == f[path[0]].element
        &&& replaced_at(f[path[0]].leaves@, g[path[0]].leaves@, path.drop_first(), id, element, leaves)
    }
}

/// Write access to the node reached from the forest `f` by following the
/// ids of `path` from position `i` on.
fn descend<'a, T>(f: &'a mut HashMap<u64, Node<T>>, path: &Vec<u64>, i: usize) -> (r: Option<&'a mut Node<T>>)
    requires
        i < path@.len(),
    ensures
        r is Some <==> node_at(old(f)@, path@.skip(i as int)) is Some,
        r matches Some(n) ==> *n == node_at(old(f)@, path@.skip(i as int))->0,
        r matches Some(n) ==> replaced_at(
            old(f)@,
            final(f)@,
            path@.skip(i as int),
            final(n).id,
            final(n).element,
            final(n).leaves,
        ),
        r is None ==> *final(f) == *old(f),
    decreases path@.len() - i,
{
    let key = path[i];
    let ghost rest = path@.skip(i as int);
    assert(rest[0] == key);
    let node = match map_get_mut(f, &key) {
        Some(node) => node,
        None => return None,
    };
    if i == path.len() - 1 {
        proof {
            assert(rest.len() == 1);
            let x = *final(node);
            assert(Node { id: x.id, element: x.element, leaves: x.leaves } == x);
        }
        Some(node)
    } else {
        assert(rest.drop_first() =~= path@.skip(i as int + 1));
        descend(&mut node.leaves, path, i + 1)
    }
}

impl<T> Node<T> {
    /// The id of the node.
    pub closed spec fn node_id(self) -> u64 {
        self.id
    }

    /// The element of the node.
    pub closed spec fn node_element(self) -> T {
        self.element
    }

    /// The leaves of the node, by id.
    pub closed spec fn node_leaves(self) -> Map<u64, Node<T>> {
        self.leaves@
    }

    /// Whether the node has id `id`, element `element` and the leaves `leaves`.
    pub closed spec fn is(self, id: u64, element: T, leaves: HashMap<u64, Node<T>>) -> bool {
        self == Node { id, element, leaves }
    }

    fn as_ref<'tree>(
        &'tree self,
        branch_id: Option<u64>,
        branch_map: &'tree HashMap<u64, Option<u64>>,
    ) -> (r: NodeRef<'tree, T>)
        ensures
            r.branch_id == branch_id,
            *r.element == self.element,
            r.leaves.branch() == Some(self.id),
            r.leaves.forest() == self.leaves@,
            r.leaves.branch_map() == branch_map@,
    {
        NodeRef {
            branch_id,
            element: &self.element,
            leaves: LeavesRef {
                branch_id: Some(self.id),
                leaves: &self.leaves,
                branches: BranchesRef { branches: branch_map },
            },
        }
    }

    fn as_mut<'tree>(
        &'tree mut self,
        branch_id: Option<u64>,
        branch_map: &'tree mut HashMap<u64, Option<u64>>,
    ) -> (r: NodeMut<'tree, T>)
        ensures
            r.branch_id == branch_id,
            *r.element == old(self).element,
            r.leaves.branch_id == Some(old(self).id),
            *r.leaves.leaves == old(self).leaves,
            *r.leaves.branches.branches == *old(branch_map),
            final(self).id == old(self).id,
            final(self).element == *final(r.element),
            final(self).leaves == *final(r.leaves.leaves),
            *final(branch_map) == *final(r.leaves.branches.branches),
    {
        NodeMut {
            branch_id,
            element: &mut self.element,
            leaves: LeavesMut {
                branch_id: Some(self.id),
                leaves: &mut self.leaves,
                branches: BranchesMut { branches: branch_map },
            },
        }
    }
}

impl<T> Tree<T> {
    /// The roots of the tree, by id.
    pub closed spec fn forest(&self) -> Map<u64, Node<T>> {
        self.roots@
    }

    /// The branch map of the tree: the branch of each id, `None` for a root.
    pub closed spec fn parents(&self) -> Map<u64, Option<u64>> {
        self.branches@
    }

    /// An empty tree.
    pub fn new() -> (t: Self)
        ensures
            t.forest() == Map::<u64, Node<T>>::empty(),
            t.parents() == Map::<u64, Option<u64>>::empty(),
            t.wf(),
            t.elements() == Map::<u64, T>::empty(),
    {
        let t = Tree { roots: HashMap::new(), branches: HashMap::new() };
        assert(depths_ok(t.branches@, Map::empty()));
        assert(t.elements() =~= Map::<u64, T>::empty());
        t
    }

    /// The tree is consistent: its branch map is a forest, every node is
    /// stored under its id below the branch the map gives it, and every id of
    /// the map has its node.
    pub closed spec fn wf(&self) -> bool {
        &&& well_founded(self.branches@)
        &&& forest_ok(self.roots@, None, self.branches@)
        &&& forall|x: u64|
            #[trigger] self.branches@.contains_key(x) ==> node_at(self.roots@, path_to(self.branches@, x, None)) is Some
    }

    /// The element stored under each id of the tree.
    pub closed spec fn elements(&self) -> Map<u64, T> {
        Map::new(
            |x: u64| self.branches@.contains_key(x),
            |x: u64| node_at(self.roots@, path_to(self.branches@, x, None))->0.element,
        )
    }

    /// Read access to the node with id `id`, if the tree has it.
    pub fn find(&self, id: u64) -> (r: Option<NodeRef<'_, T>>)
        requires
            well_founded(self.parents()),
        ensures
            r is Some <==> self.parents().contains_key(id) && node_at(
                self.forest(),
                path_to(self.parents(), id, None),
            ) is Some,
            r matches Some(n) ==> {
                let node = node_at(self.forest(), path_to(self.parents(), id, None))->0;
                &&& n.branch_id == self.parents()[id]
                &&& *n.element == node.node_element()
                &&& n.leaves.branch() == Some(node.node_id())
                &&& n.leaves.forest() == node.node_leaves()
                &&& n.leaves.branch_map() == self.parents()
            },
            self.wf() ==> (r is Some <==> self.parents().contains_key(id)),
            self.wf() ==> (r matches Some(n) ==> *n.element == self.elements()[id] && n.leaves.branch() == Some(id)),
    {
        let r = self.roots()._find(id);
        proof {
            if self.wf() && self.parents().contains_key(id) {
                lemma_node_at_ids(self.roots@, None, self.branches@, path_to(self.branches@, id, None));
            }
        }
        r
    }

    /// Write access to the node with id `id`, if the tree has it. Through
    /// it the node's element and leaves can be changed; the tree then holds
    /// the node with those, where it was.
    pub fn find_mut(&mut self, id: u64) -> (r: Option<NodeMut<'_, T>>)
        requires
            well_founded(old(self).parents()),
        ensures
            r is Some <==> old(self).parents().contains_key(id) && node_at(
                old(self).forest(),
                path_to(old(self).parents(), id, None),
            ) is Some,
            r matches Some(n) ==> {
                let path = path_to(old(self).parents(), id, None);
                let node = node_at(old(self).forest(), path)->0;
                &&& n.branch_id == old(self).parents()[id]
                &&& *n.element == node.node_element()
                &&& n.leaves.branch_id == Some(node.node_id())
                &&& (*n.leaves.leaves)@ == node.node_leaves()
                &&& (*n.leaves.branches.branches)@ == old(self).parents()
                &&& replaced_at(
                    old(self).forest(),
                    final(self).forest(),
                    path,
                    node.node_id(),
                    *final(n.element),
                    *final(n.leaves.leaves),
                )
                &&& final(self).parents() == (*final(n.leaves.branches.branches))@
            },
            r is None ==> final(self).forest() == old(self).forest() && final(self).parents() == old(self).parents(),
            old(self).wf() ==> (r is Some <==> old(self).parents().contains_key(id)),
            old(self).wf() ==> (r matches Some(n) ==> *n.element == old(self).elements()[id] && n.leaves.branch_id
                == Some(id)),
    {
        proof {
            if self.wf() && self.parents().contains_key(id) {
                lemma_node_at_ids(self.roots@, None, self.branches@, path_to(self.branches@, id, None));
            }
        }
        self.roots_mut()._find_mut(id)
    }

    /// Read access to the roots of the tree.
    pub fn roots(&self) -> (r: LeavesRef<'_, T>)
        ensures
            r.branch() is None,
            r.forest() == self.forest(),
            r.branch_map() == self.parents(),
    {
        LeavesRef { branch_id: None, leaves: &self.roots, branches: BranchesRef { branches: &self.branches } }
    }

    /// Write access to the roots of the tree.
    pub fn roots_mut(&mut self) -> (r: LeavesMut<'_, T>)
        ensures
            r.branch_id is None,
            (*r.leaves)@ == old(self).forest(),
            (*r.branches.branches)@ == old(self).parents(),
            final(self).forest() == (*final(r.leaves))@,
            final(self).parents() == (*final(r.branches.branches))@,
    {
        LeavesMut {
            branch_id: None,
            leaves: &mut self.roots,
            branches: BranchesMut { branches: &mut self.branches },
        }
    }

    /// The ids of the roots of the tree, each once.
    pub fn root_ids(&self) -> (ids: Vec<u64>)
        ensures
            ids@.to_set() == self.forest().dom(),
            ids@.no_duplicates(),
    {
        let ghost keys = vstd::std_specs::hash::spec_keys_iter(&self.roots).remaining();
        let mut ids: Vec<u64> = Vec::new();
        for id in it: self.roots.keys()
            invariant
                it.seq() == keys,
                ids@ == keys.take(it.index() as int).unref(),
        {
            ids.push(*id);
            assert(ids@ =~= keys.take(it.index() as int + 1).unref());
        }
        assert(ids@ =~= keys.unref());
        ids
    }
}

impl<'tree, T> LeavesRef<'tree, T> {
    /// The id of the node whose leaves these are; `None` for the roots.
    pub closed spec fn branch(self) -> Option<u64> {
        self.branch_id
    }

    /// The leaves, by id.
    pub closed spec fn forest(self) -> Map<u64, Node<T>> {
        self.leaves@
    }

    /// The branch map of the whole tree.
    pub closed spec fn branch_map(self) -> Map<u64, Option<u64>> {
        self.branches.map()
    }

    /// Read access to the node with id `id` among these leaves and their
    /// leaves: the node reached by following [`path_to`] from here.
    fn _find(self, id: u64) -> (r: Option<NodeRef<'tree, T>>)
        requires
            well_founded(self.branch_map()),
        ensures
            r is Some <==> self.branch_map().contains_key(id) && node_at(
                self.forest(),
                path_to(self.branch_map(), id, self.branch()),
            ) is Some,
            r matches Some(n) ==> {
                let node = node_at(self.forest(), path_to(self.branch_map(), id, self.branch()))->0;
                &&& n.branch_id == self.branch_map()[id]
                &&& *n.element == node.node_element()
                &&& n.leaves.branch() == Some(node.node_id())
                &&& n.leaves.forest() == node.node_leaves()
                &&& n.leaves.branch_map() == self.branch_map()
            },
    {
        let ghost m = self.branch_map();
        let ghost f = self.forest();
        let branch_id = match self.branches.branches.get(&id) {
            Some(b) => *b,
            None => return None,
        };
        let id_path = match branch_id {
            Some(b) => self.branches.get_id_path(b, self.branch_id),
            None => Vec::new(),
        };
        let ghost rev = id_path@.reverse();
        proof {
            assert(path_to(m, id, self.branch_id) =~= rev.push(id));
        }
        let n = id_path.len();
        let mut k: usize = n;
        let mut node_leaves: &'tree HashMap<u64, Node<T>> = self.leaves;
        while k > 0
            invariant
                n == id_path@.len(),
                rev == id_path@.reverse(),
                k <= n,
                f == self.forest(),
                self.branch_map().contains_key(id),
                path_to(self.branch_map(), id, self.branch()) == rev.push(id),
                k == n ==> node_leaves@ == f,
                k < n ==> (node_at(f, rev.take((n - k) as int)) matches Some(x) && x.leaves@ == node_leaves@),
            decreases k,
        {
            let ghost j = (n - k) as int;
            let next = id_path[k - 1];
            assert(rev[j] == next);
            proof {
                assert(rev.take(j + 1) =~= rev.take(j) + seq![next]);
                if j > 0 {
                    lemma_node_at_append(f, rev.take(j), seq![next]);
                }
            }
            match node_leaves.get(&next) {
                Some(node) => {
                    node_leaves = &node.leaves;
                },
                None => {
                    proof {
                        assert(rev.push(id) =~= rev.take(j + 1) + rev.skip(j + 1).push(id));
                        lemma_node_at_append(f, rev.take(j + 1), rev.skip(j + 1).push(id));
                    }
                    return None;
                },
            }
            k -= 1;
        }
        proof {
            if n > 0 {
                assert(rev.take(n as int) =~= rev);
                assert(rev.push(id) =~= rev + seq![id]);
                lemma_node_at_append(f, rev, seq![id]);
            } else {
                assert(rev.push(id) =~= seq![id]);
            }
        }
        match node_leaves.get(&id) {
            Some(node) => Some(node.as_ref(branch_id, self.branches.branches)),
            None => None,
        }
    }
}

impl<'tree, T> LeavesMut<'tree, T> {
    /// Adds the element `value` as a leaf with id `leaf_id` and gives write
    /// access to it. The id must not be in the tree yet.
    pub fn insert(&mut self, leaf_id: u64, value: T) -> (r: NodeMut<'_, T>)
        requires
            !(*old(self).branches.branches)@.contains_key(leaf_id),
        ensures
            r.branch_id == old(self).branch_id,
            *r.element == value,
            r.leaves.branch_id == Some(leaf_id),
            (*r.leaves.leaves)@ == Map::<u64, Node<T>>::empty(),
            (*r.leaves.branches.branches)@ == (*old(self).branches.branches)@.insert(leaf_id, old(self).branch_id),
            final(self).branch_id == old(self).branch_id,
            (*final(self).leaves)@.dom() == (*old(self).leaves)@.dom().insert(leaf_id),
            forall|k: u64|
                k != leaf_id && #[trigger] (*old(self).leaves)@.contains_key(k) ==> (*final(self).leaves)@[k] == (
                *old(self).leaves)@[k],
            (*final(self).leaves)@[leaf_id].is(leaf_id, *final(r.element), *final(r.leaves.leaves)),
            *final(self).branches.branches == *final(r.leaves.branches.branches),
            *final(final(self).leaves) == *final(old(self).leaves),
            *final(final(self).branches.branches) == *final(old(self).branches.branches),
    {
        self.branches.branches.insert(leaf_id, self.branch_id);
        self.leaves.insert(leaf_id, Node { id: leaf_id, element: value, leaves: HashMap::new() });
        let node = map_get_mut(self.leaves, &leaf_id).unwrap();
        node.as_mut(self.branch_id, self.branches.branches)
    }

    /// Write access to the node with id `id` among these leaves and their
    /// leaves: the node reached by following [`path_to`] from here.
    fn _find_mut(self, id: u64) -> (r: Option<NodeMut<'tree, T>>)
        requires
            well_founded((*old(self.branches.branches))@),
        ensures
            r is Some <==> (*old(self.branches.branches))@.contains_key(id) && node_at(
                (*old(self.leaves))@,
                path_to((*old(self.branches.branches))@, id, self.branch_id),
            ) is Some,
            r matches Some(n) ==> {
                let path = path_to((*old(self.branches.branches))@, id, self.branch_id);
                let node = node_at((*old(self.leaves))@, path)->0;
                &&& n.branch_id == (*old(self.branches.branches))@[id]
                &&& *n.element == node.element
                &&& n.leaves.branch_id == Some(node.id)
                &&& *n.leaves.leaves == node.leaves
                &&& *n.leaves.branches.branches == *old(self.branches.branches)
                &&& replaced_at(
                    (*old(self.leaves))@,
                    (*final(self.leaves))@,
                    path,
                    node.id,
                    *final(n.element),
                    *final(n.leaves.leaves),
                )
                &&& *final(self.branches.branches) == *final(n.leaves.branches.branches)
            },
            r is None ==> *final(self.leaves) == *old(self.leaves) && *final(self.branches.branches)
                == *old(self.branches.branches),
    {
        let ghost m = (*self.branches.branches)@;
        let branch_id = match self.branches.branches.get(&id) {
            Some(b) => *b,
            None => return None,
        };
        let id_path = match branch_id {
            Some(b) => self.branches.get_id_path(b, self.branch_id),
            None => Vec::new(),
        };
        let mut path: Vec<u64> = Vec::new();
        let n = id_path.len();
        let mut k: usize = n;
        while k > 0
            invariant
                n == id_path@.len(),
                k <= n,
                path@ == id_path@.reverse().take((n - k) as int),
            decreases k,
        {
            k -= 1;
            path.push(id_path[k]);
            assert(path@ =~= id_path@.reverse().take((n - k) as int));
        }
        path.push(id);
        proof {
            assert(path@ =~= path_to(m, id, self.branch_id));
            assert(path@.skip(0) =~= path@);
        }
        let LeavesMut { branch_id: _, leaves, branches } = self;
        let node = match descend(leaves, &path, 0) {
            Some(node) => node,
            None => return None,
        };
        Some(node.as_mut(branch_id, branches.branches))
    }

    /// Removes the leaf with id `leaf_id`, with all the nodes below it, and
    /// gives back its element; `None` when there is no such leaf here.
    pub fn remove(&mut self, leaf_id: u64) -> (r: Option<T>)
        ensures
            r is Some <==> (*old(self).leaves)@.contains_key(leaf_id),
            r matches Some(v) ==> v == (*old(self).leaves)@[leaf_id].node_element(),
            (*final(self).leaves)@ == (*old(self).leaves)@.remove(leaf_id),
            (*final(self).branches.branches)@ == if (*old(self).leaves)@.contains_key(leaf_id) {
                (*old(self).branches.branches)@.remove_keys(subtree_ids((*old(self).leaves)@[leaf_id]))
            } else {
                (*old(self).branches.branches)@
            },
            final(self).branch_id == old(self).branch_id,
            *final(final(self).leaves) == *final(old(self).leaves),
            *final(final(self).branches.branches) == *final(old(self).branches.branches),
    {
        let leaf = match self.leaves.remove(&leaf_id) {
            Some(leaf) => leaf,
            None => return None,
        };
        remove_leaves(&leaf, self.branches.branches);
        Some(leaf.element)
    }
}

impl<'tree> BranchesRef<'tree> {
    /// The branch map.
    pub closed spec fn map(self) -> Map<u64, Option<u64>> {
        self.branches@
    }

    /// The ids from `id` up to, and not including, `start_id` (see
    /// [`id_path`]).
    pub fn get_id_path(self, id: u64, start_id: Option<u64>) -> (path: Vec<u64>)
        requires
            well_founded(self.map()),
        ensures
            path@ == id_path(self.map(), id, start_id),
    {
        let ghost m = self.branches@;
        let mut path: Vec<u64> = Vec::new();
        if !self.branches.contains_key(&id) {
            return path;
        }
        let ghost d = choose|d: Map<u64, nat>| depths_ok(m, d);
        let mut current: Option<u64> = Some(id);
        let ghost mut k: nat = 0;
        loop
            invariant_except_break
                m == self.branches@,
                depths_ok(m, d),
                m.contains_key(id),
                current == ancestor(m, id, k),
                current is Some,
                path@ == Seq::new(k, |j: int| ancestor(m, id, j as nat)->0),
                forall|j: nat| 1 <= j <= k ==> #[trigger] ancestor(m, id, j) is Some && ancestor(m, id, j) != start_id,
            ensures
                m == self.branches@,
                m.contains_key(id),
                stops_at(m, id, start_id, k),
                current == ancestor(m, id, k),
                path@ == Seq::new(k, |j: int| ancestor(m, id, j as nat)->0),
            decreases d[id] - k,
        {
            proof {
                lemma_ancestor_depth(m, d, id, k);
                lemma_ancestor_depth(m, d, id, k + 1);
            }
            let c = current.unwrap();
            path.push(c);
            let next = match self.branches.get(&c) {
                Some(b) => *b,
                None => None,
            };
            proof {
                k = k + 1;
            }
            assert(path@ =~= Seq::new(k, |j: int| ancestor(m, id, j as nat)->0));
            current = next;
            if current == start_id || current.is_none() {
                break;
            }
        }
        proof {
            let n = choose|n: nat| stops_at(m, id, start_id, n);
            lemma_stops_at_unique(m, id, start_id, n, k);
        }
        if current != start_id {
            path.clear();
            assert(path@ =~= Seq::<u64>::empty());
        }
        path
    }
}

impl<'tree> BranchesMut<'tree> {
    /// The branch map.
    pub open spec fn map(&self) -> Map<u64, Option<u64>> {
        (*self.branches)@
    }

    /// The ids from `id` up to, and not including, `start_id` (see
    /// [`id_path`]).
    pub fn get_id_path(&self, id: u64, start_id: Option<u64>) -> (path: Vec<u64>)
        requires
            well_founded(self.map()),
        ensures
            path@ == id_path(self.map(), id, start_id),
    {
        BranchesRef { branches: &*self.branches }.get_id_path(id, start_id)
    }
}

/// A walk up from an id of a forest stops within the depth of the id.
proof fn lemma_stops_at_exists(m: Map<u64, Option<u64>>, d: Map<u64, nat>, id: u64, start: Option<u64>, k: nat)
    requires
        depths_ok(m, d),
        m.contains_key(id),
        k >= 1,
        forall|j: nat| 1 <= j < k ==> #[trigger] ancestor(m, id, j) is Some && ancestor(m, id, j) != start,
    ensures
        exists|n: nat| stops_at(m, id, start, n),
    decreases d[id] + 1 - k,
{
    lemma_ancestor_depth(m, d, id, k);
    if ancestor(m, id, k) == start || ancestor(m, id, k) is None {
        assert(stops_at(m, id, start, k));
    } else {
        lemma_stops_at_exists(m, d, id, start, k + 1);
    }
}

/// Adding a new id to a forest does not change the walk up from an id that
/// was in it.
proof fn lemma_ancestor_insert(m: Map<u64, Option<u64>>, d: Map<u64, nat>, x: u64, p: Option<u64>, b: u64, k: nat)
    requires
        depths_ok(m, d),
        m.contains_key(b),
        !m.contains_key(x),
    ensures
        ancestor(m.insert(x, p), b, k) == ancestor(m, b, k),
    decreases k,
{
    if k > 0 {
        lemma_ancestor_insert(m, d, x, p, b, (k - 1) as nat);
        lemma_ancestor_depth(m, d, b, (k - 1) as nat);
    }
}

/// Adding a new id to a forest does not change the id path of an id that
/// was in it.
proof fn lemma_id_path_insert(m: Map<u64, Option<u64>>, d: Map<u64, nat>, x: u64, p: Option<u64>, b: u64, start: Option<u64>)
    requires
        depths_ok(m, d),
        m.contains_key(b),
        !m.contains_key(x),
    ensures
        id_path(m.insert(x, p), b, start) == id_path(m, b, start),
{
    let m2 = m.insert(x, p);
    assert forall|k: nat| #[trigger] ancestor(m2, b, k) == ancestor(m, b, k) by {
        lemma_ancestor_insert(m, d, x, p, b, k);
    }
    lemma_stops_at_exists(m, d, b, start, 1);
    let n1 = choose|n: nat| stops_at(m, b, start, n);
    let n2 = choose|n: nat| stops_at(m2, b, start, n);
    assert(stops_at(m2, b, start, n1));
    lemma_stops_at_unique(m2, b, start, n1, n2);
    assert(id_path(m2, b, start) =~= id_path(m, b, start));
}

/// One step up the walk from `q` is the walk from its branch `b`.
proof fn lemma_ancestor_shift(m: Map<u64, Option<u64>>, q: u64, b: u64, j: nat)
    requires
        m.contains_key(q),
        m[q] == Some(b),
    ensures
        ancestor(m, q, j + 1) == ancestor(m, b, j),
    decreases j,
{
    if j > 0 {
        lemma_ancestor_shift(m, q, b, (j - 1) as nat);
        assert(((j + 1) - 1) as nat == j);
        assert(ancestor(m, q, j + 1) == match ancestor(m, q, j) {
            Some(c) => if m.contains_key(c) {
                m[c]
            } else {
                None
            },
            None => None,
        });
    } else {
        assert(ancestor(m, q, 1) == match ancestor(m, q, 0) {
            Some(c) => if m.contains_key(c) {
                m[c]
            } else {
                None
            },
            None => None,
        });
    }
}

/// The path from the roots down to an id of a forest is its id path,
/// outermost first.
proof fn lemma_path_to_id_path(m: Map<u64, Option<u64>>, d: Map<u64, nat>, q: u64)
    requires
        depths_ok(m, d),
        m.contains_key(q),
    ensures
        path_to(m, q, None) == id_path(m, q, None).reverse(),
{
    reveal_with_fuel(ancestor, 2);
    lemma_stops_at_exists(m, d, q, None, 1);
    let nq = choose|n: nat| stops_at(m, q, None, n);
    match m[q] {
        None => {
            assert(stops_at(m, q, None, 1));
            lemma_stops_at_unique(m, q, None, nq, 1);
            assert(id_path(m, q, None) =~= seq![q]);
            assert(id_path(m, q, None).reverse() =~= seq![q]);
        },
        Some(b) => {
            assert forall|j: nat| #[trigger] ancestor(m, q, j + 1) == ancestor(m, b, j) by {
                lemma_ancestor_shift(m, q, b, j);
            }
            lemma_stops_at_exists(m, d, b, None, 1);
            let nb = choose|n: nat| stops_at(m, b, None, n);
            assert(ancestor(m, q, 1) == ancestor(m, b, 0));
            assert forall|j: nat| 1 <= j < nb + 1 implies #[trigger] ancestor(m, q, j) is Some && ancestor(m, q, j)
                != None::<u64> by {
                assert(ancestor(m, q, ((j - 1) as nat) + 1) == ancestor(m, b, (j - 1) as nat));
            }
            assert(ancestor(m, q, nb + 1) == ancestor(m, b, nb));
            assert(stops_at(m, q, None, nb + 1));
            lemma_stops_at_unique(m, q, None, nq, nb + 1);
            let pb = id_path(m, b, None);
            let pq = id_path(m, q, None);
            assert(pq =~= seq![q] + pb) by {
                assert forall|j: int| 0 <= j < pq.len() implies pq[j] == (seq![q] + pb)[j] by {
                    if j > 0 {
                        assert(ancestor(m, q, ((j - 1) as nat) + 1) == ancestor(m, b, (j - 1) as nat));
                    }
                }
            }
            assert(path_to(m, q, None) =~= pq.reverse());
        },
    }
}

/// Adding a new id to a forest does not change the path down to an id that
/// was in it.
proof fn lemma_path_to_insert(m: Map<u64, Option<u64>>, d: Map<u64, nat>, x: u64, p: Option<u64>, y: u64)
    requires
        depths_ok(m, d),
        m.contains_key(y),
        !m.contains_key(x),
    ensures
        path_to(m.insert(x, p), y, None) == path_to(m, y, None),
{
    if let Some(b) = m[y] {
        lemma_id_path_insert(m, d, x, p, b, None);
    }
}

/// Adding a new id as a root, or below an id of the forest, keeps the
/// branch map a forest.
proof fn lemma_well_founded_insert(m: Map<u64, Option<u64>>, x: u64, p: Option<u64>)
    requires
        well_founded(m),
        !m.contains_key(x),
        p matches Some(q) ==> m.contains_key(q),
    ensures
        well_founded(m.insert(x, p)),
{
    let d = choose|d: Map<u64, nat>| depths_ok(m, d);
    let dx: nat = match p {
        Some(q) => d[q] + 1,
        None => 0,
    };
    let d2 = d.insert(x, dx);
    assert(depths_ok(m.insert(x, p), d2));
}

/// Two forests that hold the same node under the first id of a path reach
/// the same node by it.
proof fn lemma_node_at_same_head<T>(f: Map<u64, Node<T>>, g: Map<u64, Node<T>>, path: Seq<u64>)
    requires
        path.len() > 0,
        f.contains_key(path[0]) == g.contains_key(path[0]),
        f.contains_key(path[0]) ==> f[path[0]] == g[path[0]],
    ensures
        node_at(f, path) == node_at(g, path),
{
}

/// A forest consistent with a branch map stays so when a new id is added
/// to the map.
proof fn lemma_forest_ok_insert<T>(f: Map<u64, Node<T>>, par: Option<u64>, m: Map<u64, Option<u64>>, x: u64, p: Option<u64>)
    requires
        forest_ok(f, par, m),
        !m.contains_key(x),
    ensures
        forest_ok(f, par, m.insert(x, p)),
    decreases f,
{
    assert forall|k: u64| #[trigger] f.contains_key(k) implies {
        &&& f[k].id == k
        &&& m.insert(x, p).contains_key(k) && m.insert(x, p)[k] == par
        &&& forest_ok(f[k].leaves@, Some(k), m.insert(x, p))
    } by {
        lemma_forest_ok_insert(f[k].leaves@, Some(k), m, x, p);
    }
}

/// The node a path reaches in a consistent forest is stored under the last
/// id of the path, that id is in the branch map, and the leaves of the node
/// are consistent with it.
proof fn lemma_forest_ok_at<T>(f: Map<u64, Node<T>>, par: Option<u64>, m: Map<u64, Option<u64>>, path: Seq<u64>)
    requires
        forest_ok(f, par, m),
    ensures
        node_at(f, path) matches Some(n) ==> n.id == path.last() && m.contains_key(n.id) && forest_ok(
            n.leaves@,
            Some(n.id),
            m,
        ),
    decreases path.len(),
{
    if path.len() > 1 && f.contains_key(path[0]) {
        lemma_forest_ok_at(f[path[0]].leaves@, Some(path[0]), m, path.drop_first());
    }
}

/// Replacing the node at the end of a path by a consistent one keeps the
/// forest consistent.
proof fn lemma_forest_ok_replaced<T>(
    f1: Map<u64, Node<T>>,
    f2: Map<u64, Node<T>>,
    par: Option<u64>,
    m: Map<u64, Option<u64>>,
    path: Seq<u64>,
    q: u64,
    e: T,
    leaves: HashMap<u64, Node<T>>,
)
    requires
        forest_ok(f1, par, m),
        replaced_at(f1, f2, path, q, e, leaves),
        node_at(f1, path) matches Some(n) && n.id == q,
        forest_ok(leaves@, Some(q), m),
    ensures
        forest_ok(f2, par, m),
    decreases path.len(),
{
    let k0 = path[0];
    if path.len() > 1 {
        lemma_forest_ok_replaced(f1[k0].leaves@, f2[k0].leaves@, Some(k0), m, path.drop_first(), q, e, leaves);
    }
    assert forall|k: u64| #[trigger] f2.contains_key(k) implies {
        &&& f2[k].id == k
        &&& m.contains_key(k) && m[k] == par
        &&& forest_ok(f2[k].leaves@, Some(k), m)
    } by {
        if k != k0 {
            assert(f1.contains_key(k));
        }
    }
}

/// What replacing the node at the end of `path` by one with an added leaf
/// `x` does to the nodes that paths reach: each node reached before is
/// still reached, with the same element (the given one at the end of
/// `path`), and the added leaf is reached below the end of `path`.
proof fn lemma_node_at_replaced<T>(
    f1: Map<u64, Node<T>>,
    f2: Map<u64, Node<T>>,
    par: Option<u64>,
    m: Map<u64, Option<u64>>,
    path: Seq<u64>,
    q: u64,
    e: T,
    leaves: HashMap<u64, Node<T>>,
    x: u64,
    y: Seq<u64>,
)
    requires
        forest_ok(f1, par, m),
        !m.contains_key(x),
        replaced_at(f1, f2, path, q, e, leaves),
        node_at(f1, path) matches Some(n) && n.id == q && leaves@.dom() == n.leaves@.dom().insert(x) && forall|k: u64|
            k != x && #[trigger] n.leaves@.contains_key(k) ==> leaves@[k] == n.leaves@[k],
    ensures
        node_at(f1, y) matches Some(ny) ==> (node_at(f2, y) matches Some(ny2) && ny2.element == if y == path {
            e
        } else {
            ny.element
        }),
        node_at(f2, path.push(x)) == Some(leaves@[x]),
    decreases path.len(),
{
    let k0 = path[0];
    let n = node_at(f1, path)->0;
    lemma_forest_ok_at(f1, par, m, path);
    if y.len() > 0 && y[0] != k0 {
        lemma_node_at_same_head(f1, f2, y);
        assert(y != path);
    }
    if path.len() == 1 {
        assert(path.push(x) =~= seq![k0, x]);
        assert(seq![k0, x].drop_first() =~= seq![x]);
        if y.len() == 1 && y[0] == k0 {
            assert(y =~= path);
        }
        if y.len() > 1 && y[0] == k0 && node_at(f1, y) is Some {
            let y1 = y.drop_first();
            assert(n == f1[k0]);
            assert(node_at(f1, y) == node_at(f1[k0].leaves@, y1));
            assert(n.leaves@.contains_key(y1[0]));
            lemma_forest_ok_at(n.leaves@, Some(q), m, seq![y1[0]]);
            assert(y1[0] != x);
            lemma_node_at_same_head(leaves@, n.leaves@, y1);
            assert(y != path);
        }
    } else {
        let rest = path.drop_first();
        assert(path.push(x).drop_first() =~= rest.push(x));
        assert(path.push(x)[0] == k0);
        if y.len() > 1 && y[0] == k0 {
            let y1 = y.drop_first();
            lemma_node_at_replaced(f1[k0].leaves@, f2[k0].leaves@, Some(k0), m, rest, q, e, leaves, x, y1);
            if y1 =~= rest {
                assert forall|i: int| 0 <= i < y.len() implies y[i] == path[i] by {
                    if i > 0 {
                        assert(y[i] == y1[i - 1]);
                        assert(path[i] == rest[i - 1]);
                    }
                }
                assert(y =~= path);
            } else {
                assert(y != path) by {
                    if y == path {
                        assert(y1 =~= rest);
                    }
                }
            }
        } else {
            lemma_node_at_replaced(f1[k0].leaves@, f2[k0].leaves@, Some(k0), m, rest, q, e, leaves, x, rest);
            if y.len() == 1 {
                assert(y != path);
            }
        }
    }
}

/// Adding a root: when a new id `x` with element `v` (and no leaves) is
/// added to the roots of a consistent tree, with `None` as its branch, the
/// tree stays consistent, and its elements are those it had and `v` under
/// `x`: `find(x)` then gives `v` with no branch, and every other id is found
/// as before.
pub proof fn lemma_insert_root<T>(t1: Tree<T>, t2: Tree<T>, x: u64, v: T)
    requires
        t1.wf(),
        !t1.parents().contains_key(x),
        t2.parents() == t1.parents().insert(x, None),
        t2.forest().dom() == t1.forest().dom().insert(x),
        forall|k: u64| k != x && #[trigger] t1.forest().contains_key(k) ==> t2.forest()[k] == t1.forest()[k],
        t2.forest()[x].node_id() == x,
        t2.forest()[x].node_element() == v,
        t2.forest()[x].node_leaves() == Map::<u64, Node<T>>::empty(),
    ensures
        t2.wf(),
        t2.elements() == t1.elements().insert(x, v),
        t2.parents().contains_key(x) && t2.parents()[x] is None && t2.elements()[x] == v,
        forall|y: u64|
            y != x && #[trigger] t1.parents().contains_key(y) ==> t2.parents().contains_key(y) && t2.parents()[y]
                == t1.parents()[y] && t2.elements()[y] == t1.elements()[y],
{
    let m1 = t1.branches@;
    let m2 = t2.branches@;
    let f1 = t1.roots@;
    let f2 = t2.roots@;
    let d = choose|d: Map<u64, nat>| depths_ok(m1, d);
    lemma_well_founded_insert(m1, x, None);
    lemma_forest_ok_insert(f1, None, m1, x, None);
    assert(forest_ok(f2, None, m2)) by {
        assert(forest_ok(f2[x].leaves@, Some(x), m2));
        assert forall|k: u64| #[trigger] f2.contains_key(k) implies {
            &&& f2[k].id == k
            &&& m2.contains_key(k) && m2[k] == None::<u64>
            &&& forest_ok(f2[k].leaves@, Some(k), m2)
        } by {
            if k != x {
                assert(f1.contains_key(k));
            }
        }
    }
    assert forall|y: u64| #[trigger] m2.contains_key(y) implies node_at(f2, path_to(m2, y, None)) is Some
        && node_at(f2, path_to(m2, y, None))->0.element == t1.elements().insert(x, v)[y] by {
        if y == x {
            assert(path_to(m2, x, None) =~= seq![x]);
        } else {
            lemma_path_to_insert(m1, d, x, None, y);
            let path = path_to(m1, y, None);
            lemma_forest_ok_at(f1, None, m1, seq![path[0]]);
            assert(f1.contains_key(path[0]));
            assert(path[0] != x);
            lemma_node_at_same_head(f1, f2, path);
        }
    }
    assert(t2.elements() =~= t1.elements().insert(x, v));
}

/// Adding a leaf: when a new id `x` with element `v` (and no leaves) is
/// added to the leaves of node `q` of a consistent tree, with `q` as its
/// branch, and the element of `q` is then `e`, the tree stays consistent,
/// and its elements are those it had, with `e` under `q` and `v` under `x`:
/// `find(x)` then gives `v` with branch `q`, and every id other than `q` is
/// found as before.
pub proof fn lemma_insert_leaf<T>(
    t1: Tree<T>,
    t2: Tree<T>,
    q: u64,
    e: T,
    leaves: HashMap<u64, Node<T>>,
    x: u64,
    v: T,
)
    requires
        t1.wf(),
        t1.parents().contains_key(q),
        !t1.parents().contains_key(x),
        t2.parents() == t1.parents().insert(x, Some(q)),
        replaced_at(t1.forest(), t2.forest(), path_to(t1.parents(), q, None), q, e, leaves),
        ({
            let old_leaves = node_at(t1.forest(), path_to(t1.parents(), q, None))->0.node_leaves();
            &&& leaves@.dom() == old_leaves.dom().insert(x)
            &&& forall|k: u64| k != x && #[trigger] old_leaves.contains_key(k) ==> leaves@[k] == old_leaves[k]
        }),
        leaves@[x].node_id() == x,
        leaves@[x].node_element() == v,
        leaves@[x].node_leaves() == Map::<u64, Node<T>>::empty(),
    ensures
        t2.wf(),
        t2.elements() == t1.elements().insert(q, e).insert(x, v),
        t2.parents().contains_key(x) && t2.parents()[x] == Some(q) && t2.elements()[x] == v,
        t2.elements()[q] == e,
        forall|y: u64|
            y != x && y != q && #[trigger] t1.parents().contains_key(y) ==> t2.parents().contains_key(y)
                && t2.parents()[y] == t1.parents()[y] && t2.elements()[y] == t1.elements()[y],
{
    let m1 = t1.branches@;
    let m2 = t2.branches@;
    let f1 = t1.roots@;
    let f2 = t2.roots@;
    let d = choose|d: Map<u64, nat>| depths_ok(m1, d);
    let path = path_to(m1, q, None);
    let n = node_at(f1, path)->0;
    lemma_forest_ok_at(f1, None, m1, path);
    lemma_well_founded_insert(m1, x, Some(q));
    lemma_forest_ok_insert(f1, None, m1, x, Some(q));
    lemma_forest_ok_insert(n.leaves@, Some(q), m1, x, Some(q));
    assert(forest_ok(leaves@, Some(q), m2)) by {
        assert(forest_ok(leaves@[x].leaves@, Some(x), m2));
        assert forall|k: u64| #[trigger] leaves@.contains_key(k) implies {
            &&& leaves@[k].id == k
            &&& m2.contains_key(k) && m2[k] == Some(q)
            &&& forest_ok(leaves@[k].leaves@, Some(k), m2)
        } by {
            if k != x {
                assert(n.leaves@.contains_key(k));
            }
        }
    }
    lemma_forest_ok_replaced(f1, f2, None, m2, path, q, e, leaves);
    lemma_path_to_id_path(m1, d, q);
    lemma_id_path_insert(m1, d, x, Some(q), q, None);
    assert(path_to(m2, x, None) =~= path.push(x));
    lemma_node_at_replaced(f1, f2, None, m1, path, q, e, leaves, x, path.push(x));
    assert forall|y: u64| #[trigger] m2.contains_key(y) implies node_at(f2, path_to(m2, y, None)) is Some
        && node_at(f2, path_to(m2, y, None))->0.element == t1.elements().insert(q, e).insert(x, v)[y] by {
        if y != x {
            lemma_path_to_insert(m1, d, x, Some(q), y);
            let py = path_to(m1, y, None);
            lemma_node_at_replaced(f1, f2, None, m1, path, q, e, leaves, x, py);
            lemma_forest_ok_at(f1, None, m1, py);
            if py == path {
                assert(y == q);
            }
            if y == q {
                assert(py == path);
            }
        }
    }
    assert(t2.elements() =~= t1.elements().insert(q, e).insert(x, v));
}

/// Along a path that reaches a node of a consistent forest, the branch map
/// gives each id the one before it as its branch (`par` for the first), and
/// the node is stored under the last id.
proof fn lemma_forest_path<T>(f: Map<u64, Node<T>>, par: Option<u64>, m: Map<u64, Option<u64>>, w: Seq<u64>)
    requires
        forest_ok(f, par, m),
        node_at(f, w) is Some,
    ensures
        m.contains_key(w[0]),
        m[w[0]] == par,
        forall|i: int| 0 < i < w.len() ==> m.contains_key(#[trigger] w[i]) && m[w[i]] == Some(w[i - 1]),
        node_at(f, w)->0.id == w.last(),
        m.contains_key(w.last()),
    decreases w.len(),
{
    lemma_forest_ok_at(f, par, m, w);
    let k = w[0];
    assert(f.contains_key(k));
    if w.len() > 1 {
        let w1 = w.drop_first();
        lemma_forest_path(f[k].leaves@, Some(k), m, w1);
        assert forall|i: int| 0 < i < w.len() implies m.contains_key(#[trigger] w[i]) && m[w[i]] == Some(w[i - 1]) by {
            assert(w[i] == w1[i - 1]);
            if i > 1 {
                assert(w[i - 1] == w1[i - 2]);
            }
        }
    }
}

/// In a consistent tree, the path that reaches a node is the path down to
/// the node's id.
proof fn lemma_node_path<T>(f: Map<u64, Node<T>>, m: Map<u64, Option<u64>>, d: Map<u64, nat>, w: Seq<u64>)
    requires
        forest_ok(f, None, m),
        depths_ok(m, d),
        node_at(f, w) is Some,
    ensures
        w == path_to(m, w.last(), None),
    decreases w.len(),
{
    lemma_forest_path(f, None, m, w);
    if w.len() == 1 {
        assert(path_to(m, w[0], None) =~= w);
    } else {
        let w0 = w.drop_last();
        let last = w.last();
        assert(w0 + seq![last] =~= w);
        lemma_node_at_append(f, w0, seq![last]);
        lemma_node_path(f, m, d, w0);
        let b = w0.last();
        assert(b == w[w.len() - 2]);
        assert(m[last] == Some(b));
        lemma_path_to_id_path(m, d, b);
        assert(w =~= w0.push(last));
    }
}

/// A node reached below the leaves of `n` lies in the subtree of `n`.
proof fn lemma_under<T>(n: Node<T>, m: Map<u64, Option<u64>>, z: Seq<u64>)
    requires
        forest_ok(n.leaves@, Some(n.id), m),
        node_at(n.leaves@, z) is Some,
    ensures
        in_subtree(n, node_at(n.leaves@, z)->0.id),
    decreases z.len(),
{
    let k = z[0];
    let c = n.leaves@[k];
    assert(n.leaves@.contains_key(k));
    let id = node_at(n.leaves@, z)->0.id;
    if z.len() == 1 {
        assert(in_subtree(c, c.id));
    } else {
        lemma_under(c, m, z.drop_first());
    }
    assert(in_subtree(n.leaves@[k], id));
}

/// A node in the subtree of `n`, other than `n`, is reached by a path below
/// the leaves of `n`.
proof fn lemma_in_subtree_path<T>(n: Node<T>, m: Map<u64, Option<u64>>, y: u64)
    requires
        forest_ok(n.leaves@, Some(n.id), m),
        in_subtree(n, y),
        y != n.id,
    ensures
        exists|z: Seq<u64>| z.len() > 0 && (#[trigger] node_at(n.leaves@, z) matches Some(c) && c.id == y),
    decreases n,
{
    let k = choose|k: u64| #[trigger] n.leaves@.contains_key(k) && in_subtree(n.leaves@[k], y);
    let c = n.leaves@[k];
    assert(decreases_to!(n => c));
    if y == c.id {
        assert(node_at(n.leaves@, seq![k]) == Some(c));
    } else {
        lemma_in_subtree_path(c, m, y);
        let z = choose|z: Seq<u64>| z.len() > 0 && (#[trigger] node_at(c.leaves@, z) matches Some(cc) && cc.id == y);
        assert((seq![k] + z).drop_first() =~= z);
        assert(node_at(n.leaves@, seq![k] + z) == node_at(c.leaves@, z));
    }
}

/// Whether the path `y` goes through all of the path `w`.
pub open spec fn through(y: Seq<u64>, w: Seq<u64>) -> bool {
    y.len() >= w.len() && y.take(w.len() as int) == w
}

/// A consistent forest none of whose nodes has an id of `s` stays
/// consistent when the ids of `s` leave the branch map.
proof fn lemma_forest_ok_remove_keys<T>(f: Map<u64, Node<T>>, par: Option<u64>, m: Map<u64, Option<u64>>, s: Set<u64>)
    requires
        forest_ok(f, par, m),
        forall|z: Seq<u64>| #[trigger] node_at(f, z) matches Some(c) ==> !s.contains(c.id),
    ensures
        forest_ok(f, par, m.remove_keys(s)),
    decreases f,
{
    assert forall|k: u64| #[trigger] f.contains_key(k) implies {
        &&& f[k].id == k
        &&& m.remove_keys(s).contains_key(k) && m.remove_keys(s)[k] == par
        &&& forest_ok(f[k].leaves@, Some(k), m.remove_keys(s))
    } by {
        assert(node_at(f, seq![k]) == Some(f[k]));
        assert forall|z: Seq<u64>| #[trigger] node_at(f[k].leaves@, z) is Some implies !s.contains(
            node_at(f[k].leaves@, z)->0.id,
        ) by {
            assert((seq![k] + z).drop_first() =~= z);
            assert(node_at(f, seq![k] + z) == node_at(f[k].leaves@, z));
        }
        lemma_forest_ok_remove_keys(f[k].leaves@, Some(k), m, s);
    }
}

/// Two branch maps that give an id the same walk up give it the same id
/// path.
proof fn lemma_id_path_same(m1: Map<u64, Option<u64>>, m2: Map<u64, Option<u64>>, d: Map<u64, nat>, b: u64, start: Option<u64>)
    requires
        depths_ok(m1, d),
        m1.contains_key(b),
        m2.contains_key(b),
        forall|k: nat| #[trigger] ancestor(m2, b, k) == ancestor(m1, b, k),
    ensures
        id_path(m2, b, start) == id_path(m1, b, start),
{
    lemma_stops_at_exists(m1, d, b, start, 1);
    let n1 = choose|n: nat| stops_at(m1, b, start, n);
    let n2 = choose|n: nat| stops_at(m2, b, start, n);
    assert(stops_at(m2, b, start, n1));
    lemma_stops_at_unique(m2, b, start, n1, n2);
    assert(id_path(m2, b, start) =~= id_path(m1, b, start));
}

/// Removing from a branch map a set of ids, when every id outside the set
/// has its branch outside the set, keeps the walk up from the ids outside
/// the set.
proof fn lemma_ancestor_remove(m: Map<u64, Option<u64>>, d: Map<u64, nat>, s: Set<u64>, b: u64, k: nat)
    requires
        depths_ok(m, d),
        m.contains_key(b),
        !s.contains(b),
        forall|y: u64| #[trigger] m.contains_key(y) && !s.contains(y) ==> (m[y] matches Some(p) ==> !s.contains(p)),
    ensures
        ancestor(m.remove_keys(s), b, k) == ancestor(m, b, k),
        ancestor(m, b, k) matches Some(c) ==> m.contains_key(c) && !s.contains(c),
    decreases k,
{
    lemma_ancestor_depth(m, d, b, k);
    if k > 0 {
        lemma_ancestor_remove(m, d, s, b, (k - 1) as nat);
    }
}

/// Removing, from a consistent tree, the node at the end of the path `wx`
/// with everything below it (the forest `f2`, the branch map `m2`) leaves
/// a consistent tree in which every id left has the path it had; an id
/// goes exactly when its path goes through `wx`.
proof fn lemma_remove_subtree<T>(
    f1: Map<u64, Node<T>>,
    f2: Map<u64, Node<T>>,
    m1: Map<u64, Option<u64>>,
    m2: Map<u64, Option<u64>>,
    wx: Seq<u64>,
)
    requires
        well_founded(m1),
        forest_ok(f1, None, m1),
        forall|y: u64| #[trigger] m1.contains_key(y) ==> node_at(f1, path_to(m1, y, None)) is Some,
        node_at(f1, wx) is Some,
        forest_ok(f2, None, m1),
        forall|z: Seq<u64>|
            #[trigger] node_at(f2, z) matches Some(c) ==> (node_at(f1, z) matches Some(c1) && c1.id == c.id && !through(
                z,
                wx,
            )),
        forall|z: Seq<u64>| !through(z, wx) && #[trigger] node_at(f1, z) is Some ==> node_at(f2, z) is Some,
        m2 == m1.remove_keys(subtree_ids(node_at(f1, wx)->0)),
    ensures
        well_founded(m2),
        forest_ok(f2, None, m2),
        forall|y: u64|
            #[trigger] m2.contains_key(y) ==> path_to(m2, y, None) == path_to(m1, y, None) && node_at(
                f2,
                path_to(m2, y, None),
            ) is Some,
        forall|y: u64|
            #[trigger] m1.contains_key(y) ==> (subtree_ids(node_at(f1, wx)->0).contains(y) <==> through(
                path_to(m1, y, None),
                wx,
            )),
{
    let d = choose|d: Map<u64, nat>| depths_ok(m1, d);
    let nx = node_at(f1, wx)->0;
    let s = subtree_ids(nx);
    lemma_forest_ok_at(f1, None, m1, wx);
    lemma_forest_path(f1, None, m1, wx);
    let x = wx.last();
    assert forall|y: u64| #[trigger] m1.contains_key(y) implies (s.contains(y) <==> through(path_to(m1, y, None), wx)) by {
        let py = path_to(m1, y, None);
        assert(py.last() == y);
        if s.contains(y) {
            if y == nx.id {
                lemma_node_path(f1, m1, d, wx);
                assert(py.take(wx.len() as int) =~= wx);
            } else {
                lemma_in_subtree_path(nx, m1, y);
                let z = choose|z: Seq<u64>| z.len() > 0 && (#[trigger] node_at(nx.leaves@, z) matches Some(c) && c.id == y);
                lemma_node_at_append(f1, wx, z);
                lemma_forest_path(f1, None, m1, wx + z);
                lemma_node_path(f1, m1, d, wx + z);
                assert((wx + z).last() == y);
                assert((wx + z).take(wx.len() as int) =~= wx);
            }
        }
        if through(py, wx) {
            let z = py.skip(wx.len() as int);
            assert(py =~= wx + z);
            if z.len() == 0 {
                assert(py =~= wx);
                assert(in_subtree(nx, y));
            } else {
                lemma_node_at_append(f1, wx, z);
                lemma_forest_path(f1, None, m1, py);
                lemma_under(nx, m1, z);
            }
        }
    }
    assert forall|y: u64| #[trigger] m1.contains_key(y) && !s.contains(y) implies (m1[y] matches Some(p) ==> !s.contains(p)) by {
        if let Some(p) = m1[y] {
            if s.contains(p) {
                assert(m1.contains_key(p));
                lemma_path_to_id_path(m1, d, p);
                let pp = path_to(m1, p, None);
                assert(path_to(m1, y, None) =~= pp.push(y));
                assert(through(pp, wx));
                assert(pp.push(y).take(wx.len() as int) =~= pp.take(wx.len() as int));
                assert(through(path_to(m1, y, None), wx));
            }
        }
    }
    let d2 = d.restrict(m2.dom());
    assert(depths_ok(m2, d2));
    assert forall|y: u64| #[trigger] m2.contains_key(y) implies path_to(m2, y, None) == path_to(m1, y, None) && node_at(
        f2,
        path_to(m2, y, None),
    ) is Some by {
        if let Some(b) = m1[y] {
            assert forall|k: nat| #[trigger] ancestor(m2, b, k) == ancestor(m1, b, k) by {
                lemma_ancestor_remove(m1, d, s, b, k);
            }
            lemma_id_path_same(m1, m2, d, b, None);
        }
        assert(!through(path_to(m1, y, None), wx));
    }
    assert forall|z: Seq<u64>| #[trigger] node_at(f2, z) is Some implies !s.contains(node_at(f2, z)->0.id) by {
        let c1 = node_at(f1, z)->0;
        lemma_forest_path(f1, None, m1, z);
        lemma_node_path(f1, m1, d, z);
    }
    lemma_forest_ok_remove_keys(f2, None, m1, s);
}

/// A consistent forest stays consistent without one of its nodes.
proof fn lemma_forest_ok_remove<T>(f: Map<u64, Node<T>>, par: Option<u64>, m: Map<u64, Option<u64>>, x: u64)
    requires
        forest_ok(f, par, m),
    ensures
        forest_ok(f.remove(x), par, m),
{
    assert forall|k: u64| #[trigger] f.remove(x).contains_key(k) implies {
        &&& f.remove(x)[k].id == k
        &&& m.contains_key(k) && m[k] == par
        &&& forest_ok(f.remove(x)[k].leaves@, Some(k), m)
    } by {
        assert(f.contains_key(k));
    }
}

/// Removing a root: when the root `x` of a consistent tree is removed with
/// all the nodes below it, and their ids leave the branch map, the tree
/// stays consistent and keeps the elements of the ids that are left:
/// `find` then finds neither `x` nor any id below it, and every other id as
/// before.
pub proof fn lemma_remove_root<T>(t1: Tree<T>, t2: Tree<T>, x: u64)
    requires
        t1.wf(),
        t1.forest().contains_key(x),
        t2.forest() == t1.forest().remove(x),
        t2.parents() == t1.parents().remove_keys(subtree_ids(t1.forest()[x])),
    ensures
        t2.wf(),
        t2.elements() == t1.elements().remove_keys(subtree_ids(t1.forest()[x])),
        subtree_ids(t1.forest()[x]).contains(x),
        forall|d: u64| #[trigger] subtree_ids(t1.forest()[x]).contains(d) ==> !t2.parents().contains_key(d),
        forall|y: u64|
            !subtree_ids(t1.forest()[x]).contains(y) && #[trigger] t1.parents().contains_key(y) ==> t2.parents().contains_key(
                y,
            ) && t2.parents()[y] == t1.parents()[y] && t2.elements()[y] == t1.elements()[y],
{
    let m1 = t1.branches@;
    let m2 = t2.branches@;
    let f1 = t1.roots@;
    let f2 = t2.roots@;
    let wx = seq![x];
    assert(node_at(f1, wx) == Some(f1[x]));
    lemma_forest_ok_remove(f1, None, m1, x);
    assert forall|z: Seq<u64>| #[trigger] node_at(f2, z) is Some implies (node_at(f1, z) is Some && node_at(f1, z)->0.id
        == node_at(f2, z)->0.id && !through(z, wx)) by {
        lemma_node_at_same_head(f1, f2, z);
        if through(z, wx) {
            assert(z[0] == wx[0]);
        }
    }
    assert forall|z: Seq<u64>| !through(z, wx) && #[trigger] node_at(f1, z) is Some implies node_at(f2, z) is Some by {
        if z[0] == x {
            assert(z.take(1) =~= wx);
        }
        lemma_node_at_same_head(f1, f2, z);
    }
    lemma_remove_subtree(f1, f2, m1, m2, wx);
    assert forall|y: u64| #[trigger] m2.contains_key(y) implies node_at(f2, path_to(m2, y, None))->0.element == node_at(
        f1,
        path_to(m1, y, None),
    )->0.element by {
        let py = path_to(m1, y, None);
        lemma_node_at_same_head(f1, f2, py);
        if py[0] == x {
            assert(py.take(1) =~= wx);
        }
    }
    assert(t2.elements() =~= t1.elements().remove_keys(subtree_ids(t1.forest()[x])));
}

/// The leaves of node `q` of a tree, by id.
pub closed spec fn leaves_of<T>(t: Tree<T>, q: u64) -> Map<u64, Node<T>> {
    node_at(t.roots@, path_to(t.branches@, q, None))->0.leaves@
}

/// What removing a leaf from below the node at the end of `path` does to
/// the nodes that paths reach: a path reaches a node afterwards exactly when
/// it reached one before and does not go through the removed leaf; the
/// node keeps its id and its element (the given one at the end of `path`).
proof fn lemma_node_at_removed<T>(
    f1: Map<u64, Node<T>>,
    f2: Map<u64, Node<T>>,
    par: Option<u64>,
    m: Map<u64, Option<u64>>,
    path: Seq<u64>,
    q: u64,
    e: T,
    leaves: HashMap<u64, Node<T>>,
    x: u64,
    y: Seq<u64>,
)
    requires
        forest_ok(f1, par, m),
        replaced_at(f1, f2, path, q, e, leaves),
        node_at(f1, path) matches Some(n) && n.id == q && leaves@ == n.leaves@.remove(x),
    ensures
        !through(y, path.push(x)) && node_at(f1, y) is Some ==> node_at(f2, y) is Some,
        node_at(f2, y) matches Some(ny2) ==> (!through(y, path.push(x)) && (node_at(f1, y) matches Some(ny) && ny2.id
            == ny.id && ny2.element == if y == path {
            e
        } else {
            ny.element
        })),
    decreases path.len(),
{
    let k0 = path[0];
    let n = node_at(f1, path)->0;
    lemma_forest_ok_at(f1, par, m, path);
    if y.len() > 0 && y[0] != k0 {
        lemma_node_at_same_head(f1, f2, y);
        assert(y != path);
        if through(y, path.push(x)) {
            assert(y[0] == path.push(x)[0]);
        }
    }
    if y.len() > 0 && y[0] == k0 {
        if path.len() == 1 {
            assert(n == f1[k0]);
            if y.len() == 1 {
                assert(y =~= path);
            } else {
                let y1 = y.drop_first();
                assert(y != path);
                assert(node_at(f1, y) == node_at(n.leaves@, y1));
                assert(node_at(f2, y) == node_at(leaves@, y1));
                if y1[0] == x {
                    assert(y.take(2) =~= path.push(x));
                } else {
                    lemma_node_at_same_head(leaves@, n.leaves@, y1);
                    if through(y, path.push(x)) {
                        assert(y[1] == path.push(x)[1]);
                    }
                }
            }
        } else {
            let rest = path.drop_first();
            if y.len() == 1 {
                assert(y != path);
            } else {
                let y1 = y.drop_first();
                lemma_node_at_removed(f1[k0].leaves@, f2[k0].leaves@, Some(k0), m, rest, q, e, leaves, x, y1);
                if y1 =~= rest {
                    assert(y =~= path) by {
                        assert forall|i: int| 0 <= i < y.len() implies y[i] == path[i] by {
                            if i > 0 {
                                assert(y[i] == y1[i - 1]);
                            }
                        }
                    }
                } else {
                    assert(y != path) by {
                        if y == path {
                            assert(y1 =~= rest);
                        }
                    }
                }
                assert(through(y, path.push(x)) == through(y1, rest.push(x))) by {
                    if through(y, path.push(x)) {
                        assert(y1.take(rest.len() as int + 1) =~= rest.push(x)) by {
                            assert forall|i: int| 0 <= i < rest.len() + 1 implies y1[i] == rest.push(x)[i] by {
                                assert(y[i + 1] == y.take(path.len() as int + 1)[i + 1]);
                            }
                        }
                    }
                    if through(y1, rest.push(x)) {
                        assert(y.take(path.len() as int + 1) =~= path.push(x)) by {
                            assert forall|i: int| 0 <= i < path.len() + 1 implies y[i] == path.push(x)[i] by {
                                if i > 0 {
                                    assert(y1[i - 1] == y1.take(rest.len() as int + 1)[i - 1]);
                                }
                            }
                        }
                    }
                }
            }
        }
    }
}

/// Removing a leaf: when the leaf `x` of node `q` of a consistent tree is
/// removed with all the nodes below it, their ids leave the branch map, and
/// the element of `q` is then `e`, the tree stays consistent and keeps the
/// elements of the ids that are left, with `e` under `q`: `find` then finds
/// neither `x` nor any id below it, and every id other than `q` as before.
pub proof fn lemma_remove_leaf<T>(t1: Tree<T>, t2: Tree<T>, q: u64, e: T, leaves: HashMap<u64, Node<T>>, x: u64)
    requires
        t1.wf(),
        t1.parents().contains_key(q),
        leaves_of(t1, q).contains_key(x),
        replaced_at(t1.forest(), t2.forest(), path_to(t1.parents(), q, None), q, e, leaves),
        leaves@ == leaves_of(t1, q).remove(x),
        t2.parents() == t1.parents().remove_keys(subtree_ids(leaves_of(t1, q)[x])),
    ensures
        t2.wf(),
        t2.elements() == t1.elements().insert(q, e).remove_keys(subtree_ids(leaves_of(t1, q)[x])),
        subtree_ids(leaves_of(t1, q)[x]).contains(x),
        forall|d: u64| #[trigger] subtree_ids(leaves_of(t1, q)[x]).contains(d) ==> !t2.parents().contains_key(d),
        t2.parents().contains_key(q) && t2.elements()[q] == e,
        forall|y: u64|
            y != q && !subtree_ids(leaves_of(t1, q)[x]).contains(y) && #[trigger] t1.parents().contains_key(y)
                ==> t2.parents().contains_key(y) && t2.parents()[y] == t1.parents()[y] && t2.elements()[y]
                == t1.elements()[y],
{
    let m1 = t1.branches@;
    let m2 = t2.branches@;
    let f1 = t1.roots@;
    let f2 = t2.roots@;
    let d = choose|d: Map<u64, nat>| depths_ok(m1, d);
    let path = path_to(m1, q, None);
    let n = node_at(f1, path)->0;
    let wx = path.push(x);
    lemma_forest_ok_at(f1, None, m1, path);
    lemma_node_at_append(f1, path, seq![x]);
    assert(path + seq![x] =~= wx);
    assert(node_at(f1, wx) == Some(n.leaves@[x]));
    lemma_forest_ok_remove(n.leaves@, Some(q), m1, x);
    lemma_forest_ok_replaced(f1, f2, None, m1, path, q, e, leaves);
    assert forall|z: Seq<u64>| #[trigger] node_at(f2, z) is Some implies (node_at(f1, z) is Some && node_at(f1, z)->0.id
        == node_at(f2, z)->0.id && !through(z, wx)) by {
        lemma_node_at_removed(f1, f2, None, m1, path, q, e, leaves, x, z);
    }
    assert forall|z: Seq<u64>| !through(z, wx) && #[trigger] node_at(f1, z) is Some implies node_at(f2, z) is Some by {
        lemma_node_at_removed(f1, f2, None, m1, path, q, e, leaves, x, z);
    }
    lemma_remove_subtree(f1, f2, m1, m2, wx);
    let s = subtree_ids(n.leaves@[x]);
    assert(!through(path, wx));
    assert(!s.contains(q));
    assert forall|y: u64| #[trigger] m2.contains_key(y) implies node_at(f2, path_to(m2, y, None))->0.element
        == t1.elements().insert(q, e)[y] by {
        let py = path_to(m1, y, None);
        lemma_node_at_removed(f1, f2, None, m1, path, q, e, leaves, x, py);
        if py == path {
            assert(py.last() == y);
        }
        if y == q {
            assert(py == path);
        }
    }
    assert(t2.elements() =~= t1.elements().insert(q, e).remove_keys(s));
}

} // verus!
