//! The graph of a skill tree: nodes keyed by id and an ordered connection
//! list, with the edits the editor performs on them.
use vstd::prelude::*;
use crate::components::{nodes_view, ConnectionData, CurveType, NodeView, SkillNodeData};

verus! {

/// Nodes in storage order and connections in insertion order.
pub struct SkillTreeData {
    pub nodes: Vec<SkillNodeData>,
    pub connections: Vec<ConnectionData>,
}

/// The mathematical value of a [`SkillTreeData`].
pub struct TreeView {
    pub nodes: Seq<NodeView>,
    pub connections: Seq<ConnectionData>,
}

impl View for SkillTreeData {
    type V = TreeView;

    open spec fn view(&self) -> TreeView {
        TreeView { nodes: nodes_view(self.nodes@), connections: self.connections@ }
    }
}

pub open spec fn has_node(nodes: Seq<NodeView>, id: u32) -> bool {
    exists|i: int| 0 <= i < nodes.len() && nodes[i].id == id
}

/// No two nodes share an id.
pub open spec fn ids_unique(nodes: Seq<NodeView>) -> bool {
    forall|i: int, j: int|
        0 <= i < nodes.len() && 0 <= j < nodes.len() && i != j ==> nodes[i].id != nodes[j].id
}

/// Every node id is below `bound`.
pub open spec fn ids_below(nodes: Seq<NodeView>, bound: u32) -> bool {
    forall|i: int| 0 <= i < nodes.len() ==> nodes[i].id < bound
}

/// Both ends of every connection are nodes of the tree.
pub open spec fn connections_live(t: TreeView) -> bool {
    forall|k: int|
        0 <= k < t.connections.len() ==> has_node(t.nodes, t.connections[k].from_id) && has_node(
            t.nodes,
            t.connections[k].to_id,
        )
}

pub open spec fn incident(c: ConnectionData, id: u32) -> bool {
    c.from_id == id || c.to_id == id
}

/// A connection may be created between two distinct nodes of the tree.
pub open spec fn connection_allowed(t: TreeView, from_id: u32, to_id: u32) -> bool {
    from_id != to_id && has_node(t.nodes, from_id) && has_node(t.nodes, to_id)
}

pub open spec fn after_insert_node(t: TreeView, n: NodeView) -> TreeView {
    if has_node(t.nodes, n.id) {
        t
    } else {
        TreeView { nodes: t.nodes.push(n), connections: t.connections }
    }
}

pub open spec fn after_add_connection(t: TreeView, c: ConnectionData) -> TreeView {
    if connection_allowed(t, c.from_id, c.to_id) {
        TreeView { nodes: t.nodes, connections: t.connections.push(c) }
    } else {
        t
    }
}

/// Holds of the nodes that survive deleting `id`.
pub open spec fn other_node(id: u32) -> spec_fn(NodeView) -> bool {
    |n: NodeView| n.id != id
}

/// Holds of the connections that survive deleting node `id`.
pub open spec fn not_incident(id: u32) -> spec_fn(ConnectionData) -> bool {
    |c: ConnectionData| !incident(c, id)
}

/// The node goes, and with it exactly the connections that touch it.
pub open spec fn after_delete_node(t: TreeView, id: u32) -> TreeView {
    TreeView { nodes: t.nodes.filter(other_node(id)), connections: t.connections.filter(not_incident(id)) }
}

pub open spec fn after_delete_connection(t: TreeView, index: int) -> TreeView {
    if 0 <= index < t.connections.len() {
        TreeView { nodes: t.nodes, connections: t.connections.remove(index) }
    } else {
        t
    }
}

/// Replaces a node that has the id of `n` by `n`.
pub open spec fn replaced_by(n: NodeView) -> spec_fn(NodeView) -> NodeView {
    |m: NodeView| if m.id == n.id { n } else { m }
}

/// The node with `n.id`, if any, takes the attributes of `n`.
pub open spec fn after_update_node(t: TreeView, n: NodeView) -> TreeView {
    TreeView { nodes: t.nodes.map_values(replaced_by(n)), connections: t.connections }
}

pub open spec fn after_set_curve(t: TreeView, index: int, curve: CurveType) -> TreeView {
    if 0 <= index < t.connections.len() {
        let c = t.connections[index];
        TreeView {
            nodes: t.nodes,
            connections: t.connections.update(
                index,
                ConnectionData { from_id: c.from_id, to_id: c.to_id, curve_type: curve },
            ),
        }
    } else {
        t
    }
}

/// One edit of the graph.
pub enum GraphEdit {
    CreateNode(NodeView),
    CreateConnection(ConnectionData),
    DeleteNode(u32),
    DeleteConnection(int),
    UpdateNode(NodeView),
    SetCurve(int, CurveType),
}

pub open spec fn apply_edit(t: TreeView, e: GraphEdit) -> TreeView {
    match e {
        GraphEdit::CreateNode(n) => after_insert_node(t, n),
        GraphEdit::CreateConnection(c) => after_add_connection(t, c),
        GraphEdit::DeleteNode(id) => after_delete_node(t, id),
        GraphEdit::DeleteConnection(i) => after_delete_connection(t, i),
        GraphEdit::UpdateNode(n) => after_update_node(t, n),
        GraphEdit::SetCurve(i, curve) => after_set_curve(t, i, curve),
    }
}

pub open spec fn apply_edits(t: TreeView, edits: Seq<GraphEdit>) -> TreeView
    decreases edits.len(),
{
    if edits.len() == 0 {
        t
    } else {
        apply_edits(apply_edit(t, edits[0]), edits.drop_first())
    }
}

/// One edit of a tree whose connections all join existing nodes leaves
/// every connection joining existing nodes.
pub proof fn lemma_edit_keeps_connections_live(t: TreeView, e: GraphEdit)
    requires
        connections_live(t),
    ensures
        connections_live(apply_edit(t, e)),
{
    match e {
        GraphEdit::CreateNode(n) => {
            let r = after_insert_node(t, n);
            assert forall|k: int| 0 <= k < r.connections.len() implies has_node(
                r.nodes,
                r.connections[k].from_id,
            ) && has_node(r.nodes, r.connections[k].to_id) by {
                if !has_node(t.nodes, n.id) {
                    let i = choose|i: int| 0 <= i < t.nodes.len() && t.nodes[i].id == t.connections[k].from_id;
                    let j = choose|j: int| 0 <= j < t.nodes.len() && t.nodes[j].id == t.connections[k].to_id;
                    assert(r.nodes[i] == t.nodes[i]);
                    assert(r.nodes[j] == t.nodes[j]);
                }
            }
        },
        GraphEdit::CreateConnection(c) => {
            let r = after_add_connection(t, c);
            assert forall|k: int| 0 <= k < r.connections.len() implies has_node(
                r.nodes,
                r.connections[k].from_id,
            ) && has_node(r.nodes, r.connections[k].to_id) by {
                if connection_allowed(t, c.from_id, c.to_id) && k < t.connections.len() {
                    assert(r.connections[k] == t.connections[k]);
                }
            }
        },
        GraphEdit::DeleteNode(id) => {
            lemma_delete_node_keeps_connections_live(t, id);
        },
        GraphEdit::DeleteConnection(i) => {
            let r = after_delete_connection(t, i);
            assert forall|k: int| 0 <= k < r.connections.len() implies has_node(
                r.nodes,
                r.connections[k].from_id,
            ) && has_node(r.nodes, r.connections[k].to_id) by {
                if 0 <= i < t.connections.len() {
                    if k < i {
                        assert(r.connections[k] == t.connections[k]);
                    } else {
                        assert(r.connections[k] == t.connections[k + 1]);
                    }
                }
            }
        },
        GraphEdit::UpdateNode(n) => {
            let r = after_update_node(t, n);
            assert forall|k: int| 0 <= k < r.connections.len() implies has_node(
                r.nodes,
                r.connections[k].from_id,
            ) && has_node(r.nodes, r.connections[k].to_id) by {
                let i = choose|i: int| 0 <= i < t.nodes.len() && t.nodes[i].id == t.connections[k].from_id;
                let j = choose|j: int| 0 <= j < t.nodes.len() && t.nodes[j].id == t.connections[k].to_id;
                assert(r.nodes[i].id == t.nodes[i].id);
                assert(r.nodes[j].id == t.nodes[j].id);
            }
        },
        GraphEdit::SetCurve(i, curve) => {
            let r = after_set_curve(t, i, curve);
            assert forall|k: int| 0 <= k < r.connections.len() implies has_node(
                r.nodes,
                r.connections[k].from_id,
            ) && has_node(r.nodes, r.connections[k].to_id) by {
                if 0 <= i < t.connections.len() {
                    assert(r.connections[k].from_id == t.connections[k].from_id);
                    assert(r.connections[k].to_id == t.connections[k].to_id);
                }
            }
        },
    }
}

proof fn lemma_delete_node_keeps_connections_live(t: TreeView, id: u32)
    requires
        connections_live(t),
    ensures
        connections_live(after_delete_node(t, id)),
{
    let r = after_delete_node(t, id);
    let pn = other_node(id);
    let pc = not_incident(id);
    assert forall|k: int| 0 <= k < r.connections.len() implies has_node(
        r.nodes,
        r.connections[k].from_id,
    ) && has_node(r.nodes, r.connections[k].to_id) by {
        let c = r.connections[k];
        assert(r.connections.contains(c));
        t.connections.lemma_filter_contains_rev(pc, c);
        t.connections.lemma_filter_pred(pc, k);
        let m = choose|m: int| 0 <= m < t.connections.len() && t.connections[m] == c;
        let i = choose|i: int| 0 <= i < t.nodes.len() && t.nodes[i].id == c.from_id;
        let j = choose|j: int| 0 <= j < t.nodes.len() && t.nodes[j].id == c.to_id;
        t.nodes.lemma_filter_contains(pn, i);
        t.nodes.lemma_filter_contains(pn, j);
        let a = choose|a: int| 0 <= a < r.nodes.len() && r.nodes[a] == t.nodes[i];
        let b = choose|b: int| 0 <= b < r.nodes.len() && r.nodes[b] == t.nodes[j];
        assert(r.nodes[a].id == c.from_id);
        assert(r.nodes[b].id == c.to_id);
    }
}

/// Deleting a node removes exactly the connections incident to it: every
/// connection left was there before and does not touch the node, every
/// connection that did not touch it is still there, and no node with that
/// id remains.
pub proof fn lemma_delete_node_removes_exactly_incident(t: TreeView, id: u32)
    ensures
        forall|k: int|
            0 <= k < after_delete_node(t, id).connections.len() ==> !incident(
                #[trigger] after_delete_node(t, id).connections[k],
                id,
            ) && t.connections.contains(after_delete_node(t, id).connections[k]),
        forall|k: int|
            0 <= k < t.connections.len() && !incident(t.connections[k], id)
                ==> after_delete_node(t, id).connections.contains(#[trigger] t.connections[k]),
        !has_node(after_delete_node(t, id).nodes, id),
{
    let r = after_delete_node(t, id);
    assert forall|k: int| 0 <= k < r.connections.len() implies !incident(
        #[trigger] r.connections[k],
        id,
    ) && t.connections.contains(r.connections[k]) by {
        t.connections.lemma_filter_pred(not_incident(id), k);
        assert(r.connections.contains(r.connections[k]));
        t.connections.lemma_filter_contains_rev(not_incident(id), r.connections[k]);
    }
    assert forall|k: int|
        0 <= k < t.connections.len() && !incident(t.connections[k], id) implies r.connections.contains(
        #[trigger] t.connections[k],
    ) by {
        t.connections.lemma_filter_contains(not_incident(id), k);
    }
    if has_node(r.nodes, id) {
        let i = choose|i: int| 0 <= i < r.nodes.len() && r.nodes[i].id == id;
        t.nodes.lemma_filter_pred(other_node(id), i);
    }
}

/// Whatever sequence of node and connection creations, updates and
/// deletions is applied to a tree whose connections all join existing
/// nodes, every connection of the result still joins existing nodes.
pub proof fn lemma_edits_keep_connections_live(t: TreeView, edits: Seq<GraphEdit>)
    requires
        connections_live(t),
    ensures
        connections_live(apply_edits(t, edits)),
    decreases edits.len(),
{
    if edits.len() > 0 {
        lemma_edit_keeps_connections_live(t, edits[0]);
        lemma_edits_keep_connections_live(apply_edit(t, edits[0]), edits.drop_first());
    }
}

/// One more element of a scanned prefix, as `filter` sees it.
proof fn lemma_filter_step<A>(s: Seq<A>, p: spec_fn(A) -> bool, i: int)
    requires
        0 <= i < s.len(),
    ensures
        s.subrange(0, i + 1).filter(p) == if p(s[i]) {
            s.subrange(0, i).filter(p).push(s[i])
        } else {
            s.subrange(0, i).filter(p)
        },
{
    reveal(Seq::filter);
    assert(s.subrange(0, i + 1).drop_last() =~= s.subrange(0, i));
}

impl SkillTreeData {
    /// An empty tree.
    pub fn new() -> (r: SkillTreeData)
        ensures
            r@.nodes.len() == 0,
            r@.connections.len() == 0,
    {
        SkillTreeData { nodes: Vec::new(), connections: Vec::new() }
    }

    /// The storage position of the node with `id`, if there is one.
    pub fn node_index(&self, id: u32) -> (r: Option<usize>)
        ensures
            match r {
                Some(i) => i < self@.nodes.len() && self@.nodes[i as int].id == id,
                None => !has_node(self@.nodes, id),
            },
    {
        let mut i: usize = 0;
        while i < self.nodes.len()
            invariant
                i <= self@.nodes.len(),
                self@.nodes.len() == self.nodes@.len(),
                forall|k: int| 0 <= k < i ==> self@.nodes[k].id != id,
            decreases self.nodes@.len() - i,
        {
            if self.nodes[i].id == id {
                return Some(i);
            }
            i = i + 1;
        }
        None
    }

    /// Whether a node with `id` exists.
    pub fn contains_node(&self, id: u32) -> (r: bool)
        ensures
            r == has_node(self@.nodes, id),
    {
        match self.node_index(id) {
            Some(_) => true,
            None => false,
        }
    }

    /// Adds a node whose id is not taken yet.
    pub fn insert_node(&mut self, node: SkillNodeData)
        requires
            !has_node(old(self)@.nodes, node.id),
        ensures
            final(self)@ == after_insert_node(old(self)@, node@),
            final(self)@.nodes == old(self)@.nodes.push(node@),
    {
        self.nodes.push(node);
        assert(nodes_view(self.nodes@) =~= nodes_view(old(self).nodes@).push(node@));
    }

    /// Appends the connection `from_id -> to_id` when both nodes exist and
    /// differ; otherwise leaves the tree as it is. Tells whether it was added.
    pub fn add_connection(&mut self, from_id: u32, to_id: u32, curve_type: CurveType) -> (r: bool)
        ensures
            r == connection_allowed(old(self)@, from_id, to_id),
            final(self)@ == after_add_connection(
                old(self)@,
                ConnectionData { from_id, to_id, curve_type },
            ),
    {
        if from_id == to_id || !self.contains_node(from_id) || !self.contains_node(to_id) {
            return false;
        }
        self.connections.push(ConnectionData { from_id, to_id, curve_type });
        true
    }

    /// Removes the node with `id` and every connection that starts or ends
    /// at it, keeping the order of the rest. Tells whether the node existed.
    pub fn delete_node(&mut self, id: u32) -> (r: bool)
        ensures
            r == has_node(old(self)@.nodes, id),
            final(self)@ == after_delete_node(old(self)@, id),
    {
        let ghost old_nodes = self@.nodes;
        let ghost old_conns = self@.connections;
        let found = self.contains_node(id);
        let mut kept: Vec<SkillNodeData> = Vec::new();
        let mut i: usize = 0;
        while i < self.nodes.len()
            invariant
                i <= self.nodes@.len(),
                old_nodes == nodes_view(self.nodes@),
                nodes_view(kept@) == old_nodes.subrange(0, i as int).filter(other_node(id)),
            decreases self.nodes@.len() - i,
        {
            proof {
                lemma_filter_step(old_nodes, other_node(id), i as int);
            }
            let ghost before = nodes_view(kept@);
            assert(other_node(id)(old_nodes[i as int]) == (self.nodes@[i as int].id != id));
            if self.nodes[i].id != id {
                kept.push(self.nodes[i].copied());
                assert(nodes_view(kept@) =~= before.push(old_nodes[i as int]));
            }
            assert(nodes_view(kept@) == old_nodes.subrange(0, i + 1).filter(other_node(id)));
            i = i + 1;
        }
        assert(old_nodes.subrange(0, i as int) =~= old_nodes);
        let mut conns: Vec<ConnectionData> = Vec::new();
        let mut j: usize = 0;
        while j < self.connections.len()
            invariant
                j <= self.connections@.len(),
                old_conns == self.connections@,
                conns@ == old_conns.subrange(0, j as int).filter(not_incident(id)),
            decreases self.connections@.len() - j,
        {
            proof {
                lemma_filter_step(old_conns, not_incident(id), j as int);
            }
            let c = self.connections[j];
            assert(not_incident(id)(old_conns[j as int]) == (c.from_id != id && c.to_id != id));
            if c.from_id != id && c.to_id != id {
                conns.push(c);
            }
            assert(conns@ == old_conns.subrange(0, j + 1).filter(not_incident(id)));
            j = j + 1;
        }
        assert(old_conns.subrange(0, j as int) =~= old_conns);
        self.nodes = kept;
        self.connections = conns;
        found
    }

    /// Removes the connection at `index` when there is one, keeping the
    /// order of the rest. Tells whether one was removed.
    pub fn delete_connection(&mut self, index: usize) -> (r: bool)
        ensures
            r == (index < old(self)@.connections.len()),
            final(self)@ == after_delete_connection(old(self)@, index as int),
    {
        if index >= self.connections.len() {
            return false;
        }
        self.connections.remove(index);
        true
    }

    /// Gives the connection at `index`, when there is one, a new shape.
    pub fn set_curve_type(&mut self, index: usize, curve_type: CurveType) -> (r: bool)
        ensures
            r == (index < old(self)@.connections.len()),
            final(self)@ == after_set_curve(old(self)@, index as int, curve_type),
    {
        if index >= self.connections.len() {
            return false;
        }
        let c = self.connections[index];
        self.connections.set(index, ConnectionData { from_id: c.from_id, to_id: c.to_id, curve_type });
        true
    }

    /// Replaces the attributes of the node whose id is `node.id`. Tells
    /// whether such a node exists.
    pub fn update_node(&mut self, node: SkillNodeData) -> (r: bool)
        requires
            ids_unique(old(self)@.nodes),
        ensures
            r == has_node(old(self)@.nodes, node.id),
            final(self)@ == after_update_node(old(self)@, node@),
    {
        let ghost target = node@;
        match self.node_index(node.id) {
            None => {
                assert(self@.nodes =~= self@.nodes.map_values(replaced_by(target)));
                false
            },
            Some(i) => {
                self.nodes.set(i, node);
                assert(self@.nodes =~= old(self)@.nodes.map_values(replaced_by(target)));
                true
            },
        }
    }
}

} // verus!
