//! The editor: a skill tree together with its selection, the two-click
//! connect mode and the file workflow (unsaved changes, save-as with
//! overwrite confirmation, and an action deferred until a save completes).
//!
//! Everything that needs the outside world is asked for through an
//! [`Effect`] that the caller performs and reports back.
use vstd::prelude::*;
use crate::components::{
    copy_connections, copy_nodes, nodes_view, ConnectionData, CurveType, NodeType, NodeView,
    Position, SkillNodeData, SkillTreeSaveData, StatView,
};
use crate::decimal::{decimal, push_decimal};
use crate::graph::{
    after_delete_connection, after_delete_node, after_insert_node, after_set_curve,
    after_update_node, connections_live, has_node, ids_below, ids_unique,
    lemma_edit_keeps_connections_live, not_incident, GraphEdit, SkillTreeData, TreeView,
};
use crate::paths::{save_path_for, suggested_file_name, suggested_name, with_ron_extension};

verus! {

/// An action (New or Load) that waits for a save to finish first.
#[derive(Clone, Copy, Debug, PartialEq, Eq, Structural)]
pub enum NextActionAfterSaveAs {
    NoAction,
    ShowLoadDialog,
    CreateNewFile,
}

/// The node that is selected, if any.
#[derive(Clone, Copy, Debug, PartialEq, Eq, Structural)]
pub struct SelectedNode {
    pub id: Option<u32>,
}

/// The position of the selected connection, if any.
#[derive(Clone, Copy, Debug, PartialEq, Eq, Structural)]
pub struct SelectedConnection {
    pub index: Option<usize>,
}

/// The two-click connect mode: idle, or waiting for the second node.
#[derive(Clone, Copy, Debug, PartialEq, Eq, Structural)]
pub struct ConnectionMode {
    pub active: bool,
    pub start_node: Option<u32>,
}

/// What the caller must do for the editor.
#[derive(Clone, Debug, PartialEq, Eq)]
pub enum Effect {
    /// Nothing to do.
    Nothing,
    /// Write [`Editor::save_data`] to this path, then call
    /// [`Editor::write_finished`].
    WriteFile(String),
    /// List the `.ron` files that can be loaded, sorted by name, then call
    /// [`Editor::open_load_dialog`].
    ListFiles,
}

/// Why a loaded tree was refused.
#[derive(Clone, Copy, Debug, PartialEq, Eq, Structural)]
pub enum LoadError {
    /// Two nodes carry this id.
    DuplicateNodeId(u32),
    /// A node carries the largest id, so no id is left for the next node.
    IdSpaceExhausted,
}

/// The document and dialog state of the editor.
pub struct EditorState {
    pub current_file_path: Option<String>,
    pub show_save_as_dialog: bool,
    pub show_load_dialog: bool,
    pub save_as_file_name_buffer: String,
    pub available_ron_files: Vec<String>,
    pub next_node_id: u32,
    pub save_as_conflict_path: Option<String>,
    pub save_as_show_overwrite_prompt: bool,
    pub dirty: bool,
    pub show_unsaved_changes_on_load_dialog: bool,
    pub show_unsaved_changes_on_new_dialog: bool,
    pub next_action_after_save_as: NextActionAfterSaveAs,
    pub trigger_pending_action: NextActionAfterSaveAs,
}

impl EditorState {
    /// The state at startup: no file, nothing dirty, no dialog open.
    pub fn new() -> (r: EditorState)
        ensures
            r.current_file_path.is_none(),
            !r.show_save_as_dialog,
            !r.show_load_dialog,
            r.save_as_file_name_buffer@.len() == 0,
            r.available_ron_files@.len() == 0,
            r.next_node_id == 0,
            r.save_as_conflict_path.is_none(),
            !r.save_as_show_overwrite_prompt,
            !r.dirty,
            !r.show_unsaved_changes_on_load_dialog,
            !r.show_unsaved_changes_on_new_dialog,
            r.next_action_after_save_as == NextActionAfterSaveAs::NoAction,
            r.trigger_pending_action == NextActionAfterSaveAs::NoAction,
    {
        EditorState {
            current_file_path: None,
            show_save_as_dialog: false,
            show_load_dialog: false,
            save_as_file_name_buffer: String::new(),
            available_ron_files: Vec::new(),
            next_node_id: 0,
            save_as_conflict_path: None,
            save_as_show_overwrite_prompt: false,
            dirty: false,
            show_unsaved_changes_on_load_dialog: false,
            show_unsaved_changes_on_new_dialog: false,
            next_action_after_save_as: NextActionAfterSaveAs::NoAction,
            trigger_pending_action: NextActionAfterSaveAs::NoAction,
        }
    }
}

/// The attributes of a node created by a click at `position`.
pub open spec fn fresh_node(id: u32, position: Position) -> NodeView {
    NodeView {
        id,
        name: "Node "@ + decimal(id as nat),
        description: "Node description"@,
        image_name: "default_node.png"@,
        position,
        node_type: NodeType::Normal,
        stats: Seq::<StatView>::empty(),
    }
}

/// The first index below `n` whose flag is set.
pub open spec fn first_hit(hits: Seq<bool>, n: int) -> Option<int> {
    if exists|i: int| 0 <= i < n && i < hits.len() && hits[i] {
        Some(choose|i: int| 0 <= i < n && i < hits.len() && hits[i] && forall|j: int| 0 <= j < i ==> !hits[j])
    } else {
        None
    }
}

/// Where a selected connection ends up when the connection at `removed`
/// goes: cleared if it was that one, one place earlier if it came after.
pub open spec fn rebased_selection(sel: Option<usize>, removed: int) -> Option<usize> {
    match sel {
        Some(s) => if s as int == removed {
            None
        } else if s as int > removed {
            Some((s - 1) as usize)
        } else {
            Some(s)
        },
        None => None,
    }
}

/// A skill tree with everything the editor keeps about it.
pub struct Editor {
    pub state: EditorState,
    pub tree: SkillTreeData,
    pub selected_node: SelectedNode,
    pub selected_connection: SelectedConnection,
    pub connection_mode: ConnectionMode,
}

impl Editor {
    /// Ids are unique and below the id that the next node gets; at most one
    /// of a node and a connection is selected, and what is selected exists.
    pub open spec fn wf(&self) -> bool {
        &&& ids_unique(self.tree@.nodes)
        &&& ids_below(self.tree@.nodes, self.state.next_node_id)
        &&& match self.selected_node.id {
            Some(id) => has_node(self.tree@.nodes, id) && self.selected_connection.index.is_none(),
            None => true,
        }
        &&& match self.selected_connection.index {
            Some(i) => i < self.tree@.connections.len(),
            None => true,
        }
    }

    /// An empty editor, as at startup.
    pub fn new() -> (r: Editor)
        ensures
            r.wf(),
            r.tree@.nodes.len() == 0,
            r.tree@.connections.len() == 0,
            r.state.next_node_id == 0,
            !r.state.dirty,
            r.state.current_file_path.is_none(),
            r.selected_node.id.is_none(),
            r.selected_connection.index.is_none(),
            !r.connection_mode.active,
            r.connection_mode.start_node.is_none(),
    {
        Editor {
            state: EditorState::new(),
            tree: SkillTreeData::new(),
            selected_node: SelectedNode { id: None },
            selected_connection: SelectedConnection { index: None },
            connection_mode: ConnectionMode { active: false, start_node: None },
        }
    }

    /// Creates a node at `position` with the next id and default
    /// attributes, and returns its id.
    pub fn create_node(&mut self, position: Position) -> (r: u32)
        requires
            old(self).wf(),
            old(self).state.next_node_id < u32::MAX,
        ensures
            final(self).wf(),
            r == old(self).state.next_node_id,
            final(self).tree@ == after_insert_node(old(self).tree@, fresh_node(r, position)),
            final(self).tree@.nodes == old(self).tree@.nodes.push(fresh_node(r, position)),
            final(self).state.next_node_id == r + 1,
            final(self).state.dirty,
            final(self).selected_node == old(self).selected_node,
            final(self).selected_connection == old(self).selected_connection,
            final(self).connection_mode == old(self).connection_mode,
            connections_live(old(self).tree@) ==> connections_live(final(self).tree@),
            final(self).state == (EditorState {
                next_node_id: final(self).state.next_node_id,
                dirty: final(self).state.dirty,
                ..old(self).state
            }),
    {
        proof {
            reveal_strlit("Node ");
            reveal_strlit("Node description");
            reveal_strlit("default_node.png");
        }
        let id = self.state.next_node_id;
        let mut name = String::from_str("Node ");
        push_decimal(&mut name, id);
        let node = SkillNodeData {
            id,
            name,
            description: String::from_str("Node description"),
            image_name: String::from_str("default_node.png"),
            position,
            node_type: NodeType::Normal,
            stats: Vec::new(),
        };
        assert(node@.stats =~= Seq::<StatView>::empty());
        assert(node@ == fresh_node(id, position));
        assert(!has_node(self.tree@.nodes, id));
        let ghost old_nodes = self.tree@.nodes;
        self.tree.insert_node(node);
        self.state.next_node_id = id + 1;
        self.state.dirty = true;
        assert forall|i: int, j: int|
            0 <= i < self.tree@.nodes.len() && 0 <= j < self.tree@.nodes.len() && i != j implies self.tree@.nodes[i].id
            != self.tree@.nodes[j].id by {
            if i < old_nodes.len() {
                assert(self.tree@.nodes[i] == old_nodes[i]);
            }
            if j < old_nodes.len() {
                assert(self.tree@.nodes[j] == old_nodes[j]);
            }
        }
        if let Some(s) = self.selected_node.id {
            let ghost k = choose|k: int| 0 <= k < old_nodes.len() && old_nodes[k].id == s;
            assert(self.tree@.nodes[k] == old_nodes[k]);
        }
        proof {
            if connections_live(old(self).tree@) {
                lemma_edit_keeps_connections_live(old(self).tree@, GraphEdit::CreateNode(fresh_node(id, position)));
            }
        }
        id
    }

    /// A right click. `hit` is the first node within reach of the pointer.
    /// On a node: starts connect mode there, or, when it is already waiting
    /// on another node, connects that node to this one; on the same node it
    /// only ends connect mode. On empty space: ends connect mode when it is
    /// on, else creates a node at `position`.
    pub fn right_click(&mut self, hit: Option<u32>, position: Position)
        requires
            old(self).wf(),
            hit.is_none() && !old(self).connection_mode.active ==> old(self).state.next_node_id
                < u32::MAX,
        ensures
            final(self).wf(),
            final(self).selected_node == old(self).selected_node,
            final(self).selected_connection == old(self).selected_connection,
            match hit {
                Some(id) => if old(self).connection_mode.active
                    && old(self).connection_mode.start_node.is_some() {
                    let start = old(self).connection_mode.start_node.unwrap();
                    &&& final(self).connection_mode == (ConnectionMode { active: false, start_node: None })
                    &&& final(self).state.next_node_id == old(self).state.next_node_id
                    &&& if start != id && has_node(old(self).tree@.nodes, start) && has_node(
                        old(self).tree@.nodes,
                        id,
                    ) {
                        &&& final(self).tree@.nodes == old(self).tree@.nodes
                        &&& final(self).tree@.connections == old(self).tree@.connections.push(
                            ConnectionData { from_id: start, to_id: id, curve_type: CurveType::Straight },
                        )
                        &&& final(self).state.dirty
                    } else {
                        &&& final(self).tree@ == old(self).tree@
                        &&& final(self).state.dirty == old(self).state.dirty
                    }
                } else {
                    &&& final(self).connection_mode == (ConnectionMode { active: true, start_node: Some(id) })
                    &&& final(self).tree@ == old(self).tree@
                    &&& final(self).state.dirty == old(self).state.dirty
                    &&& final(self).state.next_node_id == old(self).state.next_node_id
                },
                None => if old(self).connection_mode.active {
                    &&& final(self).connection_mode == (ConnectionMode { active: false, start_node: None })
                    &&& final(self).tree@ == old(self).tree@
                    &&& final(self).state.dirty == old(self).state.dirty
                    &&& final(self).state.next_node_id == old(self).state.next_node_id
                } else {
                    &&& final(self).connection_mode == old(self).connection_mode
                    &&& final(self).tree@.nodes == old(self).tree@.nodes.push(
                        fresh_node(old(self).state.next_node_id, position),
                    )
                    &&& final(self).tree@.connections == old(self).tree@.connections
                    &&& final(self).state.next_node_id == old(self).state.next_node_id + 1
                    &&& final(self).state.dirty
                },
            },
            connections_live(old(self).tree@) ==> connections_live(final(self).tree@),
            final(self).state == (EditorState {
                next_node_id: final(self).state.next_node_id,
                dirty: final(self).state.dirty,
                ..old(self).state
            }),
    {
        match hit {
            Some(id) => {
                if self.connection_mode.active && self.connection_mode.start_node.is_some() {
                    let start = self.connection_mode.start_node.unwrap();
                    let ghost old_tree = self.tree@;
                    let added = self.tree.add_connection(start, id, CurveType::Straight);
                    proof {
                        if connections_live(old_tree) {
                            lemma_edit_keeps_connections_live(
                                old_tree,
                                GraphEdit::CreateConnection(
                                    ConnectionData { from_id: start, to_id: id, curve_type: CurveType::Straight },
                                ),
                            );
                        }
                    }
                    if added {
                        self.state.dirty = true;
                    }
                    self.connection_mode = ConnectionMode { active: false, start_node: None };
                } else {
                    self.connection_mode = ConnectionMode { active: true, start_node: Some(id) };
                }
            },
            None => {
                if self.connection_mode.active {
                    self.connection_mode = ConnectionMode { active: false, start_node: None };
                } else {
                    self.create_node(position);
                }
            },
        }
    }

    /// A left click. `node_hit` is the closest node within reach of the
    /// pointer; `connection_hits` tells, for each connection in order,
    /// whether the pointer is on it. A node wins over connections; among
    /// connections the first one hit wins; a click on nothing clears the
    /// selection.
    pub fn left_click(&mut self, node_hit: Option<u32>, connection_hits: &Vec<bool>)
        requires
            old(self).wf(),
        ensures
            final(self).wf(),
            final(self).tree == old(self).tree,
            final(self).connection_mode == old(self).connection_mode,
            final(self).state.dirty == old(self).state.dirty,
            final(self).state.next_node_id == old(self).state.next_node_id,
            if node_hit.is_some() && has_node(old(self).tree@.nodes, node_hit.unwrap()) {
                &&& final(self).selected_node.id == node_hit
                &&& final(self).selected_connection.index.is_none()
            } else {
                    &&& final(self).selected_node.id.is_none()
                    &&& final(self).selected_connection.index == match first_hit(
                        connection_hits@,
                        old(self).tree@.connections.len() as int,
                    ) {
                        Some(i) => Some(i as usize),
                        None => None,
                    }
            },
            connections_live(old(self).tree@) ==> connections_live(final(self).tree@),
            final(self).state == old(self).state,
    {
        if let Some(id) = node_hit {
            if self.tree.contains_node(id) {
                self.selected_node = SelectedNode { id: Some(id) };
                self.selected_connection = SelectedConnection { index: None };
                return;
            }
        }
        self.selected_node = SelectedNode { id: None };
        let n = self.tree.connections.len();
        let mut i: usize = 0;
        while i < n && i < connection_hits.len()
            invariant
                n == self.tree@.connections.len(),
                i <= n,
                self.tree == old(self).tree,
                self.state == old(self).state,
                self.connection_mode == old(self).connection_mode,
                self.selected_node.id.is_none(),
                !(node_hit.is_some() && has_node(self.tree@.nodes, node_hit.unwrap())),
                self.selected_connection == old(self).selected_connection,
                ids_unique(self.tree@.nodes),
                ids_below(self.tree@.nodes, self.state.next_node_id),
                forall|j: int| 0 <= j < i && j < connection_hits@.len() ==> !connection_hits@[j],
            decreases n - i,
        {
            if connection_hits[i] {
                self.selected_connection = SelectedConnection { index: Some(i) };
                proof {
                    let hits = connection_hits@;
                    assert(0 <= i < n && i < hits.len() && hits[i as int] && forall|j: int|
                        0 <= j < i ==> !hits[j]);
                    let w = choose|k: int|
                        0 <= k < n && k < hits.len() && hits[k] && forall|j: int| 0 <= j < k ==> !hits[j];
                    assert(w == i as int) by {
                        if w < i {
                            assert(!hits[w]);
                        } else if w > i {
                            assert(!hits[i as int]);
                        }
                    }
                    assert(first_hit(hits, n as int) == Some(i as int));
                }
                return;
            }
            i = i + 1;
        }
        self.selected_connection = SelectedConnection { index: None };
    }

    /// Selects the connection at `index` (from the connection list) when it
    /// exists, clearing the node selection.
    pub fn select_connection(&mut self, index: usize)
        requires
            old(self).wf(),
        ensures
            final(self).wf(),
            final(self).tree == old(self).tree,
            final(self).state.dirty == old(self).state.dirty,
            final(self).state.next_node_id == old(self).state.next_node_id,
            final(self).connection_mode == old(self).connection_mode,
            index < old(self).tree@.connections.len() ==> final(self).selected_connection.index
                == Some(index) && final(self).selected_node.id.is_none(),
            index >= old(self).tree@.connections.len() ==> final(self).selected_connection
                == old(self).selected_connection && final(self).selected_node
                == old(self).selected_node,
            final(self).state == old(self).state,
    {
        if index < self.tree.connections.len() {
            self.selected_connection = SelectedConnection { index: Some(index) };
            self.selected_node = SelectedNode { id: None };
        }
    }

    /// Deletes the node with `id` and every connection that touches it.
    /// A selection of that node is cleared, and so is a connection
    /// selection when any connection went. Tells whether the node existed.
    pub fn delete_node(&mut self, id: u32) -> (r: bool)
        requires
            old(self).wf(),
        ensures
            final(self).wf(),
            r == has_node(old(self).tree@.nodes, id),
            final(self).tree@ == after_delete_node(old(self).tree@, id),
            final(self).state.dirty == (old(self).state.dirty || r),
            final(self).state.next_node_id == old(self).state.next_node_id,
            final(self).connection_mode == old(self).connection_mode,
            final(self).selected_node.id == if old(self).selected_node.id == Some(id) {
                None
            } else {
                old(self).selected_node.id
            },
            final(self).selected_connection.index == if final(self).tree@.connections.len()
                == old(self).tree@.connections.len() {
                old(self).selected_connection.index
            } else {
                None
            },
            connections_live(old(self).tree@) ==> connections_live(final(self).tree@),
            final(self).state == (EditorState { dirty: final(self).state.dirty, ..old(self).state }),
    {
        let ghost old_tree = self.tree@;
        let before = self.tree.connections.len();
        let r = self.tree.delete_node(id);
        proof {
            lemma_delete_keeps_ids(old_tree, id, self.state.next_node_id);
            old_tree.connections.lemma_filter_len(not_incident(id));
        }
        proof {
            if connections_live(old_tree) {
                lemma_edit_keeps_connections_live(old_tree, GraphEdit::DeleteNode(id));
            }
        }
        if self.selected_node.id == Some(id) {
            self.selected_node = SelectedNode { id: None };
        }
        if self.tree.connections.len() != before {
            self.selected_connection = SelectedConnection { index: None };
        }
        if r {
            self.state.dirty = true;
        }
        proof {
            if let Some(s) = self.selected_node.id {
                let i = choose|i: int| 0 <= i < old_tree.nodes.len() && old_tree.nodes[i].id == s;
                old_tree.nodes.lemma_filter_contains(crate::graph::other_node(id), i);
                let j = choose|j: int|
                    0 <= j < self.tree@.nodes.len() && self.tree@.nodes[j] == old_tree.nodes[i];
            }
        }
        r
    }

    /// Deletes the connection at `index` when it exists, moving the
    /// connection selection along as [`rebased_selection`] says. Tells
    /// whether one was deleted.
    pub fn delete_connection(&mut self, index: usize) -> (r: bool)
        requires
            old(self).wf(),
        ensures
            final(self).wf(),
            r == (index < old(self).tree@.connections.len()),
            final(self).tree@ == after_delete_connection(old(self).tree@, index as int),
            final(self).state.dirty == (old(self).state.dirty || r),
            final(self).state.next_node_id == old(self).state.next_node_id,
            final(self).connection_mode == old(self).connection_mode,
            final(self).selected_node == old(self).selected_node,
            final(self).selected_connection.index == if r {
                rebased_selection(old(self).selected_connection.index, index as int)
            } else {
                old(self).selected_connection.index
            },
            connections_live(old(self).tree@) ==> connections_live(final(self).tree@),
            final(self).state == (EditorState { dirty: final(self).state.dirty, ..old(self).state }),
    {
        let r = self.tree.delete_connection(index);
        proof {
            if connections_live(old(self).tree@) {
                lemma_edit_keeps_connections_live(old(self).tree@, GraphEdit::DeleteConnection(index as int));
            }
        }
        if r {
            self.state.dirty = true;
            match self.selected_connection.index {
                Some(s) => {
                    if s == index {
                        self.selected_connection = SelectedConnection { index: None };
                    } else if s > index {
                        self.selected_connection = SelectedConnection { index: Some(s - 1) };
                    }
                },
                None => {},
            }
        }
        r
    }

    /// The Delete key: deletes the selected node, or else the selected
    /// connection, and clears the selection. Tells whether anything went.
    pub fn delete_selected(&mut self) -> (r: bool)
        requires
            old(self).wf(),
        ensures
            final(self).wf(),
            final(self).state.next_node_id == old(self).state.next_node_id,
            final(self).connection_mode == old(self).connection_mode,
            match old(self).selected_node.id {
                Some(id) => {
                    &&& r
                    &&& final(self).tree@ == after_delete_node(old(self).tree@, id)
                    &&& final(self).selected_node.id.is_none()
                    &&& final(self).state.dirty
                },
                None => match old(self).selected_connection.index {
                    Some(i) => {
                        &&& r
                        &&& final(self).tree@ == after_delete_connection(old(self).tree@, i as int)
                        &&& final(self).selected_connection.index.is_none()
                        &&& final(self).selected_node.id.is_none()
                        &&& final(self).state.dirty
                    },
                    None => {
                        &&& !r
                        &&& final(self).tree == old(self).tree
                        &&& final(self).state.dirty == old(self).state.dirty
                    },
                },
            },
            connections_live(old(self).tree@) ==> connections_live(final(self).tree@),
            final(self).state == (EditorState { dirty: final(self).state.dirty, ..old(self).state }),
    {
        match self.selected_node.id {
            Some(id) => {
                self.delete_node(id);
                true
            },
            None => match self.selected_connection.index {
                Some(i) => {
                    self.delete_connection(i);
                    true
                },
                None => false,
            },
        }
    }

    /// Replaces the attributes of the node whose id is `node.id` (name,
    /// description, image, type, stats or position). Tells whether that
    /// node exists; only then is the document marked dirty.
    pub fn update_node(&mut self, node: SkillNodeData) -> (r: bool)
        requires
            old(self).wf(),
        ensures
            final(self).wf(),
            r == has_node(old(self).tree@.nodes, node.id),
            final(self).tree@ == after_update_node(old(self).tree@, node@),
            final(self).state.dirty == (old(self).state.dirty || r),
            final(self).state.next_node_id == old(self).state.next_node_id,
            final(self).selected_node == old(self).selected_node,
            final(self).selected_connection == old(self).selected_connection,
            final(self).connection_mode == old(self).connection_mode,
            connections_live(old(self).tree@) ==> connections_live(final(self).tree@),
            final(self).state == (EditorState { dirty: final(self).state.dirty, ..old(self).state }),
    {
        let ghost old_nodes = self.tree@.nodes;
        let ghost target = node@;
        let r = self.tree.update_node(node);
        proof {
            if connections_live(old(self).tree@) {
                lemma_edit_keeps_connections_live(old(self).tree@, GraphEdit::UpdateNode(target));
            }
        }
        assert(forall|i: int| 0 <= i < old_nodes.len() ==> self.tree@.nodes[i].id == old_nodes[i].id);
        if let Some(s) = self.selected_node.id {
            assert(has_node(self.tree@.nodes, s)) by {
                let i = choose|i: int| 0 <= i < old_nodes.len() && old_nodes[i].id == s;
                assert(self.tree@.nodes[i].id == s);
            }
        }
        if r {
            self.state.dirty = true;
        }
        r
    }

    /// Gives the connection at `index` a new shape. Tells whether it exists;
    /// only then is the document marked dirty.
    pub fn set_curve_type(&mut self, index: usize, curve_type: CurveType) -> (r: bool)
        requires
            old(self).wf(),
        ensures
            final(self).wf(),
            r == (index < old(self).tree@.connections.len()),
            final(self).tree@ == after_set_curve(old(self).tree@, index as int, curve_type),
            final(self).state.dirty == (old(self).state.dirty || r),
            final(self).state.next_node_id == old(self).state.next_node_id,
            final(self).selected_node == old(self).selected_node,
            final(self).selected_connection == old(self).selected_connection,
            final(self).connection_mode == old(self).connection_mode,
            connections_live(old(self).tree@) ==> connections_live(final(self).tree@),
            final(self).state == (EditorState { dirty: final(self).state.dirty, ..old(self).state }),
    {
        let r = self.tree.set_curve_type(index, curve_type);
        proof {
            if connections_live(old(self).tree@) {
                lemma_edit_keeps_connections_live(old(self).tree@, GraphEdit::SetCurve(index as int, curve_type));
            }
        }
        if r {
            self.state.dirty = true;
        }
        r
    }
}

/// The id a loaded tree hands to its next node: one past the largest id,
/// or 0 when there are no nodes.
pub open spec fn next_id_after(nodes: Seq<NodeView>) -> int
    decreases nodes.len(),
{
    if nodes.len() == 0 {
        0
    } else {
        let r = next_id_after(nodes.drop_last());
        if nodes.last().id >= r {
            nodes.last().id + 1
        } else {
            r
        }
    }
}

/// A node list can be taken in: ids are unique and none is the largest
/// `u32`, so every later node can still get a fresh id.
pub open spec fn load_ok(nodes: Seq<NodeView>) -> bool {
    &&& ids_unique(nodes)
    &&& forall|i: int| 0 <= i < nodes.len() ==> nodes[i].id < u32::MAX
}

/// `next_id_after` is above every id, and is 0 or one past some id.
pub proof fn lemma_next_id_after(nodes: Seq<NodeView>)
    ensures
        forall|i: int| 0 <= i < nodes.len() ==> nodes[i].id < next_id_after(nodes),
        nodes.len() == 0 ==> next_id_after(nodes) == 0,
        nodes.len() > 0 ==> exists|i: int|
            0 <= i < nodes.len() && next_id_after(nodes) == nodes[i].id + 1,
        0 <= next_id_after(nodes) <= u32::MAX + 1,
    decreases nodes.len(),
{
    if nodes.len() > 0 {
        let d = nodes.drop_last();
        lemma_next_id_after(d);
        let n = nodes.len() - 1;
        assert forall|i: int| 0 <= i < nodes.len() implies nodes[i].id < next_id_after(nodes) by {
            if i < n {
                assert(nodes[i] == d[i]);
            }
        }
        if nodes.last().id < next_id_after(d) {
            let k = choose|k: int| 0 <= k < d.len() && next_id_after(d) == d[k].id + 1;
            assert(nodes[k] == d[k]);
        } else {
            assert(next_id_after(nodes) == nodes[n].id + 1);
        }
    }
}

/// Saving a tree and loading what was saved gives back the same nodes, in
/// the same order with the same attributes, and the same connection list;
/// the next id becomes one past the largest id, or 0 for an empty tree.
/// The saved nodes and connections are those of the tree
/// ([`Editor::save_data`]); loading takes them as they are
/// ([`Editor::apply_loaded`]) whenever `load_ok` holds, which it does for
/// every tree the editor holds.
pub proof fn lemma_save_load_round_trip(t: TreeView, next_node_id: u32)
    requires
        ids_unique(t.nodes),
        ids_below(t.nodes, next_node_id),
    ensures
        load_ok(t.nodes),
        (TreeView { nodes: t.nodes, connections: t.connections }) == t,
        t.nodes.len() == 0 ==> next_id_after(t.nodes) == 0,
        forall|i: int| 0 <= i < t.nodes.len() ==> t.nodes[i].id < next_id_after(t.nodes),
        t.nodes.len() > 0 ==> exists|i: int|
            0 <= i < t.nodes.len() && next_id_after(t.nodes) == t.nodes[i].id + 1,
{
    lemma_next_id_after(t.nodes);
}

/// `r` asks for a write to `path`.
pub open spec fn writes(r: Effect, path: Seq<char>) -> bool {
    match r {
        Effect::WriteFile(p) => p@ == path,
        _ => false,
    }
}

/// `post` is `pre` with the save-as dialog opened on the suggested name,
/// holding `next` as the action to run once the save is done.
pub open spec fn save_as_opened(
    pre: EditorState,
    post: EditorState,
    next: NextActionAfterSaveAs,
) -> bool {
    &&& post.show_save_as_dialog
    &&& post.save_as_file_name_buffer@ == suggested_name(pre.current_file_path)
    &&& !post.save_as_show_overwrite_prompt
    &&& post.save_as_conflict_path.is_none()
    &&& post.next_action_after_save_as == next
    &&& post.current_file_path == pre.current_file_path
    &&& post.show_load_dialog == pre.show_load_dialog
    &&& post.available_ron_files == pre.available_ron_files
    &&& post.next_node_id == pre.next_node_id
    &&& post.dirty == pre.dirty
    &&& post.trigger_pending_action == pre.trigger_pending_action
}

impl Editor {
    /// The graph, selection and connect mode of `self` and `other` agree.
    pub open spec fn same_document(&self, other: &Editor) -> bool {
        &&& self.tree == other.tree
        &&& self.selected_node == other.selected_node
        &&& self.selected_connection == other.selected_connection
        &&& self.connection_mode == other.connection_mode
    }

    /// `self` is `pre` after New: no nodes, no connections, no selection,
    /// no file, next id 0 and nothing unsaved.
    pub open spec fn is_cleared_from(&self, pre: &Editor) -> bool {
        &&& self.tree@.nodes.len() == 0
        &&& self.tree@.connections.len() == 0
        &&& self.selected_node.id.is_none()
        &&& self.selected_connection.index.is_none()
        &&& self.connection_mode == pre.connection_mode
        &&& self.state == (EditorState {
            current_file_path: None,
            next_node_id: 0,
            dirty: false,
            ..pre.state
        })
    }

    /// Empties the document: the New action once it may run.
    pub fn new_document(&mut self)
        requires
            old(self).wf(),
        ensures
            final(self).wf(),
            final(self).is_cleared_from(old(self)),
    {
        self.tree = SkillTreeData::new();
        self.selected_node = SelectedNode { id: None };
        self.selected_connection = SelectedConnection { index: None };
        self.state.current_file_path = None;
        self.state.next_node_id = 0;
        self.state.dirty = false;
    }

    fn open_save_as(&mut self, next: NextActionAfterSaveAs)
        requires
            old(self).wf(),
        ensures
            final(self).wf(),
            final(self).same_document(old(self)),
            save_as_opened(old(self).state, final(self).state, next),
            final(self).state.show_unsaved_changes_on_new_dialog
                == old(self).state.show_unsaved_changes_on_new_dialog,
            final(self).state.show_unsaved_changes_on_load_dialog
                == old(self).state.show_unsaved_changes_on_load_dialog,
    {
        self.state.save_as_file_name_buffer = suggested_file_name(&self.state.current_file_path);
        self.state.show_save_as_dialog = true;
        self.state.save_as_show_overwrite_prompt = false;
        self.state.save_as_conflict_path = None;
        self.state.next_action_after_save_as = next;
    }

    /// File > New. With unsaved changes it only asks what to do with them;
    /// otherwise it empties the document.
    pub fn request_new(&mut self)
        requires
            old(self).wf(),
        ensures
            final(self).wf(),
            old(self).state.dirty ==> final(self).same_document(old(self)) && final(self).state
                == (EditorState {
                show_unsaved_changes_on_new_dialog: true,
                next_action_after_save_as: NextActionAfterSaveAs::NoAction,
                ..old(self).state
            }),
            !old(self).state.dirty ==> final(self).is_cleared_from(old(self)),
    {
        if self.state.dirty {
            self.state.show_unsaved_changes_on_new_dialog = true;
            self.state.next_action_after_save_as = NextActionAfterSaveAs::NoAction;
        } else {
            self.new_document();
        }
    }

    /// File > Save. With a current file it asks for a write there;
    /// otherwise it opens the save-as dialog.
    pub fn request_save(&mut self) -> (r: Effect)
        requires
            old(self).wf(),
        ensures
            final(self).wf(),
            final(self).same_document(old(self)),
            match old(self).state.current_file_path {
                Some(p) => writes(r, p@) && final(self).state == old(self).state,
                None => r == Effect::Nothing && save_as_opened(
                    old(self).state,
                    final(self).state,
                    old(self).state.next_action_after_save_as,
                ) && final(self).state.show_unsaved_changes_on_new_dialog
                    == old(self).state.show_unsaved_changes_on_new_dialog
                    && final(self).state.show_unsaved_changes_on_load_dialog
                    == old(self).state.show_unsaved_changes_on_load_dialog,
            },
    {
        match &self.state.current_file_path {
            Some(p) => Effect::WriteFile(p.clone()),
            None => {
                let next = self.state.next_action_after_save_as;
                self.open_save_as(next);
                Effect::Nothing
            },
        }
    }

    /// File > Save As: opens the dialog on the current file's name, with no
    /// action waiting on it.
    pub fn request_save_as(&mut self)
        requires
            old(self).wf(),
        ensures
            final(self).wf(),
            final(self).same_document(old(self)),
            save_as_opened(old(self).state, final(self).state, NextActionAfterSaveAs::NoAction),
            final(self).state.show_unsaved_changes_on_new_dialog
                == old(self).state.show_unsaved_changes_on_new_dialog,
            final(self).state.show_unsaved_changes_on_load_dialog
                == old(self).state.show_unsaved_changes_on_load_dialog,
    {
        self.open_save_as(NextActionAfterSaveAs::NoAction);
    }

    /// File > Load. With unsaved changes it only asks what to do with them;
    /// otherwise it asks for the list of files.
    pub fn request_load(&mut self) -> (r: Effect)
        requires
            old(self).wf(),
        ensures
            final(self).wf(),
            final(self).same_document(old(self)),
            old(self).state.dirty ==> r == Effect::Nothing && final(self).state == (EditorState {
                show_unsaved_changes_on_load_dialog: true,
                next_action_after_save_as: NextActionAfterSaveAs::NoAction,
                ..old(self).state
            }),
            !old(self).state.dirty ==> r == Effect::ListFiles && final(self).state
                == old(self).state,
    {
        if self.state.dirty {
            self.state.show_unsaved_changes_on_load_dialog = true;
            self.state.next_action_after_save_as = NextActionAfterSaveAs::NoAction;
            Effect::Nothing
        } else {
            Effect::ListFiles
        }
    }

    /// "Save" in an unsaved-changes dialog, for the guarded action `action`.
    fn save_before(&mut self, action: NextActionAfterSaveAs) -> (r: Effect)
        requires
            old(self).wf(),
        ensures
            final(self).wf(),
            final(self).same_document(old(self)),
            !final(self).state.show_unsaved_changes_on_new_dialog,
            !final(self).state.show_unsaved_changes_on_load_dialog,
            match old(self).state.current_file_path {
                Some(p) => writes(r, p@) && final(self).state == (EditorState {
                    show_unsaved_changes_on_new_dialog: false,
                    show_unsaved_changes_on_load_dialog: false,
                    trigger_pending_action: action,
                    ..old(self).state
                }),
                None => r == Effect::Nothing && save_as_opened(
                    old(self).state,
                    final(self).state,
                    action,
                ),
            },
    {
        let r = match &self.state.current_file_path {
            Some(p) => {
                self.state.trigger_pending_action = action;
                Effect::WriteFile(p.clone())
            },
            None => {
                self.open_save_as(action);
                Effect::Nothing
            },
        };
        self.state.show_unsaved_changes_on_new_dialog = false;
        self.state.show_unsaved_changes_on_load_dialog = false;
        r
    }

    /// "Save" in the unsaved-changes dialog of New: writes to the current
    /// file and then runs New, or, with no current file, opens the save-as
    /// dialog with New waiting on it.
    pub fn unsaved_new_save(&mut self) -> (r: Effect)
        requires
            old(self).wf(),
        ensures
            final(self).wf(),
            final(self).same_document(old(self)),
            !final(self).state.show_unsaved_changes_on_new_dialog,
            match old(self).state.current_file_path {
                Some(p) => writes(r, p@) && final(self).state.trigger_pending_action
                    == NextActionAfterSaveAs::CreateNewFile,
                None => r == Effect::Nothing && save_as_opened(
                    old(self).state,
                    final(self).state,
                    NextActionAfterSaveAs::CreateNewFile,
                ),
            },
    {
        self.save_before(NextActionAfterSaveAs::CreateNewFile)
    }

    /// "Don't Save" in the unsaved-changes dialog of New: runs New.
    pub fn unsaved_new_discard(&mut self)
        requires
            old(self).wf(),
        ensures
            final(self).wf(),
            final(self).is_cleared_from(&Editor {
                state: EditorState { show_unsaved_changes_on_new_dialog: false, ..old(self).state },
                ..*old(self)
            }),
    {
        self.state.show_unsaved_changes_on_new_dialog = false;
        self.new_document();
    }

    /// "Cancel" in the unsaved-changes dialog of New.
    pub fn unsaved_new_cancel(&mut self)
        requires
            old(self).wf(),
        ensures
            final(self).wf(),
            final(self).same_document(old(self)),
            final(self).state == (EditorState {
                show_unsaved_changes_on_new_dialog: false,
                next_action_after_save_as: NextActionAfterSaveAs::NoAction,
                ..old(self).state
            }),
    {
        self.state.show_unsaved_changes_on_new_dialog = false;
        self.state.next_action_after_save_as = NextActionAfterSaveAs::NoAction;
    }

    /// "Save" in the unsaved-changes dialog of Load: writes to the current
    /// file and then lists the files, or, with no current file, opens the
    /// save-as dialog with Load waiting on it.
    pub fn unsaved_load_save(&mut self) -> (r: Effect)
        requires
            old(self).wf(),
        ensures
            final(self).wf(),
            final(self).same_document(old(self)),
            !final(self).state.show_unsaved_changes_on_load_dialog,
            match old(self).state.current_file_path {
                Some(p) => writes(r, p@) && final(self).state.trigger_pending_action
                    == NextActionAfterSaveAs::ShowLoadDialog,
                None => r == Effect::Nothing && save_as_opened(
                    old(self).state,
                    final(self).state,
                    NextActionAfterSaveAs::ShowLoadDialog,
                ),
            },
    {
        self.save_before(NextActionAfterSaveAs::ShowLoadDialog)
    }

    /// "Don't Save" in the unsaved-changes dialog of Load: asks for the
    /// list of files. The changes stay unsaved until a load succeeds.
    pub fn unsaved_load_discard(&mut self) -> (r: Effect)
        requires
            old(self).wf(),
        ensures
            final(self).wf(),
            r == Effect::ListFiles,
            final(self).same_document(old(self)),
            final(self).state == (EditorState {
                show_unsaved_changes_on_load_dialog: false,
                ..old(self).state
            }),
    {
        self.state.show_unsaved_changes_on_load_dialog = false;
        Effect::ListFiles
    }

    /// "Cancel" in the unsaved-changes dialog of Load.
    pub fn unsaved_load_cancel(&mut self)
        requires
            old(self).wf(),
        ensures
            final(self).wf(),
            final(self).same_document(old(self)),
            final(self).state == (EditorState {
                show_unsaved_changes_on_load_dialog: false,
                next_action_after_save_as: NextActionAfterSaveAs::NoAction,
                ..old(self).state
            }),
    {
        self.state.show_unsaved_changes_on_load_dialog = false;
        self.state.next_action_after_save_as = NextActionAfterSaveAs::NoAction;
    }

    /// The user edited the file name of the save-as dialog: any overwrite
    /// prompt goes away and plain Save is offered again.
    pub fn edit_save_as_name(&mut self, name: String)
        requires
            old(self).wf(),
        ensures
            final(self).wf(),
            final(self).same_document(old(self)),
            final(self).state.save_as_file_name_buffer@ == name@,
            !final(self).state.save_as_show_overwrite_prompt,
            final(self).state.save_as_conflict_path.is_none(),
            final(self).state == (EditorState {
                save_as_file_name_buffer: final(self).state.save_as_file_name_buffer,
                save_as_show_overwrite_prompt: false,
                save_as_conflict_path: None,
                ..old(self).state
            }),
    {
        self.state.save_as_file_name_buffer = name;
        self.state.save_as_show_overwrite_prompt = false;
        self.state.save_as_conflict_path = None;
    }

    /// The path that Save in the save-as dialog would write: the name typed
    /// with the `.ron` extension forced. None while the overwrite prompt is
    /// shown (Save is disabled then) or while the name is empty.
    pub fn save_as_target(&self) -> (r: Option<String>)
        ensures
            match r {
                Some(p) => !self.state.save_as_show_overwrite_prompt
                    && self.state.save_as_file_name_buffer@.len() > 0 && p@ == with_ron_extension(
                    self.state.save_as_file_name_buffer@,
                ),
                None => self.state.save_as_show_overwrite_prompt
                    || self.state.save_as_file_name_buffer@.len() == 0,
            },
    {
        if self.state.save_as_show_overwrite_prompt
            || self.state.save_as_file_name_buffer.as_str().unicode_len() == 0 {
            None
        } else {
            Some(save_path_for(self.state.save_as_file_name_buffer.as_str()))
        }
    }

    /// Save in the save-as dialog. `target_exists` tells whether a file is
    /// already at [`Editor::save_as_target`]. If one is, the overwrite prompt
    /// replaces Save; if not, a write there is asked for.
    pub fn submit_save_as(&mut self, target_exists: bool) -> (r: Effect)
        requires
            old(self).wf(),
        ensures
            final(self).wf(),
            final(self).same_document(old(self)),
            ({
                let name = old(self).state.save_as_file_name_buffer@;
                if old(self).state.save_as_show_overwrite_prompt || name.len() == 0 {
                    r == Effect::Nothing && final(self).state == old(self).state
                } else if target_exists {
                    &&& r == Effect::Nothing
                    &&& final(self).state.save_as_show_overwrite_prompt
                    &&& final(self).state.save_as_conflict_path.is_some()
                    &&& final(self).state.save_as_conflict_path.unwrap()@ == with_ron_extension(name)
                    &&& final(self).state == (EditorState {
                        save_as_show_overwrite_prompt: true,
                        save_as_conflict_path: final(self).state.save_as_conflict_path,
                        ..old(self).state
                    })
                } else {
                    writes(r, with_ron_extension(name)) && final(self).state == old(self).state
                }
            }),
    {
        match self.save_as_target() {
            None => Effect::Nothing,
            Some(p) => {
                if target_exists {
                    self.state.save_as_show_overwrite_prompt = true;
                    self.state.save_as_conflict_path = Some(p);
                    Effect::Nothing
                } else {
                    Effect::WriteFile(p)
                }
            },
        }
    }

    /// Overwrite in the save-as dialog: asks for a write to the path that
    /// was found taken.
    pub fn confirm_overwrite(&mut self) -> (r: Effect)
        requires
            old(self).wf(),
        ensures
            final(self).wf(),
            final(self).same_document(old(self)),
            final(self).state == old(self).state,
            match old(self).state.save_as_conflict_path {
                Some(p) if old(self).state.save_as_show_overwrite_prompt => writes(r, p@),
                _ => r == Effect::Nothing,
            },
    {
        if self.state.save_as_show_overwrite_prompt {
            match &self.state.save_as_conflict_path {
                Some(p) => Effect::WriteFile(p.clone()),
                None => Effect::Nothing,
            }
        } else {
            Effect::Nothing
        }
    }

    /// Cancel in the save-as dialog: closes it and drops the action that
    /// waited on it.
    pub fn cancel_save_as(&mut self)
        requires
            old(self).wf(),
        ensures
            final(self).wf(),
            final(self).same_document(old(self)),
            final(self).state == (EditorState {
                show_save_as_dialog: false,
                save_as_show_overwrite_prompt: false,
                save_as_conflict_path: None,
                next_action_after_save_as: NextActionAfterSaveAs::NoAction,
                ..old(self).state
            }),
    {
        self.state.show_save_as_dialog = false;
        self.state.save_as_show_overwrite_prompt = false;
        self.state.save_as_conflict_path = None;
        self.state.next_action_after_save_as = NextActionAfterSaveAs::NoAction;
    }

    /// Reports the outcome of a write to `path` that an [`Effect`] asked
    /// for. On success the file becomes the current one and nothing is
    /// unsaved; an open save-as dialog closes and hands its waiting action
    /// over to run on the next pass. On failure the action that waited for
    /// this save is dropped and all else stays.
    pub fn write_finished(&mut self, path: String, ok: bool)
        requires
            old(self).wf(),
        ensures
            final(self).wf(),
            final(self).same_document(old(self)),
            ok && old(self).state.show_save_as_dialog ==> final(self).state == (EditorState {
                current_file_path: final(self).state.current_file_path,
                dirty: false,
                show_save_as_dialog: false,
                save_as_show_overwrite_prompt: false,
                save_as_conflict_path: None,
                trigger_pending_action: old(self).state.next_action_after_save_as,
                next_action_after_save_as: NextActionAfterSaveAs::NoAction,
                ..old(self).state
            }),
            ok && !old(self).state.show_save_as_dialog ==> final(self).state == (EditorState {
                current_file_path: final(self).state.current_file_path,
                dirty: false,
                ..old(self).state
            }),
            ok ==> final(self).state.current_file_path.is_some()
                && final(self).state.current_file_path.unwrap()@ == path@,
            !ok ==> final(self).state == (EditorState {
                trigger_pending_action: NextActionAfterSaveAs::NoAction,
                ..old(self).state
            }),
    {
        if ok {
            self.state.current_file_path = Some(path);
            self.state.dirty = false;
            if self.state.show_save_as_dialog {
                self.state.show_save_as_dialog = false;
                self.state.save_as_show_overwrite_prompt = false;
                self.state.save_as_conflict_path = None;
                self.state.trigger_pending_action = self.state.next_action_after_save_as;
                self.state.next_action_after_save_as = NextActionAfterSaveAs::NoAction;
            }
        } else {
            self.state.trigger_pending_action = NextActionAfterSaveAs::NoAction;
        }
    }

    /// Runs the action handed over by a finished save, once per pass: New
    /// empties the document, Load asks for the list of files.
    pub fn run_pending_action(&mut self) -> (r: Effect)
        requires
            old(self).wf(),
        ensures
            final(self).wf(),
            final(self).state.trigger_pending_action == NextActionAfterSaveAs::NoAction,
            match old(self).state.trigger_pending_action {
                NextActionAfterSaveAs::CreateNewFile => r == Effect::Nothing
                    && final(self).is_cleared_from(&Editor {
                    state: EditorState {
                        trigger_pending_action: NextActionAfterSaveAs::NoAction,
                        ..old(self).state
                    },
                    ..*old(self)
                }),
                NextActionAfterSaveAs::ShowLoadDialog => r == Effect::ListFiles
                    && final(self).same_document(old(self)) && final(self).state == (EditorState {
                    trigger_pending_action: NextActionAfterSaveAs::NoAction,
                    ..old(self).state
                }),
                NextActionAfterSaveAs::NoAction => r == Effect::Nothing
                    && final(self).same_document(old(self)) && final(self).state == old(self).state,
            },
    {
        let action = self.state.trigger_pending_action;
        self.state.trigger_pending_action = NextActionAfterSaveAs::NoAction;
        match action {
            NextActionAfterSaveAs::CreateNewFile => {
                self.new_document();
                Effect::Nothing
            },
            NextActionAfterSaveAs::ShowLoadDialog => Effect::ListFiles,
            NextActionAfterSaveAs::NoAction => Effect::Nothing,
        }
    }

    /// Opens the load dialog on the files found.
    pub fn open_load_dialog(&mut self, files: Vec<String>)
        requires
            old(self).wf(),
        ensures
            final(self).wf(),
            final(self).same_document(old(self)),
            final(self).state == (EditorState {
                available_ron_files: files,
                show_load_dialog: true,
                ..old(self).state
            }),
    {
        self.state.available_ron_files = files;
        self.state.show_load_dialog = true;
    }

    /// Closes the load dialog without loading (Cancel, or a file that could
    /// not be read or parsed).
    pub fn close_load_dialog(&mut self)
        requires
            old(self).wf(),
        ensures
            final(self).wf(),
            final(self).same_document(old(self)),
            final(self).state == (EditorState { show_load_dialog: false, ..old(self).state }),
    {
        self.state.show_load_dialog = false;
    }

    /// What a save writes: every node and the connection list, as they are.
    pub fn save_data(&self) -> (r: SkillTreeSaveData)
        ensures
            nodes_view(r.nodes@) == self.tree@.nodes,
            r.connections@ == self.tree@.connections,
            r.start_node_id.is_none(),
    {
        SkillTreeSaveData {
            nodes: copy_nodes(&self.tree.nodes),
            connections: copy_connections(&self.tree.connections),
            start_node_id: None,
        }
    }

    /// Takes in the tree read from `path`, replacing the document wholesale
    /// when its ids pass [`load_ok`]: the nodes and connections are those
    /// read, the next id is [`next_id_after`] them, the file is `path` and
    /// nothing is unsaved. Otherwise the document stays as it was. The load
    /// dialog closes either way.
    pub fn apply_loaded(&mut self, path: String, data: SkillTreeSaveData) -> (r: Result<
        (),
        LoadError,
    >)
        requires
            old(self).wf(),
        ensures
            final(self).wf(),
            r.is_ok() == load_ok(nodes_view(data.nodes@)),
            match r {
                Ok(()) => {
                    &&& final(self).tree@ == (TreeView {
                        nodes: nodes_view(data.nodes@),
                        connections: data.connections@,
                    })
                    &&& final(self).state.next_node_id == next_id_after(nodes_view(data.nodes@))
                    &&& final(self).state.current_file_path.is_some()
                    &&& final(self).state.current_file_path.unwrap()@ == path@
                    &&& !final(self).state.dirty
                    &&& !final(self).state.show_load_dialog
                    &&& final(self).selected_node.id.is_none()
                    &&& final(self).selected_connection.index.is_none()
                    &&& final(self).connection_mode == old(self).connection_mode
                },
                Err(e) => {
                    &&& final(self).same_document(old(self))
                    &&& final(self).state == (EditorState {
                        show_load_dialog: false,
                        ..old(self).state
                    })
                    &&& match e {
                        LoadError::DuplicateNodeId(id) => exists|i: int, j: int|
                            0 <= i < j < data.nodes@.len() && data.nodes@[i].id == id
                                && data.nodes@[j].id == id,
                        LoadError::IdSpaceExhausted => exists|i: int|
                            0 <= i < data.nodes@.len() && data.nodes@[i].id == u32::MAX,
                    }
                },
            },
    {
        let ghost nv = nodes_view(data.nodes@);
        let n = data.nodes.len();
        let mut next: u32 = 0;
        let mut i: usize = 0;
        while i < n
            invariant
                n == data.nodes@.len(),
                nv == nodes_view(data.nodes@),
                i <= n,
                self.wf(),
                self.same_document(old(self)),
                self.state == old(self).state,
                load_ok(nv.subrange(0, i as int)),
                next as int == next_id_after(nv.subrange(0, i as int)),
            decreases n - i,
        {
            let id = data.nodes[i].id;
            if id == u32::MAX {
                assert(nv[i as int].id == u32::MAX);
                self.state.show_load_dialog = false;
                return Err(LoadError::IdSpaceExhausted);
            }
            let mut j: usize = 0;
            while j < i
                invariant
                    n == data.nodes@.len(),
                    nv == nodes_view(data.nodes@),
                    i < n,
                    j <= i,
                    self.wf(),
                    self.same_document(old(self)),
                    self.state == old(self).state,
                    id == nv[i as int].id,
                    forall|k: int| 0 <= k < j ==> nv[k].id != id,
                decreases i - j,
            {
                if data.nodes[j].id == id {
                    assert(nv[j as int].id == nv[i as int].id);
                    assert(!ids_unique(nv));
                    self.state.show_load_dialog = false;
                    return Err(LoadError::DuplicateNodeId(id));
                }
                j = j + 1;
            }
            proof {
                let p = nv.subrange(0, i as int);
                let q = nv.subrange(0, i + 1);
                assert(q.drop_last() =~= p);
                lemma_next_id_after(p);
                assert forall|a: int, b: int|
                    0 <= a < q.len() && 0 <= b < q.len() && a != b implies q[a].id != q[b].id by {
                    if a < i && b < i {
                        assert(q[a] == p[a] && q[b] == p[b]);
                    }
                }
            }
            if id >= next {
                next = id + 1;
            }
            i = i + 1;
        }
        assert(nv.subrange(0, n as int) =~= nv);
        proof {
            lemma_next_id_after(nv);
        }
        self.new_document();
        self.tree = SkillTreeData { nodes: data.nodes, connections: data.connections };
        self.state.next_node_id = next;
        self.state.current_file_path = Some(path);
        self.state.dirty = false;
        self.state.show_load_dialog = false;
        Ok(())
    }
}

/// Deleting a node keeps ids unique and below the same bound.
proof fn lemma_delete_keeps_ids(t: TreeView, id: u32, bound: u32)
    requires
        ids_unique(t.nodes),
        ids_below(t.nodes, bound),
    ensures
        ids_unique(after_delete_node(t, id).nodes),
        ids_below(after_delete_node(t, id).nodes, bound),
{
    let p = crate::graph::other_node(id);
    let r = after_delete_node(t, id).nodes;
    t.nodes.lemma_filter_len(p);
    assert forall|i: int| 0 <= i < r.len() implies r[i].id < bound by {
        assert(r.contains(r[i]));
        t.nodes.lemma_filter_contains_rev(p, r[i]);
    }
    lemma_filter_keeps_unique(t.nodes, p);
}

/// Filtering a node list with unique ids keeps them unique.
proof fn lemma_filter_keeps_unique(s: Seq<NodeView>, p: spec_fn(NodeView) -> bool)
    requires
        ids_unique(s),
    ensures
        ids_unique(s.filter(p)),
    decreases s.len(),
{
    reveal(Seq::filter);
    if s.len() > 0 {
        let d = s.drop_last();
        assert(ids_unique(d));
        lemma_filter_keeps_unique(d, p);
        let f = d.filter(p);
        if p(s.last()) {
            assert forall|i: int| 0 <= i < f.len() implies f[i].id != s.last().id by {
                assert(f.contains(f[i]));
                d.lemma_filter_contains_rev(p, f[i]);
                let k = choose|k: int| 0 <= k < d.len() && d[k] == f[i];
                assert(s[k] == d[k]);
            }
        }
    }
}

} // verus!
