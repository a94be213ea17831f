use skill_tree_editor::components::{
    ConnectionData, CurveType, ModifierType, NodeType, Position, StatModifier,
};
use skill_tree_editor::editor::Editor;
use skill_tree_editor::graph::SkillTreeData;

fn pos(x: f32, y: f32) -> Position {
    Position { x: x.to_bits(), y: y.to_bits() }
}

fn ids(e: &Editor) -> Vec<u32> {
    e.tree.nodes.iter().map(|n| n.id).collect()
}

fn pairs(e: &Editor) -> Vec<(u32, u32)> {
    e.tree.connections.iter().map(|c| (c.from_id, c.to_id)).collect()
}

fn live(e: &Editor) -> bool {
    let ids = ids(e);
    e.tree.connections.iter().all(|c| ids.contains(&c.from_id) && ids.contains(&c.to_id))
}

/// Builds an editor holding nodes 0..n and the given connections.
fn editor_with(n: u32, conns: &[(u32, u32)]) -> Editor {
    let mut e = Editor::new();
    for i in 0..n {
        e.create_node(pos(i as f32 * 10.0, 0.0));
    }
    for &(a, b) in conns {
        assert!(e.tree.add_connection(a, b, CurveType::Straight));
    }
    e
}

#[test]
fn create_node_uses_counter_and_defaults() {
    let mut e = Editor::new();
    assert_eq!(e.create_node(pos(1.0, 2.0)), 0);
    for _ in 0..11 {
        e.create_node(pos(0.0, 0.0));
    }
    let id = e.create_node(pos(3.0, 4.0));
    assert_eq!(id, 12);
    assert_eq!(e.state.next_node_id, 13);
    assert!(e.state.dirty);
    let n = &e.tree.nodes[12];
    assert_eq!(n.name, "Node 12");
    assert_eq!(n.description, "Node description");
    assert_eq!(n.image_name, "default_node.png");
    assert_eq!(n.node_type, NodeType::Normal);
    assert!(n.stats.is_empty());
    assert_eq!(f32::from_bits(n.position.x), 3.0);
    assert_eq!(e.tree.nodes[0].name, "Node 0");
}

#[test]
fn connections_stay_live_through_edits() {
    let mut e = editor_with(5, &[(0, 1), (1, 2), (2, 3), (3, 4), (4, 0)]);
    assert!(live(&e));
    e.delete_node(2);
    assert!(live(&e));
    e.right_click(Some(1), pos(0.0, 0.0));
    e.right_click(Some(3), pos(0.0, 0.0));
    assert!(live(&e));
    assert_eq!(pairs(&e), vec![(0, 1), (3, 4), (4, 0), (1, 3)]);
    e.delete_connection(0);
    e.delete_node(0);
    assert!(live(&e));
    assert_eq!(pairs(&e), vec![(3, 4), (1, 3)]);
    e.delete_node(3);
    assert!(live(&e));
    assert!(pairs(&e).is_empty());
}

#[test]
fn add_connection_rejects_self_loop_and_missing_node() {
    let mut t = SkillTreeData::new();
    let mut e = Editor::new();
    e.create_node(pos(0.0, 0.0));
    e.create_node(pos(1.0, 0.0));
    t.nodes = e.tree.nodes.clone();
    assert!(!t.add_connection(0, 0, CurveType::Straight));
    assert!(!t.add_connection(0, 9, CurveType::Straight));
    assert!(t.add_connection(0, 1, CurveType::Straight));
    assert!(t.add_connection(0, 1, CurveType::Straight));
    assert_eq!(t.connections.len(), 2);
}

#[test]
fn delete_node_removes_exactly_incident_connections() {
    let mut e = editor_with(4, &[(0, 1), (1, 2), (2, 3), (3, 0), (0, 2)]);
    assert!(e.delete_node(1));
    assert_eq!(pairs(&e), vec![(2, 3), (3, 0), (0, 2)]);
    assert_eq!(ids(&e), vec![0, 2, 3]);
    assert!(!e.delete_node(1));
    assert_eq!(pairs(&e), vec![(2, 3), (3, 0), (0, 2)]);
}

#[test]
fn delete_connection_removes_exactly_that_one() {
    let mut e = editor_with(3, &[(0, 1), (1, 2), (2, 0)]);
    assert!(e.delete_connection(1));
    assert_eq!(pairs(&e), vec![(0, 1), (2, 0)]);
    assert!(!e.delete_connection(5));
    assert_eq!(pairs(&e), vec![(0, 1), (2, 0)]);
}

#[test]
fn sequential_deletions_leave_unrelated_connections() {
    let mut e = editor_with(10, &[(2, 3), (3, 5), (7, 9)]);
    e.delete_node(3);
    e.delete_node(7);
    assert!(pairs(&e).is_empty());
    let mut e = editor_with(10, &[(2, 3), (3, 5), (7, 9), (1, 2), (5, 6)]);
    e.delete_node(3);
    e.delete_node(7);
    assert_eq!(pairs(&e), vec![(1, 2), (5, 6)]);
}

#[test]
fn straight_connection_hit_selects_it() {
    let mut e = Editor::new();
    let a = e.create_node(pos(0.0, 0.0));
    let b = e.create_node(pos(100.0, 0.0));
    assert!(e.tree.add_connection(a, b, CurveType::Straight));
    // the pointer at (50, 0) lies on the connection, no node within reach
    e.left_click(None, &vec![true]);
    assert_eq!(e.selected_connection.index, Some(0));
    assert_eq!(e.selected_node.id, None);
    // at (50, 50) it is on nothing
    e.left_click(None, &vec![false]);
    assert_eq!(e.selected_connection.index, None);
}

#[test]
fn node_hit_wins_and_first_connection_wins() {
    let mut e = editor_with(3, &[(0, 1), (1, 2), (2, 0)]);
    e.left_click(None, &vec![false, true, true]);
    assert_eq!(e.selected_connection.index, Some(1));
    e.left_click(Some(2), &vec![true, true, true]);
    assert_eq!(e.selected_node.id, Some(2));
    assert_eq!(e.selected_connection.index, None);
    // a node id that does not exist selects nothing of it
    e.left_click(Some(42), &vec![false, false, true]);
    assert_eq!(e.selected_node.id, None);
    assert_eq!(e.selected_connection.index, Some(2));
}

#[test]
fn arc_with_small_radius_is_kept() {
    let mut e = Editor::new();
    let a = e.create_node(pos(0.0, 0.0));
    let b = e.create_node(pos(100.0, 0.0));
    assert!(e.tree.add_connection(a, b, CurveType::Straight));
    let arc = CurveType::Arc { radius: 40.0f32.to_bits(), clockwise: false };
    assert!(e.set_curve_type(0, arc));
    assert_eq!(e.tree.connections[0].curve_type, arc);
    assert!(!e.set_curve_type(1, CurveType::Straight));
}

#[test]
fn right_click_connect_mode() {
    let mut e = editor_with(2, &[]);
    e.state.dirty = false;
    e.right_click(Some(0), pos(0.0, 0.0));
    assert!(e.connection_mode.active);
    assert_eq!(e.connection_mode.start_node, Some(0));
    // the same node cancels without connecting
    e.right_click(Some(0), pos(0.0, 0.0));
    assert!(!e.connection_mode.active);
    assert!(e.tree.connections.is_empty());
    assert!(!e.state.dirty);
    // empty space while pending cancels and creates nothing
    e.right_click(Some(0), pos(0.0, 0.0));
    e.right_click(None, pos(5.0, 5.0));
    assert!(!e.connection_mode.active);
    assert_eq!(e.tree.nodes.len(), 2);
    // a second node connects
    e.right_click(Some(1), pos(0.0, 0.0));
    e.right_click(Some(0), pos(0.0, 0.0));
    assert_eq!(pairs(&e), vec![(1, 0)]);
    assert_eq!(e.tree.connections[0].curve_type, CurveType::Straight);
    assert!(e.state.dirty);
    // empty space while idle creates a node
    e.right_click(None, pos(7.0, 8.0));
    assert_eq!(ids(&e), vec![0, 1, 2]);
}

#[test]
fn deleting_a_connection_rebases_the_selection() {
    let mut e = editor_with(4, &[(0, 1), (1, 2), (2, 3), (3, 0)]);
    e.select_connection(3);
    e.delete_connection(1);
    assert_eq!(e.selected_connection.index, Some(2));
    e.delete_connection(2);
    assert_eq!(e.selected_connection.index, None);
    e.select_connection(0);
    e.delete_connection(1);
    assert_eq!(e.selected_connection.index, Some(0));
}

#[test]
fn delete_key_removes_the_selection() {
    let mut e = editor_with(3, &[(0, 1), (1, 2)]);
    e.left_click(Some(1), &vec![]);
    assert!(e.delete_selected());
    assert_eq!(ids(&e), vec![0, 2]);
    assert!(pairs(&e).is_empty());
    assert_eq!(e.selected_node.id, None);
    let mut e = editor_with(3, &[(0, 1), (1, 2)]);
    e.select_connection(1);
    assert!(e.delete_selected());
    assert_eq!(pairs(&e), vec![(0, 1)]);
    assert_eq!(e.selected_connection.index, None);
    assert!(!e.delete_selected());
}

#[test]
fn update_node_replaces_attributes() {
    let mut e = editor_with(2, &[(0, 1)]);
    e.state.dirty = false;
    let mut n = e.tree.nodes[1].clone();
    n.name = String::from("Might");
    n.node_type = NodeType::Keystone;
    n.stats.push(StatModifier::new_default());
    n.stats.push(StatModifier {
        stat_name: String::from("Strength"),
        value: 2.5f32.to_bits(),
        modifier_type: ModifierType::Percentage,
    });
    assert!(e.update_node(n));
    assert!(e.state.dirty);
    assert_eq!(e.tree.nodes[1].name, "Might");
    assert_eq!(e.tree.nodes[1].stats.len(), 2);
    assert_eq!(e.tree.nodes[1].stats[0].stat_name, "New Stat");
    assert_eq!(e.tree.nodes[0].name, "Node 0");
    let mut ghost = e.tree.nodes[0].clone();
    ghost.id = 99;
    e.state.dirty = false;
    assert!(!e.update_node(ghost));
    assert!(!e.state.dirty);
}

#[test]
fn curve_type_defaults_to_straight() {
    assert_eq!(CurveType::default(), CurveType::Straight);
    let c = ConnectionData { from_id: 1, to_id: 2, curve_type: Default::default() };
    assert_eq!(c.curve_type, CurveType::Straight);
}
