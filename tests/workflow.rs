use skill_tree_editor::components::{
    ConnectionData, CurveType, NodeType, Position, SkillNodeData, SkillTreeSaveData,
};
use skill_tree_editor::decimal::push_decimal;
use skill_tree_editor::editor::{Editor, Effect, LoadError, NextActionAfterSaveAs};
use skill_tree_editor::paths::{save_path_for, suggested_file_name};

fn node(id: u32) -> SkillNodeData {
    SkillNodeData {
        id,
        name: format!("n{id}"),
        description: String::from("d"),
        image_name: String::from("i.png"),
        position: Position { x: 1.5f32.to_bits(), y: (-2.0f32).to_bits() },
        node_type: NodeType::Notable,
        stats: vec![],
    }
}

fn dirty_editor() -> Editor {
    let mut e = Editor::new();
    e.create_node(Position { x: 0, y: 0 });
    e.create_node(Position { x: 0, y: 0 });
    assert!(e.tree.add_connection(0, 1, CurveType::Straight));
    e
}

#[test]
fn save_path_gets_ron_extension() {
    assert_eq!(save_path_for("tree"), "tree.ron");
    assert_eq!(save_path_for("tree.ron"), "tree.ron");
    assert_eq!(save_path_for("tree.txt"), "tree.ron");
    assert_eq!(save_path_for("tree."), "tree.ron");
    assert_eq!(save_path_for("a.b/tree"), "a.b/tree.ron");
    assert_eq!(save_path_for(".ron"), ".ron.ron");
    assert_eq!(save_path_for("x.tar.gz"), "x.tar.ron");
}

#[test]
fn suggested_name_is_last_component() {
    assert_eq!(suggested_file_name(&None), "untitled.ron");
    assert_eq!(suggested_file_name(&Some(String::from("dir/sub/t.ron"))), "t.ron");
    assert_eq!(suggested_file_name(&Some(String::from("plain.ron"))), "plain.ron");
    assert_eq!(suggested_file_name(&Some(String::from("dir/"))), "untitled.ron");
}

#[test]
fn decimal_digits() {
    let mut s = String::from("#");
    push_decimal(&mut s, 0);
    push_decimal(&mut s, 907);
    push_decimal(&mut s, u32::MAX);
    assert_eq!(s, "#09074294967295");
}

#[test]
fn new_when_dirty_saves_as_then_clears() {
    let mut e = dirty_editor();
    assert!(e.state.dirty);
    e.request_new();
    assert!(e.state.show_unsaved_changes_on_new_dialog);
    assert_eq!(e.tree.nodes.len(), 2);
    assert_eq!(e.unsaved_new_save(), Effect::Nothing);
    assert!(!e.state.show_unsaved_changes_on_new_dialog);
    assert!(e.state.show_save_as_dialog);
    assert_eq!(e.state.save_as_file_name_buffer, "untitled.ron");
    assert_eq!(e.state.next_action_after_save_as, NextActionAfterSaveAs::CreateNewFile);
    e.edit_save_as_name(String::from("tree"));
    assert_eq!(e.save_as_target(), Some(String::from("tree.ron")));
    let effect = e.submit_save_as(false);
    assert_eq!(effect, Effect::WriteFile(String::from("tree.ron")));
    let saved = e.save_data();
    assert_eq!(saved.nodes.len(), 2);
    e.write_finished(String::from("tree.ron"), true);
    assert_eq!(e.state.current_file_path, Some(String::from("tree.ron")));
    assert!(!e.state.show_save_as_dialog);
    assert_eq!(e.state.trigger_pending_action, NextActionAfterSaveAs::CreateNewFile);
    assert_eq!(e.run_pending_action(), Effect::Nothing);
    assert!(e.tree.nodes.is_empty());
    assert!(e.tree.connections.is_empty());
    assert_eq!(e.state.next_node_id, 0);
    assert!(!e.state.dirty);
    assert_eq!(e.state.current_file_path, None);
    assert_eq!(e.state.trigger_pending_action, NextActionAfterSaveAs::NoAction);
    assert_eq!(e.run_pending_action(), Effect::Nothing);
}

#[test]
fn new_when_clean_clears_at_once() {
    let mut e = dirty_editor();
    e.state.dirty = false;
    e.request_new();
    assert!(!e.state.show_unsaved_changes_on_new_dialog);
    assert!(e.tree.nodes.is_empty());
}

#[test]
fn new_when_dirty_with_path_writes_then_clears() {
    let mut e = dirty_editor();
    e.state.current_file_path = Some(String::from("a.ron"));
    e.request_new();
    assert_eq!(e.unsaved_new_save(), Effect::WriteFile(String::from("a.ron")));
    e.write_finished(String::from("a.ron"), true);
    assert!(!e.state.dirty);
    assert_eq!(e.run_pending_action(), Effect::Nothing);
    assert!(e.tree.nodes.is_empty());
}

#[test]
fn failed_write_drops_the_waiting_action() {
    let mut e = dirty_editor();
    e.state.current_file_path = Some(String::from("a.ron"));
    e.request_load();
    assert!(e.state.show_unsaved_changes_on_load_dialog);
    assert_eq!(e.unsaved_load_save(), Effect::WriteFile(String::from("a.ron")));
    assert_eq!(e.state.trigger_pending_action, NextActionAfterSaveAs::ShowLoadDialog);
    e.write_finished(String::from("a.ron"), false);
    assert!(e.state.dirty);
    assert_eq!(e.run_pending_action(), Effect::Nothing);
    assert_eq!(e.tree.nodes.len(), 2);
}

#[test]
fn discard_and_cancel_in_unsaved_dialogs() {
    let mut e = dirty_editor();
    e.request_new();
    e.unsaved_new_cancel();
    assert!(!e.state.show_unsaved_changes_on_new_dialog);
    assert_eq!(e.tree.nodes.len(), 2);
    assert!(e.state.dirty);
    e.request_new();
    e.unsaved_new_discard();
    assert!(e.tree.nodes.is_empty());
    assert!(!e.state.dirty);

    let mut e = dirty_editor();
    assert_eq!(e.request_load(), Effect::Nothing);
    e.unsaved_load_cancel();
    assert!(!e.state.show_unsaved_changes_on_load_dialog);
    e.request_load();
    assert_eq!(e.unsaved_load_discard(), Effect::ListFiles);
    assert!(e.state.dirty);
    e.open_load_dialog(vec![String::from("./a.ron")]);
    assert!(e.state.show_load_dialog);
    e.close_load_dialog();
    assert!(!e.state.show_load_dialog);
}

#[test]
fn load_when_dirty_without_path_runs_after_save_as() {
    let mut e = dirty_editor();
    e.request_load();
    assert_eq!(e.unsaved_load_save(), Effect::Nothing);
    assert_eq!(e.state.next_action_after_save_as, NextActionAfterSaveAs::ShowLoadDialog);
    e.edit_save_as_name(String::from("t.json"));
    assert_eq!(e.submit_save_as(false), Effect::WriteFile(String::from("t.ron")));
    e.write_finished(String::from("t.ron"), true);
    assert_eq!(e.run_pending_action(), Effect::ListFiles);
    assert_eq!(e.tree.nodes.len(), 2);
}

#[test]
fn overwrite_prompt_blocks_save_until_confirmed_or_edited() {
    let mut e = dirty_editor();
    e.request_save_as();
    e.edit_save_as_name(String::from("old"));
    assert_eq!(e.submit_save_as(true), Effect::Nothing);
    assert!(e.state.save_as_show_overwrite_prompt);
    assert_eq!(e.state.save_as_conflict_path, Some(String::from("old.ron")));
    assert_eq!(e.save_as_target(), None);
    assert_eq!(e.submit_save_as(false), Effect::Nothing);
    assert_eq!(e.confirm_overwrite(), Effect::WriteFile(String::from("old.ron")));
    e.edit_save_as_name(String::from("new"));
    assert!(!e.state.save_as_show_overwrite_prompt);
    assert_eq!(e.state.save_as_conflict_path, None);
    assert_eq!(e.confirm_overwrite(), Effect::Nothing);
    e.edit_save_as_name(String::new());
    assert_eq!(e.submit_save_as(false), Effect::Nothing);
}

#[test]
fn cancel_save_as_forgets_the_waiting_action() {
    let mut e = dirty_editor();
    e.request_new();
    e.unsaved_new_save();
    e.cancel_save_as();
    assert!(!e.state.show_save_as_dialog);
    assert_eq!(e.state.next_action_after_save_as, NextActionAfterSaveAs::NoAction);
    assert_eq!(e.tree.nodes.len(), 2);
}

#[test]
fn save_with_path_writes_and_without_opens_dialog() {
    let mut e = dirty_editor();
    assert_eq!(e.request_save(), Effect::Nothing);
    assert!(e.state.show_save_as_dialog);
    e.cancel_save_as();
    e.state.current_file_path = Some(String::from("dir/x.ron"));
    assert_eq!(e.request_save(), Effect::WriteFile(String::from("dir/x.ron")));
    e.write_finished(String::from("dir/x.ron"), true);
    assert!(!e.state.dirty);
    e.request_save_as();
    assert_eq!(e.state.save_as_file_name_buffer, "x.ron");
}

#[test]
fn save_then_load_round_trips() {
    let mut e = Editor::new();
    e.create_node(Position { x: 1, y: 2 });
    e.create_node(Position { x: 3, y: 4 });
    e.create_node(Position { x: 5, y: 6 });
    e.delete_node(0);
    e.tree.add_connection(2, 1, CurveType::Arc { radius: 120.0f32.to_bits(), clockwise: true });
    let data = e.save_data();
    assert_eq!(data.start_node_id, None);
    let mut f = Editor::new();
    assert_eq!(f.apply_loaded(String::from("t.ron"), data), Ok(()));
    assert_eq!(f.tree.nodes.len(), 2);
    for (a, b) in f.tree.nodes.iter().zip(e.tree.nodes.iter()) {
        assert_eq!(a.id, b.id);
        assert_eq!(a.name, b.name);
        assert_eq!(a.position, b.position);
    }
    assert_eq!(f.tree.connections, e.tree.connections);
    assert_eq!(f.state.next_node_id, 3);
    assert!(!f.state.dirty);
    assert_eq!(f.state.current_file_path, Some(String::from("t.ron")));
}

#[test]
fn load_recomputes_next_id() {
    let mut e = dirty_editor();
    let data = SkillTreeSaveData {
        nodes: vec![node(4), node(17), node(2)],
        connections: vec![ConnectionData { from_id: 4, to_id: 17, curve_type: CurveType::Straight }],
        start_node_id: Some(4),
    };
    assert_eq!(e.apply_loaded(String::from("x.ron"), data), Ok(()));
    assert_eq!(e.state.next_node_id, 18);
    assert_eq!(e.create_node(Position { x: 0, y: 0 }), 18);
    let empty = SkillTreeSaveData { nodes: vec![], connections: vec![], start_node_id: None };
    assert_eq!(e.apply_loaded(String::from("y.ron"), empty), Ok(()));
    assert_eq!(e.state.next_node_id, 0);
    assert!(e.tree.nodes.is_empty());
}

#[test]
fn load_refuses_duplicate_ids() {
    let mut e = dirty_editor();
    e.state.show_load_dialog = true;
    let data = SkillTreeSaveData {
        nodes: vec![node(1), node(5), node(1)],
        connections: vec![],
        start_node_id: None,
    };
    assert_eq!(e.apply_loaded(String::from("x.ron"), data), Err(LoadError::DuplicateNodeId(1)));
    assert_eq!(e.tree.nodes.len(), 2);
    assert!(e.state.dirty);
    assert!(!e.state.show_load_dialog);
}

#[test]
fn load_refuses_largest_id() {
    let mut e = Editor::new();
    let data = SkillTreeSaveData {
        nodes: vec![node(0), node(u32::MAX)],
        connections: vec![],
        start_node_id: None,
    };
    assert_eq!(e.apply_loaded(String::from("x.ron"), data), Err(LoadError::IdSpaceExhausted));
    assert!(e.tree.nodes.is_empty());
}
