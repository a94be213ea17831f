//! Plain data of a skill tree: nodes, their stats, connections and the
//! record that is written to and read from disk.
//!
//! Coordinates, radii and stat values are single-precision floats in the
//! editor; the library stores each one as its IEEE-754 bit pattern (`u32`),
//! which it carries and compares but never interprets.
use vstd::prelude::*;

verus! {

/// The role a node plays in the tree.
#[derive(Clone, Copy, Debug, PartialEq, Eq, Structural)]
pub enum NodeType {
    Normal,
    Notable,
    Keystone,
    Start,
}

/// How a stat modifier is applied.
#[derive(Clone, Copy, Debug, PartialEq, Eq, Structural)]
pub enum ModifierType {
    Flat,
    Percentage,
}

/// A 2D position; `x` and `y` are the bit patterns of `f32` coordinates.
#[derive(Clone, Copy, Debug, PartialEq, Eq, Structural)]
pub struct Position {
    pub x: u32,
    pub y: u32,
}

/// The shape of a connection. `radius` is the bit pattern of an `f32`.
#[derive(Clone, Copy, Debug, PartialEq, Eq, Structural)]
pub enum CurveType {
    Straight,
    Arc { radius: u32, clockwise: bool },
}

impl Default for CurveType {
    /// A connection without a recorded shape is straight.
    fn default() -> (r: CurveType)
        ensures
            r == CurveType::Straight,
    {
        CurveType::Straight
    }
}

/// A directed edge between two nodes, identified by their ids.
#[derive(Clone, Copy, Debug, PartialEq, Eq, Structural)]
pub struct ConnectionData {
    pub from_id: u32,
    pub to_id: u32,
    pub curve_type: CurveType,
}

/// One stat granted by a node; `value` is the bit pattern of an `f32`.
#[derive(Clone, Debug)]
pub struct StatModifier {
    pub stat_name: String,
    pub value: u32,
    pub modifier_type: ModifierType,
}

/// The mathematical value of a [`StatModifier`].
pub struct StatView {
    pub stat_name: Seq<char>,
    pub value: u32,
    pub modifier_type: ModifierType,
}

impl View for StatModifier {
    type V = StatView;

    open spec fn view(&self) -> StatView {
        StatView { stat_name: self.stat_name@, value: self.value, modifier_type: self.modifier_type }
    }
}

pub open spec fn stats_view(stats: Seq<StatModifier>) -> Seq<StatView> {
    stats.map_values(|s: StatModifier| s@)
}

impl StatModifier {
    /// A fresh stat as the editor adds it: "New Stat", zero, flat.
    pub fn new_default() -> (r: StatModifier)
        ensures
            r.stat_name@ == "New Stat"@,
            r.value == 0,
            r.modifier_type == ModifierType::Flat,
    {
        StatModifier { stat_name: String::from_str("New Stat"), value: 0, modifier_type: ModifierType::Flat }
    }

    /// An independent copy with the same value.
    pub fn copied(&self) -> (r: StatModifier)
        ensures
            r@ == self@,
    {
        StatModifier {
            stat_name: self.stat_name.clone(),
            value: self.value,
            modifier_type: self.modifier_type,
        }
    }
}

/// Copies a list of stats, element by element.
pub fn copy_stats(stats: &Vec<StatModifier>) -> (r: Vec<StatModifier>)
    ensures
        stats_view(r@) == stats_view(stats@),
{
    let mut r: Vec<StatModifier> = Vec::new();
    let mut i: usize = 0;
    while i < stats.len()
        invariant
            i <= stats@.len(),
            r@.len() == i,
            forall|k: int| 0 <= k < i ==> r@[k]@ == stats@[k]@,
        decreases stats@.len() - i,
    {
        r.push(stats[i].copied());
        i = i + 1;
    }
    assert(stats_view(r@) =~= stats_view(stats@));
    r
}

/// All attributes of one node.
#[derive(Clone, Debug)]
pub struct SkillNodeData {
    pub id: u32,
    pub name: String,
    pub description: String,
    pub image_name: String,
    pub position: Position,
    pub node_type: NodeType,
    pub stats: Vec<StatModifier>,
}

/// The mathematical value of a [`SkillNodeData`].
pub struct NodeView {
    pub id: u32,
    pub name: Seq<char>,
    pub description: Seq<char>,
    pub image_name: Seq<char>,
    pub position: Position,
    pub node_type: NodeType,
    pub stats: Seq<StatView>,
}

impl View for SkillNodeData {
    type V = NodeView;

    open spec fn view(&self) -> NodeView {
        NodeView {
            id: self.id,
            name: self.name@,
            description: self.description@,
            image_name: self.image_name@,
            position: self.position,
            node_type: self.node_type,
            stats: stats_view(self.stats@),
        }
    }
}

pub open spec fn nodes_view(nodes: Seq<SkillNodeData>) -> Seq<NodeView> {
    nodes.map_values(|n: SkillNodeData| n@)
}

impl SkillNodeData {
    /// An independent copy with the same value.
    pub fn copied(&self) -> (r: SkillNodeData)
        ensures
            r@ == self@,
    {
        SkillNodeData {
            id: self.id,
            name: self.name.clone(),
            description: self.description.clone(),
            image_name: self.image_name.clone(),
            position: self.position,
            node_type: self.node_type,
            stats: copy_stats(&self.stats),
        }
    }
}

/// Copies a list of nodes, element by element.
pub fn copy_nodes(nodes: &Vec<SkillNodeData>) -> (r: Vec<SkillNodeData>)
    ensures
        nodes_view(r@) == nodes_view(nodes@),
{
    let mut r: Vec<SkillNodeData> = Vec::new();
    let mut i: usize = 0;
    while i < nodes.len()
        invariant
            i <= nodes@.len(),
            r@.len() == i,
            forall|k: int| 0 <= k < i ==> r@[k]@ == nodes@[k]@,
        decreases nodes@.len() - i,
    {
        r.push(nodes[i].copied());
        i = i + 1;
    }
    assert(nodes_view(r@) =~= nodes_view(nodes@));
    r
}

/// Copies a list of connections.
pub fn copy_connections(connections: &Vec<ConnectionData>) -> (r: Vec<ConnectionData>)
    ensures
        r@ == connections@,
{
    let mut r: Vec<ConnectionData> = Vec::new();
    let mut i: usize = 0;
    while i < connections.len()
        invariant
            i <= connections@.len(),
            r@ == connections@.subrange(0, i as int),
        decreases connections@.len() - i,
    {
        r.push(connections[i]);
        i = i + 1;
        assert(r@ =~= connections@.subrange(0, i as int));
    }
    assert(connections@.subrange(0, i as int) =~= connections@);
    r
}

/// What a saved file holds: every node and the ordered connection list.
/// `start_node_id` is read and written but has no meaning to the editor.
#[derive(Clone, Debug)]
pub struct SkillTreeSaveData {
    pub nodes: Vec<SkillNodeData>,
    pub connections: Vec<ConnectionData>,
    pub start_node_id: Option<u32>,
}

} // verus!
