//! Data model, editing rules and file workflow of a skill-tree editor.
pub mod components;
pub mod graph;
pub mod paths;
pub mod decimal;
pub mod editor;
