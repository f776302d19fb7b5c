//! Verified core logic of a component library for desktop user interfaces:
//! text editing with undo history, selection and list navigation, dock and
//! tab layout bookkeeping, number stepping, colour codes and key labels.

pub mod anchor;
pub mod blink;
pub mod charts;
pub mod colors;
pub mod dock;
pub mod dock_area;
pub mod dock_item;
pub mod dropdown;
pub mod history;
pub mod icon;
pub mod input;
pub mod keys;
pub mod lines;
pub mod menu;
pub mod number;
pub mod pattern;
pub mod saved_layout;
pub mod segment;
pub mod stack_panel;
pub mod tab_panel;
pub mod tiles;
pub mod tree_node;
pub mod utf;
pub mod widgets;
