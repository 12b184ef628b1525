//! Pane layout engine for a tabbed, splittable terminal shell, with the
//! rules of the shell's other parts.
//!
//! The core is the binary split tree that arranges panes (`layout`), the
//! geometry pass that turns a tree into pixel rectangles and divider
//! handles (`compute`), the structural edits on the tree (`transform`), the
//! per-tab workspace bookkeeping (`workspace`), and the state machines
//! behind pane and divider dragging (`drag`). All geometry is integer pixel
//! arithmetic (`geometry`): a rectangle holds the pixels from its `min`
//! corner up to, not including, its `max` corner, and split ratios are
//! fixed-point parts per million.
//!
//! Around the core stand the rules that the shell's surroundings follow:
//! what keys, menu items and palette commands ask for (`actions`, `menu`),
//! theme colors (`config`), git status, pinned files and their events
//! (`context`), project roots (`project`), working directory tracking
//! (`pty_tracker`), directory scans and the order of their listings (`scanner`, `listing`),
//! file watching (`watcher`),
//! and the state behind the interface components (`ui`). Reading clocks,
//! files, repositories and input is left to the caller, who hands the
//! results in as plain values.

pub mod actions;
pub mod compute;
pub mod config;
pub mod context;
pub mod drag;
pub mod geometry;
pub mod layout;
pub mod listing;
pub mod menu;
pub mod project;
pub mod pty_tracker;
pub mod scanner;
pub mod seq_facts;
pub mod text;
pub mod transform;
pub mod ui;
pub mod watcher;
pub mod workspace;
