//! Layout modelling and synchronisation for terminal workspaces.
//!
//! The crate converts between three descriptions of a workspace layout: the
//! textual `ROW(...)`/`COL(...)` expression language, a catalog of named
//! layout parts, and the pane geometry reported by a terminal multiplexer.
//! It also tells when a live layout has drifted from a recorded one.

pub mod text;

pub mod types;
pub mod layout;
pub mod data;
pub mod infrastructure;
pub mod ipc;
pub mod overlay;
pub mod tray_menu_ids;
pub mod help;
pub mod cli;
pub mod command;
pub mod sys;
pub mod service;
