//! Protocol and widget-tree bookkeeping for a script-driven desktop UI.
//!
//! A script thread sends commands to the thread that owns the native widget
//! tree, and that thread reports interactions back as events. This crate holds
//! the message vocabulary, the wire encoding of events, and the registry that
//! keeps script-chosen widget names in step with the native tree.

pub mod ipc;
pub mod js_thread;
pub mod text;
pub mod ui;
