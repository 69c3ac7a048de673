//! State owned by the UI thread.

pub mod creation;
pub mod driver;
pub mod handler;
pub mod reconcile;
pub mod widget_manager;
pub mod widgets;
