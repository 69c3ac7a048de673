//! Messages exchanged between the script thread and the UI thread.

pub mod color;
pub mod commands;
pub mod events;

pub use commands::{JsCommand, LogLevel, WidgetKind, WidgetKindView};
pub use events::{Modifiers, Number, UiEvent, UiEventView, WidgetActionKind, WidgetActionKindView};
pub use color::{ColorValue, ColorValueView};
