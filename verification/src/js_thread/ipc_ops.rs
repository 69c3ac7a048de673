//! The operations that the script calls: each builds the command that goes
//! to the UI thread. Waiting for an event gives the event's text.

use vstd::prelude::*;

use crate::ipc::commands::{JsCommand, LogLevel, WidgetKind, WidgetKindView};
use crate::ipc::events::{UiEvent, UiEventView};
use crate::js_thread::event_serializer::{event_text, serialize_event};
use crate::text::same_text;
use crate::ui::widget_manager::option_name;

verus! {

/// The kind that the script calls `name`: one of the kinds with a name of
/// its own, in either spelling, or else a custom kind of that name.
pub open spec fn kind_named(name: Seq<char>) -> WidgetKindView {
    if name == "Label"@ || name == "label"@ {
        WidgetKindView::Label
    } else if name == "Button"@ || name == "button"@ {
        WidgetKindView::Button
    } else if name == "TextInput"@ || name == "textInput"@ || name == "text_input"@ {
        WidgetKindView::TextInput
    } else if name == "TextArea"@ || name == "textArea"@ || name == "text_area"@ {
        WidgetKindView::TextArea
    } else if name == "Container"@ || name == "container"@ {
        WidgetKindView::Container
    } else if name == "Flex"@ || name == "flex"@ {
        WidgetKindView::Flex
    } else {
        WidgetKindView::Custom(name)
    }
}

/// The level that the script calls `name`; `Info` for any other word.
pub open spec fn level_named(name: Seq<char>) -> LogLevel {
    if name == "debug"@ {
        LogLevel::Debug
    } else if name == "info"@ {
        LogLevel::Info
    } else if name == "warn"@ {
        LogLevel::Warn
    } else if name == "error"@ {
        LogLevel::Error
    } else {
        LogLevel::Info
    }
}

/// The kind that the script calls `name`.
pub fn widget_kind_from_name(name: &str) -> (kind: WidgetKind)
    ensures
        kind@ == kind_named(name@),
{
    if same_text(name, "Label") || same_text(name, "label") {
        WidgetKind::Label
    } else if same_text(name, "Button") || same_text(name, "button") {
        WidgetKind::Button
    } else if same_text(name, "TextInput") || same_text(name, "textInput") || same_text(
        name,
        "text_input",
    ) {
        WidgetKind::TextInput
    } else if same_text(name, "TextArea") || same_text(name, "textArea") || same_text(
        name,
        "text_area",
    ) {
        WidgetKind::TextArea
    } else if same_text(name, "Container") || same_text(name, "container") {
        WidgetKind::Container
    } else if same_text(name, "Flex") || same_text(name, "flex") {
        WidgetKind::Flex
    } else {
        WidgetKind::Custom(name.to_owned())
    }
}

/// The level that the script calls `name`.
pub fn log_level_from_name(name: &str) -> (level: LogLevel)
    ensures
        level == level_named(name@),
{
    if same_text(name, "debug") {
        LogLevel::Debug
    } else if same_text(name, "info") {
        LogLevel::Info
    } else if same_text(name, "warn") {
        LogLevel::Warn
    } else if same_text(name, "error") {
        LogLevel::Error
    } else {
        LogLevel::Info
    }
}

/// The command that sets the window's title.
pub fn op_set_title<S, D>(title: &str) -> (command: JsCommand<S, D>)
    ensures
        command matches JsCommand::SetTitle(t) && t@ == title@,
{
    JsCommand::SetTitle(title.to_owned())
}

/// The command that creates the widget `id`, of the kind called `kind`,
/// under `parent_id`, without text, style or data.
pub fn op_create_widget<S, D>(id: &str, kind: &str, parent_id: Option<String>) -> (command:
    JsCommand<S, D>)
    ensures
        command matches JsCommand::CreateWidget {
            id: new_id,
            kind: new_kind,
            parent_id: new_parent,
            text,
            style,
            data,
        } && new_id@ == id@ && new_kind@ == kind_named(kind@) && option_name(new_parent)
            == option_name(parent_id) && text is None && style is None && data is None,
{
    JsCommand::CreateWidget {
        id: id.to_owned(),
        kind: widget_kind_from_name(kind),
        parent_id,
        text: None,
        style: None,
        data: None,
    }
}

/// The command that removes the widget `id`.
pub fn op_remove_widget<S, D>(id: &str) -> (command: JsCommand<S, D>)
    ensures
        command matches JsCommand::RemoveWidget { id: gone } && gone@ == id@,
{
    JsCommand::RemoveWidget { id: id.to_owned() }
}

/// The command that sets the text of the widget `id`.
pub fn op_set_widget_text<S, D>(id: &str, text: &str) -> (command: JsCommand<S, D>)
    ensures
        command matches JsCommand::SetWidgetText { id: target, text: new_text } && target@ == id@
            && new_text@ == text@,
{
    JsCommand::SetWidgetText { id: id.to_owned(), text: text.to_owned() }
}

/// The command that shows or hides the widget `id`.
pub fn op_set_widget_visible<S, D>(id: &str, visible: bool) -> (command: JsCommand<S, D>)
    ensures
        command matches JsCommand::SetWidgetVisible { id: target, visible: shown } && target@
            == id@ && shown == visible,
{
    JsCommand::SetWidgetVisible { id: id.to_owned(), visible }
}

/// The command that resizes the window.
pub fn op_resize_window<S, D>(width: u32, height: u32) -> (command: JsCommand<S, D>)
    ensures
        command matches JsCommand::ResizeWindow { width: w, height: h } && w == width && h
            == height,
{
    JsCommand::ResizeWindow { width, height }
}

/// The command that closes the window.
pub fn op_close_window<S, D>() -> (command: JsCommand<S, D>)
    ensures
        command is CloseWindow,
{
    JsCommand::CloseWindow
}

/// The command that leaves the application.
pub fn op_exit_app<S, D>() -> (command: JsCommand<S, D>)
    ensures
        command is ExitApp,
{
    JsCommand::ExitApp
}

/// The command that logs `message` at the level called `level`.
pub fn op_log<S, D>(level: &str, message: &str) -> (command: JsCommand<S, D>)
    ensures
        command matches JsCommand::Log { level: l, message: m } && l == level_named(level@) && m@
            == message@,
{
    JsCommand::Log { level: log_level_from_name(level), message: message.to_owned() }
}

/// What the script is told about the outcome of a wait: the event that was
/// received, or the disconnected sentinel where the queue is closed.
pub open spec fn received_event(received: Option<UiEvent>) -> UiEventView {
    match received {
        Some(event) => event@,
        None => UiEventView::Disconnected,
    }
}

/// The text handed to the script after a wait for the next event:
/// `received` is the event that came, or `None` where the queue is closed,
/// which the script is told as the disconnected sentinel.
pub fn op_wait_for_event(received: Option<UiEvent>) -> (text: String)
    ensures
        text@ == event_text(received_event(received)),
{
    match received {
        Some(event) => serialize_event(&event),
        None => serialize_event(&UiEvent::Disconnected),
    }
}

} // verus!
