//! The command dispatcher: what the UI thread does for each command.

use vstd::prelude::*;

use crate::ipc::commands::{JsCommand, LogLevel, WidgetKind};
use crate::ui::creation::{
    construction_of, construction_text, create_and_add_widget, rejection, takes_data, Insertion,
    Rejection,
};
use crate::ui::widget_manager::{
    option_name, parent_key_of, NativeHandle, RegistryView, WidgetManager,
};

verus! {

/// Why a command was dropped.
#[derive(Debug, Clone, PartialEq, Eq)]
pub enum Diagnostic {
    /// The widget `id` cannot be created.
    Rejected { id: String, reason: Rejection },
    /// No widget is registered under `id`.
    UnknownWidget { id: String },
}

/// What the UI thread has to do for a command.
#[derive(Debug, Clone, PartialEq)]
pub enum UiAction<S, D> {
    /// Set the window's title.
    SetTitle(String),
    /// Build a widget and insert it into the native tree; then report the
    /// outcome with [`crate::ui::creation::finish_insertion`].
    InsertWidget(Insertion<S, D>),
    /// Remove the native widget `handle` with everything below it. It stood
    /// at the position `child_index` under the native widget `parent`;
    /// `parent` is `None` where it stood under the root container, or under
    /// a name that no widget bears.
    RemoveWidget { handle: NativeHandle, parent: Option<NativeHandle>, child_index: usize },
    /// Set the text of the native widget `handle`, which is of kind `kind`.
    SetWidgetText { handle: NativeHandle, kind: WidgetKind, text: String },
    /// Show or hide the native widget `handle`.
    SetWidgetVisible { handle: NativeHandle, visible: bool },
    /// Resize the window.
    ResizeWindow { width: u32, height: u32 },
    /// Close the window. No later command is sure to be processed.
    CloseWindow,
    /// Leave the application. No later command is sure to be processed.
    ExitApp,
    /// Write `line` to the diagnostic sink.
    Log { line: String },
    /// Nothing: the command was dropped for the reason given.
    Dropped(Diagnostic),
}

/// The word that starts a log line of the level `level`.
pub open spec fn level_prefix(level: LogLevel) -> Seq<char> {
    match level {
        LogLevel::Debug => "[DEBUG]"@,
        LogLevel::Info => "[INFO]"@,
        LogLevel::Warn => "[WARN]"@,
        LogLevel::Error => "[ERROR]"@,
    }
}

/// The log line for `message` at the level `level`.
pub open spec fn log_line(level: LogLevel, message: Seq<char>) -> Seq<char> {
    level_prefix(level) + " "@ + message
}

/// The log line for `message` at the level `level`.
pub fn format_log_line(level: LogLevel, message: &str) -> (line: String)
    ensures
        line@ == log_line(level, message@),
{
    let mut line = match level {
        LogLevel::Debug => "[DEBUG]".to_owned(),
        LogLevel::Info => "[INFO]".to_owned(),
        LogLevel::Warn => "[WARN]".to_owned(),
        LogLevel::Error => "[ERROR]".to_owned(),
    };
    line.append(" ");
    line.append(message);
    line
}

/// What handling `command` does: `before` and `after` are the registry
/// before and after, `action` is what is left to the UI thread.
///
/// Only the removal of a registered widget changes the registry. A command
/// that names an unknown widget, or asks for a widget that cannot be created,
/// is dropped with a diagnostic.
pub open spec fn dispatched<S, D>(
    before: RegistryView,
    command: JsCommand<S, D>,
    after: RegistryView,
    action: UiAction<S, D>,
) -> bool {
    &&& after == match command {
        JsCommand::RemoveWidget { id } => before.remove(id@),
        _ => before,
    }
    &&& match command {
        JsCommand::SetTitle(title) => action matches UiAction::SetTitle(t) && t@ == title@,
        JsCommand::CreateWidget { id, kind, parent_id, text, style, data } => {
            match rejection(before, id@, option_name(parent_id)) {
                Some(reason) => action matches UiAction::Dropped(
                    Diagnostic::Rejected { id: dropped, reason: why },
                ) && dropped@ == id@ && why == reason,
                None => {
                    &&& action matches UiAction::InsertWidget(insertion)
                    &&& insertion.id@ == id@
                    &&& insertion.kind@ == kind@
                    &&& option_name(insertion.parent_id) == option_name(parent_id)
                    &&& insertion.parent == match parent_id {
                        Some(p) => Some(before.widgets[p@].widget_id),
                        None => None,
                    }
                    &&& insertion.child_index == before.child_count(
                        parent_key_of(option_name(parent_id)),
                    )
                    &&& insertion.construction == construction_of(kind@)
                    &&& option_name(insertion.text) == construction_text(kind@, option_name(text))
                    &&& insertion.style == style
                    &&& insertion.data == if takes_data(construction_of(kind@)) {
                        data
                    } else {
                        None
                    }
                },
            }
        },
        JsCommand::RemoveWidget { id } => if before.widgets.contains_key(id@) {
            action matches UiAction::RemoveWidget { handle, parent, child_index } && handle
                == before.widgets[id@].widget_id && parent == (match before.widgets[id@].parent_id {
                Some(p) => if before.widgets.contains_key(p) {
                    Some(before.widgets[p].widget_id)
                } else {
                    None
                },
                None => None,
            }) && child_index == before.widgets[id@].child_index
        } else {
            action matches UiAction::Dropped(Diagnostic::UnknownWidget { id: dropped })
                && dropped@ == id@
        },
        JsCommand::SetWidgetText { id, text } => if before.widgets.contains_key(id@) {
            action matches UiAction::SetWidgetText { handle, kind, text: new_text } && handle
                == before.widgets[id@].widget_id && kind@ == before.widgets[id@].kind
                && new_text@ == text@
        } else {
            action matches UiAction::Dropped(Diagnostic::UnknownWidget { id: dropped })
                && dropped@ == id@
        },
        JsCommand::SetWidgetVisible { id, visible } => if before.widgets.contains_key(id@) {
            action matches UiAction::SetWidgetVisible { handle, visible: shown } && handle
                == before.widgets[id@].widget_id && shown == visible
        } else {
            action matches UiAction::Dropped(Diagnostic::UnknownWidget { id: dropped })
                && dropped@ == id@
        },
        JsCommand::ResizeWindow { width, height } => action matches UiAction::ResizeWindow {
            width: w,
            height: h,
        } && w == width && h == height,
        JsCommand::CloseWindow => action is CloseWindow,
        JsCommand::ExitApp => action is ExitApp,
        JsCommand::Log { level, message } => action matches UiAction::Log { line } && line@
            == log_line(level, message@),
    }
}

/// Handles one command from the script thread: updates the registry and
/// says what is to be done to the native tree or the window.
pub fn handle_js_command<S, D>(
    widget_manager: &mut WidgetManager,
    command: JsCommand<S, D>,
) -> (action: UiAction<S, D>)
    requires
        old(widget_manager).wf(),
    ensures
        final(widget_manager).wf(),
        dispatched(old(widget_manager)@, command, final(widget_manager)@, action),
{
    match command {
        JsCommand::SetTitle(title) => UiAction::SetTitle(title),
        JsCommand::CreateWidget { id, kind, parent_id, text, style, data } => {
            let dropped = id.clone();
            match create_and_add_widget(widget_manager, id, kind, parent_id, text, style, data) {
                Ok(insertion) => UiAction::InsertWidget(insertion),
                Err(reason) => UiAction::Dropped(Diagnostic::Rejected { id: dropped, reason }),
            }
        },
        JsCommand::RemoveWidget { id } => {
            let ghost before = widget_manager@;
            match widget_manager.remove_widget_subtree(id.as_str()) {
                Some(removed) => {
                    let parent = match &removed.parent_id {
                        Some(p) => {
                            proof {
                                crate::ui::widget_manager::lemma_parent_not_under(before, id@);
                            }
                            match widget_manager.get(p.as_str()) {
                                Some(info) => Some(info.widget_id),
                                None => None,
                            }
                        },
                        None => None,
                    };
                    UiAction::RemoveWidget {
                        handle: removed.widget_id,
                        parent,
                        child_index: removed.child_index,
                    }
                },
                None => UiAction::Dropped(Diagnostic::UnknownWidget { id }),
            }
        },
        JsCommand::SetWidgetText { id, text } => match widget_manager.get(id.as_str()) {
            Some(info) => UiAction::SetWidgetText {
                handle: info.widget_id,
                kind: info.kind.duplicate(),
                text,
            },
            None => UiAction::Dropped(Diagnostic::UnknownWidget { id }),
        },
        JsCommand::SetWidgetVisible { id, visible } => match widget_manager.get(id.as_str()) {
            Some(info) => UiAction::SetWidgetVisible { handle: info.widget_id, visible },
            None => UiAction::Dropped(Diagnostic::UnknownWidget { id }),
        },
        JsCommand::ResizeWindow { width, height } => UiAction::ResizeWindow { width, height },
        JsCommand::CloseWindow => UiAction::CloseWindow,
        JsCommand::ExitApp => UiAction::ExitApp,
        JsCommand::Log { level, message } => UiAction::Log {
            line: format_log_line(level, message.as_str()),
        },
    }
}

/// A creation under an unknown parent is a safe no-op: the command is
/// dropped, nothing is to be done to the native tree, and the registry stays
/// as it was.
pub proof fn lemma_unknown_parent_is_dropped<S, D>(
    before: RegistryView,
    command: JsCommand<S, D>,
    after: RegistryView,
    action: UiAction<S, D>,
)
    requires
        dispatched(before, command, after, action),
        command matches JsCommand::CreateWidget { id, parent_id, .. } && parent_id is Some
            && !before.widgets.contains_key(parent_id->0@),
    ensures
        after == before,
        action is Dropped,
{
}

/// Removal through the dispatcher is idempotent: a second removal of the
/// same name, or the removal of a name that was never created, is dropped
/// and leaves the registry as it was.
pub proof fn lemma_redundant_removal_is_dropped<S, D>(
    before: RegistryView,
    command: JsCommand<S, D>,
    after: RegistryView,
    action: UiAction<S, D>,
    again: RegistryView,
    second: UiAction<S, D>,
)
    requires
        command is RemoveWidget,
        dispatched(before, command, after, action),
        dispatched(after, command, again, second),
    ensures
        again == after,
        second is Dropped,
        !after.widgets.contains_key(command->RemoveWidget_id@),
{
    let id = command->RemoveWidget_id@;
    crate::ui::widget_manager::lemma_under_self(before, id);
    crate::ui::widget_manager::lemma_remove_idempotent(before, id);
}

} // verus!
