//! The driver of the UI thread: it takes what the event loop hands it,
//! either a command from the script or an interaction with a native widget,
//! and says what follows.

use vstd::prelude::*;

use crate::ipc::commands::JsCommand;
use crate::ipc::events::{UiEvent, UiEventView, WidgetActionKind, WidgetActionKindView};
use crate::text::{contains_text, occurs_in};
use crate::ui::handler::{dispatched, handle_js_command, UiAction};
use crate::ui::widget_manager::{NativeHandle, RegistryView, WidgetManager};

verus! {

/// What the event loop hands the driver.
#[derive(Debug, Clone, PartialEq)]
pub enum DriverInput<S, D> {
    /// A command that the script thread sent.
    Command(JsCommand<S, D>),
    /// The native widget `widget` reported an action whose type is called
    /// `action_type`.
    Interaction { widget: NativeHandle, action_type: String },
}

/// What the driver asks for in return.
#[derive(Debug, Clone, PartialEq)]
pub enum DriverOutput<S, D> {
    /// Carry out `action` in the native tree or the window.
    Action(UiAction<S, D>),
    /// Send `event` to the script thread.
    Event(UiEvent),
    /// Nothing.
    Nothing,
}

/// The widget action that a native action of the type `action_type` stands
/// for: a click where the type is a button press, none otherwise.
pub open spec fn action_for(action_type: Seq<char>) -> Option<WidgetActionKindView> {
    if occurs_in("ButtonPress"@, action_type) {
        Some(WidgetActionKindView::Click)
    } else {
        None
    }
}

/// The widget action that a native action of the type `action_type` stands for.
pub fn action_of(action_type: &str) -> (action: Option<WidgetActionKind>)
    ensures
        match action {
            Some(kind) => action_for(action_type@) == Some(kind@),
            None => action_for(action_type@) is None,
        },
{
    if contains_text(action_type, "ButtonPress") {
        Some(WidgetActionKind::Click)
    } else {
        None
    }
}

/// The event that reports `action` on the native widget `handle`: it names
/// the widget as the script knows it. `None` where no widget is registered
/// for `handle`: such an interaction is dropped.
pub fn widget_event(
    widget_manager: &WidgetManager,
    handle: NativeHandle,
    action: WidgetActionKind,
) -> (event: Option<UiEvent>)
    ensures
        match event {
            Some(e) => widget_manager@.handles.contains_key(handle) && e@
                == (UiEventView::WidgetAction {
                widget_id: widget_manager@.handles[handle],
                action: action@,
            }),
            None => !widget_manager@.handles.contains_key(handle),
        },
{
    match widget_manager.id_of(handle) {
        Some(widget_id) => Some(UiEvent::WidgetAction { widget_id, action }),
        None => None,
    }
}

/// The driver of the UI thread. It owns the registry.
pub struct AppJsDriver {
    /// The registry of the widgets that the script created.
    pub widget_manager: WidgetManager,
}

/// What the driver does with `input`: a command is dispatched; an
/// interaction becomes an event where its widget is registered and its type
/// stands for a widget action, and is dropped otherwise.
pub open spec fn driven<S, D>(
    before: RegistryView,
    input: DriverInput<S, D>,
    after: RegistryView,
    output: DriverOutput<S, D>,
) -> bool {
    match input {
        DriverInput::Command(command) => output matches DriverOutput::Action(action) && dispatched(
            before,
            command,
            after,
            action,
        ),
        DriverInput::Interaction { widget, action_type } => {
            &&& after == before
            &&& if before.handles.contains_key(widget) && action_for(action_type@) is Some {
                output matches DriverOutput::Event(e) && e@ == (UiEventView::WidgetAction {
                    widget_id: before.handles[widget],
                    action: action_for(action_type@)->0,
                })
            } else {
                output is Nothing
            }
        },
    }
}

impl AppJsDriver {
    /// A driver with an empty registry.
    pub fn new() -> (driver: AppJsDriver)
        ensures
            driver.widget_manager.wf(),
            driver.widget_manager@ == RegistryView::initial(),
    {
        AppJsDriver { widget_manager: WidgetManager::new() }
    }

    /// Takes what the event loop hands over and says what follows.
    pub fn on_action<S, D>(&mut self, input: DriverInput<S, D>) -> (output: DriverOutput<S, D>)
        requires
            old(self).widget_manager.wf(),
        ensures
            final(self).widget_manager.wf(),
            driven(old(self).widget_manager@, input, final(self).widget_manager@, output),
    {
        match input {
            DriverInput::Command(command) => DriverOutput::Action(
                handle_js_command(&mut self.widget_manager, command),
            ),
            DriverInput::Interaction { widget, action_type } => {
                match action_of(action_type.as_str()) {
                    Some(action) => match widget_event(&self.widget_manager, widget, action) {
                        Some(event) => DriverOutput::Event(event),
                        None => DriverOutput::Nothing,
                    },
                    None => DriverOutput::Nothing,
                }
            },
        }
    }
}

} // verus!
