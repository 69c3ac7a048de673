use appjs::ipc::commands::{JsCommand, LogLevel, WidgetKind};
use appjs::ipc::events::{UiEvent, WidgetActionKind};
use appjs::js_thread::event_serializer::serialize_event;
use appjs::ui::creation::{
    create_and_add_widget, finish_insertion, Construction, Insertion, Rejection,
};
use appjs::ui::driver::{action_of, widget_event, AppJsDriver, DriverInput, DriverOutput};
use appjs::ui::handler::{format_log_line, handle_js_command, Diagnostic, UiAction};
use appjs::ui::widget_manager::{NativeHandle, WidgetInfo, WidgetManager};
use std::collections::HashMap;

type Command = JsCommand<u8, u8>;
type Action = UiAction<u8, u8>;

fn create(id: &str, kind: WidgetKind, parent: Option<&str>, text: Option<&str>) -> Command {
    JsCommand::CreateWidget {
        id: id.to_string(),
        kind,
        parent_id: parent.map(|p| p.to_string()),
        text: text.map(|t| t.to_string()),
        style: None,
        data: None,
    }
}

/// Dispatches a creation and plays the native toolkit: the widget gets `handle`.
fn create_as(manager: &mut WidgetManager, command: Command, handle: u64) -> Insertion<u8, u8> {
    match handle_js_command(manager, command) {
        UiAction::InsertWidget(insertion) => {
            assert!(finish_insertion(manager, &insertion, Some(NativeHandle(handle))));
            insertion
        }
        other => panic!("expected an insertion, got {:?}", other),
    }
}

fn index_of(manager: &WidgetManager, id: &str) -> usize {
    manager.get(id).unwrap().child_index
}

#[test]
fn children_of_one_parent_are_numbered_in_call_order() {
    let mut manager = WidgetManager::new();
    create_as(&mut manager, create("panel", WidgetKind::Flex, None, None), 1);
    let names = ["a", "b", "c", "d", "e"];
    for (i, name) in names.iter().enumerate() {
        let insertion = create_as(
            &mut manager,
            create(name, WidgetKind::Label, Some("panel"), Some("x")),
            10 + i as u64,
        );
        assert_eq!(insertion.child_index, i);
        assert_eq!(insertion.parent, Some(NativeHandle(1)));
    }
    for (i, name) in names.iter().enumerate() {
        assert_eq!(index_of(&manager, name), i);
    }
    let listed: Vec<String> = manager.parent_to_children.get("panel").unwrap().clone();
    assert_eq!(listed, vec!["a", "b", "c", "d", "e"]);
    assert_eq!(manager.next_child_index("panel"), 5);
    assert_eq!(manager.next_child_index("__root__"), 1);
}

#[test]
fn removing_the_middle_child_closes_the_gap() {
    let mut manager = WidgetManager::new();
    create_as(&mut manager, create("A", WidgetKind::Button, None, None), 1);
    create_as(&mut manager, create("B", WidgetKind::Button, None, None), 2);
    create_as(&mut manager, create("C", WidgetKind::Button, None, None), 3);
    assert_eq!(index_of(&manager, "C"), 2);

    let action: Action =
        handle_js_command(&mut manager, JsCommand::RemoveWidget { id: "B".to_string() });
    assert_eq!(
        action,
        UiAction::RemoveWidget { handle: NativeHandle(2), parent: None, child_index: 1 }
    );

    assert_eq!(index_of(&manager, "A"), 0);
    assert_eq!(index_of(&manager, "C"), 1);
    assert!(manager.get("B").is_none());
    let root: Vec<String> = manager.parent_to_children.get("__root__").unwrap().clone();
    assert_eq!(root, vec!["A", "C"]);
    assert_eq!(manager.next_child_index("__root__"), 2);
}

#[test]
fn removing_a_widget_removes_everything_below_it() {
    let mut manager = WidgetManager::new();
    create_as(&mut manager, create("A", WidgetKind::Flex, None, None), 1);
    create_as(&mut manager, create("B", WidgetKind::Flex, Some("A"), None), 2);
    create_as(&mut manager, create("C", WidgetKind::Label, Some("B"), None), 3);
    create_as(&mut manager, create("other", WidgetKind::Label, None, None), 4);

    let removed = manager.remove_widget_subtree("A").unwrap();
    assert_eq!(removed.widget_id, NativeHandle(1));
    assert_eq!(removed.child_index, 0);

    for gone in ["A", "B", "C"] {
        assert!(manager.get(gone).is_none());
        assert!(!manager.widgets.contains_key(gone));
        assert!(!manager.parent_to_children.contains_key(gone));
    }
    for handle in [1, 2, 3] {
        assert_eq!(manager.id_of(NativeHandle(handle)), None);
    }
    let root: Vec<String> = manager.parent_to_children.get("__root__").unwrap().clone();
    assert_eq!(root, vec!["other"]);
    assert_eq!(index_of(&manager, "other"), 0);
    assert_eq!(manager.id_of(NativeHandle(4)), Some("other".to_string()));
    assert_eq!(manager.widgets.len(), 1);
    assert_eq!(manager.parent_to_children.len(), 2);
}

#[test]
fn a_removal_names_the_place_the_widget_had() {
    let mut manager = WidgetManager::new();
    create_as(&mut manager, create("panel", WidgetKind::Flex, None, None), 1);
    create_as(&mut manager, create("a", WidgetKind::Label, Some("panel"), None), 2);
    create_as(&mut manager, create("b", WidgetKind::Label, Some("panel"), None), 3);
    let action: Action =
        handle_js_command(&mut manager, JsCommand::RemoveWidget { id: "b".to_string() });
    assert_eq!(
        action,
        UiAction::RemoveWidget {
            handle: NativeHandle(3),
            parent: Some(NativeHandle(1)),
            child_index: 1
        }
    );
}

#[test]
fn removal_is_idempotent() {
    let mut manager = WidgetManager::new();
    create_as(&mut manager, create("keep", WidgetKind::Label, None, None), 1);
    create_as(&mut manager, create("gone", WidgetKind::Label, None, None), 2);

    assert!(manager.remove_widget_subtree("gone").is_some());
    let widgets_after_first = manager.widgets.len();
    assert!(manager.remove_widget_subtree("gone").is_none());
    assert!(manager.remove_widget_subtree("never-created").is_none());
    assert!(manager.remove_widget_subtree("__root__").is_none());
    assert_eq!(manager.widgets.len(), widgets_after_first);
    assert_eq!(index_of(&manager, "keep"), 0);
    assert_eq!(manager.current_child_count("__root__"), 1);

    let action: Action =
        handle_js_command(&mut manager, JsCommand::RemoveWidget { id: "gone".to_string() });
    assert_eq!(
        action,
        UiAction::Dropped(Diagnostic::UnknownWidget { id: "gone".to_string() })
    );
}

#[test]
fn creation_under_an_unknown_parent_is_dropped() {
    let mut manager = WidgetManager::new();
    let action: Action =
        handle_js_command(&mut manager, create("x", WidgetKind::Label, Some("missing"), None));
    assert_eq!(
        action,
        UiAction::Dropped(Diagnostic::Rejected {
            id: "x".to_string(),
            reason: Rejection::UnknownParent
        })
    );
    assert!(manager.get("x").is_none());
    assert!(manager.widgets.is_empty());
    assert_eq!(manager.parent_to_children.len(), 1);
    assert!(!manager.parent_to_children.contains_key("missing"));
}

#[test]
fn a_name_cannot_be_taken_twice_nor_be_the_root_key() {
    let mut manager = WidgetManager::new();
    create_as(&mut manager, create("a", WidgetKind::Label, None, None), 1);
    let again: Result<Insertion<u8, u8>, Rejection> = create_and_add_widget(
        &manager,
        "a".to_string(),
        WidgetKind::Button,
        None,
        None,
        None,
        None,
    );
    assert_eq!(again, Err(Rejection::DuplicateId));
    let root: Result<Insertion<u8, u8>, Rejection> = create_and_add_widget(
        &manager,
        "__root__".to_string(),
        WidgetKind::Button,
        None,
        None,
        None,
        None,
    );
    assert_eq!(root, Err(Rejection::ReservedId));
    assert_eq!(manager.widgets.len(), 1);
    assert_eq!(manager.get("a").unwrap().kind, WidgetKind::Label);
}

#[test]
fn a_widget_is_not_created_under_its_own_descendant() {
    let mut manager = WidgetManager::new();
    manager.register_widget(
        "child".to_string(),
        WidgetInfo {
            widget_id: NativeHandle(1),
            kind: WidgetKind::Flex,
            parent_id: Some("top".to_string()),
            child_index: 0,
        },
    );
    let action: Action =
        handle_js_command(&mut manager, create("top", WidgetKind::Flex, Some("child"), None));
    assert_eq!(
        action,
        UiAction::Dropped(Diagnostic::Rejected {
            id: "top".to_string(),
            reason: Rejection::OwnDescendant
        })
    );
    assert!(manager.get("top").is_none());

    let removed: Action =
        handle_js_command(&mut manager, JsCommand::RemoveWidget { id: "child".to_string() });
    assert_eq!(
        removed,
        UiAction::RemoveWidget { handle: NativeHandle(1), parent: None, child_index: 0 }
    );
}

#[test]
fn a_name_is_free_again_after_removal() {
    let mut manager = WidgetManager::new();
    create_as(&mut manager, create("a", WidgetKind::Label, None, None), 1);
    manager.remove_widget_subtree("a");
    let insertion = create_as(&mut manager, create("a", WidgetKind::Button, None, None), 2);
    assert_eq!(insertion.child_index, 0);
    assert_eq!(manager.get("a").unwrap().widget_id, NativeHandle(2));
    assert_eq!(manager.id_of(NativeHandle(1)), None);
}

#[test]
fn a_failed_native_insertion_registers_nothing() {
    let mut manager = WidgetManager::new();
    match handle_js_command(&mut manager, create("a", WidgetKind::Label, None, Some("t"))) {
        UiAction::InsertWidget(insertion) => {
            assert!(!finish_insertion(&mut manager, &insertion, None));
        }
        other => panic!("expected an insertion, got {:?}", other),
    }
    assert!(manager.widgets.is_empty());
    assert_eq!(manager.current_child_count("__root__"), 0);
}

#[test]
fn a_handle_in_use_is_not_registered_a_second_time() {
    let mut manager = WidgetManager::new();
    create_as(&mut manager, create("a", WidgetKind::Label, None, None), 7);
    match handle_js_command(&mut manager, create("b", WidgetKind::Label, None, None)) {
        UiAction::InsertWidget(insertion) => {
            assert!(!finish_insertion(&mut manager, &insertion, Some(NativeHandle(7))));
        }
        other => panic!("expected an insertion, got {:?}", other),
    }
    assert!(manager.get("b").is_none());
    assert_eq!(manager.id_of(NativeHandle(7)), Some("a".to_string()));
}

#[test]
fn each_kind_has_its_constructor_and_its_parts() {
    let manager = WidgetManager::new();
    let plan = |kind: WidgetKind| -> Insertion<u8, u8> {
        create_and_add_widget(
            &manager,
            "w".to_string(),
            kind,
            None,
            Some("text".to_string()),
            Some(1),
            Some(2),
        )
        .unwrap()
    };
    let label = plan(WidgetKind::Label);
    assert_eq!(label.construction, Construction::Label);
    assert_eq!(label.text.as_deref(), Some("text"));
    assert_eq!((label.style, label.data), (Some(1), None));

    let button = plan(WidgetKind::Button);
    assert_eq!(button.construction, Construction::Button);
    assert_eq!((button.text, button.style, button.data), (None, Some(1), None));

    let container = plan(WidgetKind::Container);
    assert_eq!(container.construction, Construction::Flex);
    assert_eq!(container.kind, WidgetKind::Container);
    assert_eq!((container.text, container.data), (None, Some(2)));

    let slider = plan(WidgetKind::Slider);
    assert_eq!(slider.construction, Construction::Slider);
    assert_eq!((slider.text, slider.data), (None, Some(2)));

    let checkbox = plan(WidgetKind::Checkbox);
    assert_eq!(checkbox.text.as_deref(), Some("text"));
    assert_eq!(checkbox.data, Some(2));

    let custom = plan(WidgetKind::Custom("gauge".to_string()));
    assert_eq!(custom.construction, Construction::FallbackLabel);
    assert_eq!(custom.text.as_deref(), Some("text"));
    assert_eq!(custom.data, None);
}

#[test]
fn a_custom_kind_without_text_shows_its_name() {
    let manager = WidgetManager::new();
    let plan: Insertion<u8, u8> = create_and_add_widget(
        &manager,
        "w".to_string(),
        WidgetKind::Custom("my \"gauge\"".to_string()),
        None,
        None,
        None,
        None,
    )
    .unwrap();
    assert_eq!(plan.text.as_deref(), Some("[Custom(\"my \\\"gauge\\\"\")]"));
}

#[test]
fn text_and_visibility_go_to_the_native_handle_and_change_nothing() {
    let mut manager = WidgetManager::new();
    create_as(&mut manager, create("a", WidgetKind::Label, None, None), 1);
    create_as(&mut manager, create("b", WidgetKind::Button, None, None), 2);

    let action: Action = handle_js_command(
        &mut manager,
        JsCommand::SetWidgetText { id: "b".to_string(), text: "Go".to_string() },
    );
    assert_eq!(
        action,
        UiAction::SetWidgetText {
            handle: NativeHandle(2),
            kind: WidgetKind::Button,
            text: "Go".to_string()
        }
    );
    let action: Action = handle_js_command(
        &mut manager,
        JsCommand::SetWidgetVisible { id: "a".to_string(), visible: false },
    );
    assert_eq!(action, UiAction::SetWidgetVisible { handle: NativeHandle(1), visible: false });
    assert_eq!(manager.get("b").unwrap().widget_id, NativeHandle(2));
    assert_eq!(index_of(&manager, "b"), 1);

    let action: Action = handle_js_command(
        &mut manager,
        JsCommand::SetWidgetText { id: "zz".to_string(), text: "Go".to_string() },
    );
    assert_eq!(action, UiAction::Dropped(Diagnostic::UnknownWidget { id: "zz".to_string() }));
    let action: Action = handle_js_command(
        &mut manager,
        JsCommand::SetWidgetVisible { id: "zz".to_string(), visible: true },
    );
    assert_eq!(action, UiAction::Dropped(Diagnostic::UnknownWidget { id: "zz".to_string() }));
    assert_eq!(manager.widgets.len(), 2);
}

#[test]
fn window_commands_are_forwarded() {
    let mut manager = WidgetManager::new();
    let title: Action = handle_js_command(&mut manager, JsCommand::SetTitle("T".to_string()));
    assert_eq!(title, UiAction::SetTitle("T".to_string()));
    let resize: Action =
        handle_js_command(&mut manager, JsCommand::ResizeWindow { width: 3, height: 4 });
    assert_eq!(resize, UiAction::ResizeWindow { width: 3, height: 4 });
    let close: Action = handle_js_command(&mut manager, JsCommand::CloseWindow);
    assert_eq!(close, UiAction::CloseWindow);
    let exit: Action = handle_js_command(&mut manager, JsCommand::ExitApp);
    assert_eq!(exit, UiAction::ExitApp);
    assert!(manager.widgets.is_empty());
}

#[test]
fn log_lines_start_with_their_level() {
    let mut manager = WidgetManager::new();
    let action: Action = handle_js_command(
        &mut manager,
        JsCommand::Log { level: LogLevel::Warn, message: "careful".to_string() },
    );
    assert_eq!(action, UiAction::Log { line: "[WARN] careful".to_string() });
    assert_eq!(format_log_line(LogLevel::Debug, "d"), "[DEBUG] d");
    assert_eq!(format_log_line(LogLevel::Info, ""), "[INFO] ");
    assert_eq!(format_log_line(LogLevel::Error, "e"), "[ERROR] e");
}

#[test]
fn an_interaction_with_an_unregistered_handle_is_dropped() {
    let mut manager = WidgetManager::new();
    create_as(&mut manager, create("a", WidgetKind::Button, None, None), 1);
    assert_eq!(widget_event(&manager, NativeHandle(99), WidgetActionKind::Click), None);
    assert_eq!(
        widget_event(&manager, NativeHandle(1), WidgetActionKind::DoubleClick),
        Some(UiEvent::WidgetAction {
            widget_id: "a".to_string(),
            action: WidgetActionKind::DoubleClick
        })
    );
    assert_eq!(action_of("masonry::widgets::ButtonPress"), Some(WidgetActionKind::Click));
    assert_eq!(action_of("ButtonPress"), Some(WidgetActionKind::Click));
    assert_eq!(action_of("ButtonPres"), None);
    assert_eq!(action_of(""), None);
}

#[test]
fn button_from_creation_over_click_to_removal() {
    let mut driver = AppJsDriver::new();
    let created: DriverOutput<u8, u8> = driver.on_action(DriverInput::Command(create(
        "btn1",
        WidgetKind::Button,
        None,
        Some("Go"),
    )));
    let insertion = match created {
        DriverOutput::Action(UiAction::InsertWidget(insertion)) => insertion,
        other => panic!("expected an insertion, got {:?}", other),
    };
    assert_eq!(insertion.parent, None);
    assert_eq!(insertion.child_index, 0);
    assert_eq!(insertion.construction, Construction::Button);
    assert!(finish_insertion(&mut driver.widget_manager, &insertion, Some(NativeHandle(41))));

    let clicked: DriverOutput<u8, u8> = driver.on_action(DriverInput::Interaction {
        widget: NativeHandle(41),
        action_type: "ButtonPress".to_string(),
    });
    let event = match clicked {
        DriverOutput::Event(event) => event,
        other => panic!("expected an event, got {:?}", other),
    };
    assert_eq!(
        event,
        UiEvent::WidgetAction { widget_id: "btn1".to_string(), action: WidgetActionKind::Click }
    );
    assert_eq!(
        serialize_event(&event),
        r#"{"type":"widgetAction","widgetId":"btn1","action":"click"}"#
    );

    let stray: DriverOutput<u8, u8> = driver.on_action(DriverInput::Interaction {
        widget: NativeHandle(41),
        action_type: "Scroll".to_string(),
    });
    assert_eq!(stray, DriverOutput::Nothing);

    let removed: DriverOutput<u8, u8> =
        driver.on_action(DriverInput::Command(JsCommand::RemoveWidget { id: "btn1".to_string() }));
    assert_eq!(
        removed,
        DriverOutput::Action(UiAction::RemoveWidget {
            handle: NativeHandle(41),
            parent: None,
            child_index: 0
        })
    );
    assert!(driver.widget_manager.get("btn1").is_none());
    assert!(driver.widget_manager.widgets.is_empty());
    assert_eq!(driver.widget_manager.id_of(NativeHandle(41)), None);
    assert!(!driver.widget_manager.parent_to_children.contains_key("btn1"));
    assert_eq!(driver.widget_manager.current_child_count("__root__"), 0);

    let late: DriverOutput<u8, u8> = driver.on_action(DriverInput::Interaction {
        widget: NativeHandle(41),
        action_type: "ButtonPress".to_string(),
    });
    assert_eq!(late, DriverOutput::Nothing);
}

/// A stand-in for the native tree: the children of the root (under `None`)
/// and of every native widget, in order.
struct NativeTree {
    children: HashMap<Option<u64>, Vec<u64>>,
    next_handle: u64,
}

impl NativeTree {
    fn new() -> Self {
        let mut children = HashMap::new();
        children.insert(None, Vec::new());
        NativeTree { children, next_handle: 100 }
    }

    /// Carries out an action as the action asks.
    fn perform(&mut self, manager: &mut WidgetManager, action: Action) {
        match action {
            UiAction::InsertWidget(insertion) => {
                let handle = self.next_handle;
                self.next_handle += 1;
                let parent = insertion.parent.map(|h| h.0);
                let siblings = self.children.get_mut(&parent).unwrap();
                assert_eq!(siblings.len(), insertion.child_index);
                siblings.push(handle);
                self.children.insert(Some(handle), Vec::new());
                assert!(finish_insertion(manager, &insertion, Some(NativeHandle(handle))));
            }
            UiAction::RemoveWidget { handle, parent, child_index } => {
                let siblings = self.children.get_mut(&parent.map(|h| h.0)).unwrap();
                assert_eq!(siblings[child_index], handle.0);
                siblings.remove(child_index);
                let mut gone = vec![handle.0];
                while let Some(h) = gone.pop() {
                    gone.extend(self.children.remove(&Some(h)).unwrap());
                }
            }
            UiAction::Dropped(_) => {}
            other => panic!("unexpected action {:?}", other),
        }
    }

    /// Checks that every list of the registry names the native children.
    fn assert_mirrored_by(&self, manager: &WidgetManager, keys: &[&str]) {
        let mut lists = 0;
        for key in keys.iter().copied().chain(["__root__"]) {
            let Some(names) = manager.parent_to_children.get(key) else {
                assert!(manager.get(key).is_none());
                continue;
            };
            lists += 1;
            let node = manager.get(key).map(|info| info.widget_id.0);
            let handles: Vec<u64> =
                names.iter().map(|name| manager.get(name).unwrap().widget_id.0).collect();
            assert_eq!(self.children.get(&node), Some(&handles), "under {key}");
            for (i, name) in names.iter().enumerate() {
                assert_eq!(manager.get(name).unwrap().child_index, i);
                assert_eq!(manager.get(name).unwrap().parent_id.as_deref().unwrap_or("__root__"), key);
            }
        }
        assert_eq!(manager.parent_to_children.len(), lists);
        assert_eq!(self.children.len(), lists);
        assert_eq!(manager.widgets.len(), lists - 1);
    }
}

#[test]
fn the_registry_mirrors_a_tree_that_carries_out_the_actions() {
    let names = ["a", "b", "c", "d", "e", "f", "g", "h"];
    let mut manager = WidgetManager::new();
    let mut tree = NativeTree::new();
    tree.assert_mirrored_by(&manager, &names);

    // a fixed but varied script of creations and removals, some of them redundant
    let mut seed: u32 = 12345;
    let mut next = |bound: usize| {
        seed = seed.wrapping_mul(1103515245).wrapping_add(12345);
        ((seed >> 16) as usize) % bound
    };
    for _ in 0..400 {
        let id = names[next(names.len())];
        let command: Command = if next(3) == 0 {
            JsCommand::RemoveWidget { id: id.to_string() }
        } else {
            let parent = match next(names.len() + 2) {
                i if i < names.len() => Some(names[i]),
                _ => None,
            };
            create(id, WidgetKind::Flex, parent, None)
        };
        let action = handle_js_command(&mut manager, command);
        tree.perform(&mut manager, action);
        tree.assert_mirrored_by(&manager, &names);
    }
}
