use appjs::ipc::commands::WidgetKind;
use appjs::ui::widget_manager::{NativeHandle, WidgetInfo, WidgetManager};

#[test]
fn test_widget_manager_new() {
    let manager = WidgetManager::new();
    assert!(manager.widgets.is_empty());
    assert_eq!(manager.parent_to_children.len(), 1);
    assert!(manager.parent_to_children.contains_key("__root__"));
}

#[test]
fn test_register_widget() {
    let mut manager = WidgetManager::new();

    let info1 = WidgetInfo {
        widget_id: NativeHandle(1),
        kind: WidgetKind::Button,
        parent_id: None,
        child_index: 0,
    };

    manager.register_widget("btn_1".to_string(), info1.clone());

    assert_eq!(manager.widgets.len(), 1);
    assert_eq!(manager.current_child_count("__root__"), 1);
    assert_eq!(
        manager.parent_to_children.get("__root__").unwrap()[0],
        "btn_1"
    );

    let info2 = WidgetInfo {
        widget_id: NativeHandle(2),
        kind: WidgetKind::Label,
        parent_id: Some("btn_1".to_string()),
        child_index: 0,
    };
    manager.register_widget("lbl_1".to_string(), info2);

    assert_eq!(manager.widgets.len(), 2);
    assert_eq!(manager.current_child_count("btn_1"), 1);
    assert_eq!(manager.parent_to_children.get("btn_1").unwrap()[0], "lbl_1");
}

#[test]
fn test_remove_widget_subtree() {
    let mut manager = WidgetManager::new();

    manager.register_widget(
        "btn_1".to_string(),
        WidgetInfo {
            widget_id: NativeHandle(1),
            kind: WidgetKind::Button,
            parent_id: None,
            child_index: 0,
        },
    );
    manager.register_widget(
        "btn_2".to_string(),
        WidgetInfo {
            widget_id: NativeHandle(2),
            kind: WidgetKind::Button,
            parent_id: None,
            child_index: 1,
        },
    );

    manager.register_widget(
        "lbl_1".to_string(),
        WidgetInfo {
            widget_id: NativeHandle(3),
            kind: WidgetKind::Label,
            parent_id: Some("btn_1".to_string()),
            child_index: 0,
        },
    );
    manager.register_widget(
        "lbl_2".to_string(),
        WidgetInfo {
            widget_id: NativeHandle(4),
            kind: WidgetKind::Label,
            parent_id: Some("btn_1".to_string()),
            child_index: 1,
        },
    );
    manager.register_widget(
        "span_1".to_string(),
        WidgetInfo {
            widget_id: NativeHandle(5),
            kind: WidgetKind::Label,
            parent_id: Some("lbl_2".to_string()),
            child_index: 0,
        },
    );

    assert_eq!(manager.widgets.len(), 5);

    let removed = manager.remove_widget_subtree("btn_1");
    assert!(removed.is_some());

    assert_eq!(manager.widgets.len(), 1);
    assert!(manager.widgets.contains_key("btn_2"));

    let root_children = manager.parent_to_children.get("__root__").unwrap();
    assert_eq!(root_children.len(), 1);
    assert_eq!(root_children[0], "btn_2");

    assert_eq!(manager.widgets.get("btn_2").unwrap().child_index, 0);
}

#[test]
fn test_next_child_index_and_counts() {
    let mut manager = WidgetManager::new();
    assert_eq!(manager.next_child_index("__root__"), 0);
    manager.register_widget(
        "btn_1".to_string(),
        WidgetInfo {
            widget_id: NativeHandle(1),
            kind: WidgetKind::Button,
            parent_id: None,
            child_index: 0,
        },
    );
    assert_eq!(manager.next_child_index("__root__"), 1);
    assert_eq!(manager.current_child_count("__root__"), 1);
}

#[test]
fn register_stores_the_position_at_which_the_widget_was_appended() {
    let mut manager = WidgetManager::new();
    for (i, name) in ["a", "b", "c"].iter().enumerate() {
        manager.register_widget(
            name.to_string(),
            WidgetInfo {
                widget_id: NativeHandle(i as u64),
                kind: WidgetKind::Label,
                parent_id: None,
                child_index: 77,
            },
        );
    }
    assert_eq!(manager.get("a").unwrap().child_index, 0);
    assert_eq!(manager.get("b").unwrap().child_index, 1);
    assert_eq!(manager.get("c").unwrap().child_index, 2);
}

fn info(handle: u64, parent: Option<&str>) -> WidgetInfo {
    WidgetInfo {
        widget_id: NativeHandle(handle),
        kind: WidgetKind::Label,
        parent_id: parent.map(|p| p.to_string()),
        child_index: 0,
    }
}

fn listed(manager: &WidgetManager, key: &str) -> Vec<String> {
    manager.parent_to_children.get(key).unwrap().clone()
}

#[test]
fn register_refuses_what_would_break_the_tree() {
    let mut manager = WidgetManager::new();
    manager.register_widget("a".to_string(), info(1, None));
    // the same name again
    manager.register_widget("a".to_string(), info(2, None));
    // the root key as a name
    manager.register_widget("__root__".to_string(), info(3, None));
    // itself as its parent
    manager.register_widget("c".to_string(), info(5, Some("c")));
    // a handle that is in use
    manager.register_widget("d".to_string(), info(1, None));

    assert_eq!(manager.widgets.len(), 1);
    assert_eq!(manager.parent_to_children.len(), 2);
    assert_eq!(manager.current_child_count("__root__"), 1);
    assert_eq!(manager.get("a").unwrap().widget_id, NativeHandle(1));
    assert_eq!(manager.id_of(NativeHandle(1)), Some("a".to_string()));
    for handle in [2, 3, 5] {
        assert_eq!(manager.id_of(NativeHandle(handle)), None);
    }
    assert!(manager.admits("e", &Some("a".to_string())));
    assert!(manager.admits("e", &Some("nobody".to_string())));
    assert!(manager.admits("e", &None));
    assert!(!manager.admits("e", &Some("e".to_string())));
    assert!(!manager.admits("a", &None));
    assert!(!manager.admits("__root__", &None));
}

#[test]
fn a_parent_that_was_never_registered_gets_its_list() {
    let mut manager = WidgetManager::new();
    manager.register_widget("child".to_string(), info(1, Some("later")));
    manager.register_widget("second".to_string(), info(2, Some("later")));

    assert_eq!(manager.widgets.len(), 2);
    assert!(manager.get("later").is_none());
    assert_eq!(listed(&manager, "later"), vec!["child", "second"]);
    assert_eq!(listed(&manager, "__root__"), Vec::<String>::new());
    assert_eq!(manager.get("second").unwrap().child_index, 1);
    assert_eq!(manager.next_child_index("later"), 2);
    assert!(manager.lies_under("later", "child"));
    assert!(!manager.lies_under("child", "later"));

    // the parent arrives: its list stays
    manager.register_widget("later".to_string(), info(3, None));
    assert_eq!(manager.get("later").unwrap().child_index, 0);
    assert_eq!(listed(&manager, "later"), vec!["child", "second"]);
    assert_eq!(listed(&manager, "__root__"), vec!["later"]);

    // and goes, with what hangs from it
    assert!(manager.remove_widget_subtree("later").is_some());
    assert!(manager.widgets.is_empty());
    assert_eq!(manager.parent_to_children.len(), 1);
}

#[test]
fn a_widget_cannot_go_under_what_hangs_from_its_own_name() {
    let mut manager = WidgetManager::new();
    manager.register_widget("c".to_string(), info(1, Some("p")));
    manager.register_widget("d".to_string(), info(2, Some("c")));
    assert!(!manager.admits("p", &Some("c".to_string())));
    assert!(!manager.admits("p", &Some("d".to_string())));
    assert!(!manager.admits("p", &Some("p".to_string())));
    assert!(manager.admits("p", &None));
    assert!(manager.admits("p", &Some("elsewhere".to_string())));

    manager.register_widget("p".to_string(), info(3, Some("d")));
    assert!(manager.get("p").is_none());
    assert_eq!(manager.widgets.len(), 2);
    assert_eq!(listed(&manager, "d"), Vec::<String>::new());

    // removing the child leaves the list of the unregistered parent, empty
    assert!(manager.remove_widget_subtree("c").is_some());
    assert!(manager.widgets.is_empty());
    assert_eq!(listed(&manager, "p"), Vec::<String>::new());
    assert_eq!(manager.parent_to_children.len(), 2);
}

#[test]
fn counts_of_unknown_parents_are_zero() {
    let manager = WidgetManager::new();
    assert_eq!(manager.current_child_count("nobody"), 0);
    assert_eq!(manager.next_child_index("nobody"), 0);
}

#[test]
fn removal_in_a_deep_and_wide_tree() {
    let mut manager = WidgetManager::new();
    let mut handle = 0;
    let mut add = |manager: &mut WidgetManager, id: &str, parent: Option<&str>| {
        handle += 1;
        manager.register_widget(
            id.to_string(),
            WidgetInfo {
                widget_id: NativeHandle(handle),
                kind: WidgetKind::Flex,
                parent_id: parent.map(|p| p.to_string()),
                child_index: 0,
            },
        );
    };
    add(&mut manager, "left", None);
    add(&mut manager, "mid", None);
    add(&mut manager, "right", None);
    for i in 0..4 {
        add(&mut manager, &format!("mid.{i}"), Some("mid"));
        for j in 0..3 {
            add(&mut manager, &format!("mid.{i}.{j}"), Some(&format!("mid.{i}")));
        }
    }
    let mut parent = "right".to_string();
    for depth in 0..50 {
        let id = format!("deep{depth}");
        add(&mut manager, &id, Some(&parent));
        parent = id;
    }
    assert_eq!(manager.widgets.len(), 3 + 4 + 12 + 50);

    assert!(manager.remove_widget_subtree("mid.1").is_some());
    assert_eq!(manager.widgets.len(), 3 + 3 + 9 + 50);
    assert_eq!(manager.get("mid.0").unwrap().child_index, 0);
    assert_eq!(manager.get("mid.2").unwrap().child_index, 1);
    assert_eq!(manager.get("mid.3").unwrap().child_index, 2);
    assert_eq!(manager.get("mid.3.2").unwrap().child_index, 2);

    assert!(manager.remove_widget_subtree("mid").is_some());
    assert_eq!(manager.widgets.len(), 2 + 50);
    assert_eq!(manager.get("left").unwrap().child_index, 0);
    assert_eq!(manager.get("right").unwrap().child_index, 1);

    assert!(manager.remove_widget_subtree("deep0").is_some());
    assert_eq!(manager.widgets.len(), 2);
    assert_eq!(manager.current_child_count("right"), 0);
    assert_eq!(manager.parent_to_children.len(), 3);
}
