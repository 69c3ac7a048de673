use appjs::ipc::commands::JsCommand;
use appjs::ipc::events::{Modifiers, Number, UiEvent, WidgetActionKind};
use appjs::js_thread::ipc_ops::op_wait_for_event;
use std::sync::mpsc;
use appjs::js_thread::event_serializer::{
    deserialize_event, escape_json_string, serialize_event,
};

fn number(text: &str) -> Number {
    Number::from_text(text).unwrap()
}

#[test]
fn widget_click_is_encoded_with_its_widget_id() {
    let event = UiEvent::WidgetAction {
        widget_id: "btn1".to_string(),
        action: WidgetActionKind::Click,
    };
    assert_eq!(
        serialize_event(&event),
        r#"{"type":"widgetAction","widgetId":"btn1","action":"click"}"#
    );
}

#[test]
fn value_changed_carries_the_number_bare() {
    let event = UiEvent::WidgetAction {
        widget_id: "s".to_string(),
        action: WidgetActionKind::ValueChanged(number("0.5")),
    };
    assert_eq!(
        serialize_event(&event),
        r#"{"type":"widgetAction","widgetId":"s","action":"valueChanged","value":0.5}"#
    );
}

#[test]
fn key_press_lists_the_four_modifiers() {
    let event = UiEvent::KeyPress {
        key: "a".to_string(),
        modifiers: Modifiers { shift: true, ctrl: false, alt: false, meta: true },
    };
    assert_eq!(
        serialize_event(&event),
        r#"{"type":"keyPress","key":"a","shift":true,"ctrl":false,"alt":false,"meta":true}"#
    );
}

#[test]
fn window_resized_writes_decimal_digits() {
    let event = UiEvent::WindowResized { width: 800, height: 4294967295 };
    assert_eq!(
        serialize_event(&event),
        r#"{"type":"windowResized","width":800,"height":4294967295}"#
    );
    let zero = UiEvent::WindowResized { width: 0, height: 10 };
    assert_eq!(serialize_event(&zero), r#"{"type":"windowResized","width":0,"height":10}"#);
}

#[test]
fn escapes_quotes_backslashes_and_control_characters() {
    assert_eq!(escape_json_string("a\"b"), "a\\\"b");
    assert_eq!(escape_json_string("a\\b"), "a\\\\b");
    assert_eq!(escape_json_string("l1\nl2\r\tend"), "l1\\nl2\\r\\tend");
    assert_eq!(escape_json_string("\u{1}\u{1f}"), "\\u0001\\u001f");
    assert_eq!(escape_json_string("plain é ✓"), "plain é ✓");
    assert_eq!(escape_json_string(""), "");
}

fn every_variant() -> Vec<UiEvent> {
    let mods = Modifiers { shift: false, ctrl: true, alt: true, meta: false };
    vec![
        UiEvent::WindowResized { width: 1024, height: 0 },
        UiEvent::MouseClick { x: number("100"), y: number("200") },
        UiEvent::MouseMove { x: number("-0.25"), y: number("1e21") },
        UiEvent::KeyPress { key: "Enter".to_string(), modifiers: mods },
        UiEvent::KeyRelease { key: "\"".to_string(), modifiers: mods },
        UiEvent::TextInput { text: "tab\there, slash\\, quote\", nl\n, cr\r, bell\u{7}".to_string() },
        UiEvent::WidgetAction { widget_id: "a,b}".to_string(), action: WidgetActionKind::Click },
        UiEvent::WidgetAction { widget_id: "w".to_string(), action: WidgetActionKind::DoubleClick },
        UiEvent::WidgetAction {
            widget_id: "w".to_string(),
            action: WidgetActionKind::TextChanged("\",\"value\":1}".to_string()),
        },
        UiEvent::WidgetAction {
            widget_id: "w".to_string(),
            action: WidgetActionKind::ValueChanged(number("0.5")),
        },
        UiEvent::WidgetAction {
            widget_id: "ünï ✓".to_string(),
            action: WidgetActionKind::Custom("".to_string()),
        },
        UiEvent::WindowFocusChanged { focused: true },
        UiEvent::WindowFocusChanged { focused: false },
        UiEvent::WindowCloseRequested,
        UiEvent::AppExit,
        UiEvent::Disconnected,
    ]
}

#[test]
fn every_variant_comes_back_from_its_text() {
    for event in every_variant() {
        let text = serialize_event(&event);
        assert_eq!(deserialize_event(&text), Some(event), "text was {text}");
    }
}

#[test]
fn every_variant_has_its_discriminator() {
    let expected = [
        r#"{"type":"windowResized","width":1024,"height":0}"#,
        r#"{"type":"mouseClick","x":100,"y":200}"#,
        r#"{"type":"mouseMove","x":-0.25,"y":1e21}"#,
        r#"{"type":"keyPress","key":"Enter","shift":false,"ctrl":true,"alt":true,"meta":false}"#,
        r#"{"type":"keyRelease","key":"\"","shift":false,"ctrl":true,"alt":true,"meta":false}"#,
        r#"{"type":"textInput","text":"tab\there, slash\\, quote\", nl\n, cr\r, bell\u0007"}"#,
        r#"{"type":"widgetAction","widgetId":"a,b}","action":"click"}"#,
        r#"{"type":"widgetAction","widgetId":"w","action":"doubleClick"}"#,
        r#"{"type":"widgetAction","widgetId":"w","action":"textChanged","value":"\",\"value\":1}"}"#,
        r#"{"type":"widgetAction","widgetId":"w","action":"valueChanged","value":0.5}"#,
        r#"{"type":"widgetAction","widgetId":"ünï ✓","action":"custom","value":""}"#,
        r#"{"type":"windowFocusChanged","focused":true}"#,
        r#"{"type":"windowFocusChanged","focused":false}"#,
        r#"{"type":"windowCloseRequested"}"#,
        r#"{"type":"appExit"}"#,
        r#"{"type":"disconnected"}"#,
    ];
    let events = every_variant();
    assert_eq!(events.len(), expected.len());
    for (event, text) in events.iter().zip(expected) {
        assert_eq!(serialize_event(event), text);
    }
}

#[test]
fn text_that_is_no_event_is_refused() {
    for text in [
        "",
        "{}",
        "{",
        r#"{"type":"appExit"} "#,
        r#" {"type":"appExit"}"#,
        r#"{"type":"appExit","extra":1}"#,
        r#"{"type":"nothing"}"#,
        r#"{"kind":"appExit"}"#,
        r#"{"type":appExit}"#,
        r#"{"type":"windowResized","width":1}"#,
        r#"{"type":"windowResized","height":1,"width":1}"#,
        r#"{"type":"windowResized","width":4294967296,"height":1}"#,
        r#"{"type":"windowResized","width":-1,"height":1}"#,
        r#"{"type":"windowResized","width":"1","height":1}"#,
        r#"{"type":"windowFocusChanged","focused":yes}"#,
        r#"{"type":"widgetAction","widgetId":"w","action":"click","value":1}"#,
        r#"{"type":"widgetAction","widgetId":"w","action":"valueChanged"}"#,
        r#"{"type":"widgetAction","widgetId":"w","action":"valueChanged","value":"1"}"#,
        r#"{"type":"widgetAction","widgetId":"w","action":"sneeze"}"#,
        r#"{"type":"textInput","text":"unfinished}"#,
        r#"{"type":"textInput","text":"bad \q escape"}"#,
        "{\"type\":\"textInput\",\"text\":\"raw\nnewline\"}",
        r#"{"type":"textInput","text":"a"b"}"#,
        r#"{"type":"mouseClick","x":1,"y":}"#,
        r#"{"type":"mouseClick","x":true,"y":1}"#,
        r#"{"type":"mouseClick","x":01,"y":1}"#,
        r#"{"type":"mouseMove","x":1,"y":NaN}"#,
        r#"{"type":"widgetAction","widgetId":"w","action":"valueChanged","value":.5}"#,
        r#"{"type":"mouseClick","x":1,,"y":2}"#,
    ] {
        assert_eq!(deserialize_event(text), None, "text was {text}");
    }
}

#[test]
fn known_escapes_are_read() {
    assert_eq!(
        deserialize_event(r#"{"type":"textInput","text":"\/\u0041\u00e9\u000A"}"#),
        Some(UiEvent::TextInput { text: "/Aé\n".to_string() })
    );
    assert_eq!(
        deserialize_event(r#"{"type":"windowResized","width":7,"height":4294967295}"#),
        Some(UiEvent::WindowResized { width: 7, height: 4294967295 })
    );
    assert_eq!(deserialize_event(r#"{"type":"windowResized","width":007,"height":1}"#), None);
    assert_eq!(deserialize_event(r#"{"type":"windowResized","width":7.0,"height":1}"#), None);
    assert_eq!(deserialize_event(r#"{"type":"windowResized","width":1e2,"height":1}"#), None);
}

#[test]
fn numbers_are_written_as_json_writes_them() {
    for ok in [
        "0", "7", "100", "-0", "-0.5", "0.5", "12.50", "1e21", "1E21", "1e-7", "2.5E+10", "-1e0",
        "1000000000000000000000000000000000000000",
    ] {
        assert_eq!(Number::from_text(ok).unwrap().as_str(), ok);
    }
    for bad in [
        "", "-", "+3", ".", ".5", "5.", "01", "-01", "00", "1e", "1e+", "1e-", "e5", "1.e5",
        "1.5.2", "--1", "0x1", "NaN", "inf", "-inf", "true", " 1", "1 ", "1,2", "1}", "\"1\"",
        "1_000", "½", "1e5x",
    ] {
        assert_eq!(Number::from_text(bad), None, "text was {bad:?}");
    }
    let n = number("12.5");
    assert_eq!(n.clone(), n);
    assert_eq!(n.duplicate(), n);
}

#[test]
fn test_channel_communication() {
    let (event_sender, event_receiver) = mpsc::channel::<UiEvent>();

    event_sender
        .send(UiEvent::MouseClick { x: number("100"), y: number("200") })
        .expect("Failed to send UI event");

    let event = event_receiver.recv().expect("Failed to receive UI event");

    match event {
        UiEvent::MouseClick { x, y } => {
            assert_eq!(x.as_str(), "100");
            assert_eq!(y.as_str(), "200");
        }
        _ => panic!("Unexpected event type"),
    }

    let (command_sender, command_receiver) = mpsc::channel::<JsCommand<u8, u8>>();
    command_sender
        .send(JsCommand::SetTitle("Test Title".to_string()))
        .expect("Failed to send JS command");

    let command = command_receiver.recv().expect("Failed to receive JS command");

    match command {
        JsCommand::SetTitle(title) => {
            assert_eq!(title, "Test Title");
        }
        _ => panic!("Unexpected command type"),
    }
}

#[test]
fn a_wait_on_a_queue_without_producer_ends_with_the_sentinel() {
    let (event_sender, event_receiver) = mpsc::channel::<UiEvent>();
    event_sender.send(UiEvent::AppExit).unwrap();
    drop(event_sender);
    assert_eq!(op_wait_for_event(event_receiver.recv().ok()), r#"{"type":"appExit"}"#);
    assert_eq!(op_wait_for_event(event_receiver.recv().ok()), r#"{"type":"disconnected"}"#);
    assert_eq!(op_wait_for_event(event_receiver.recv().ok()), r#"{"type":"disconnected"}"#);
}
