//! The wire encoding of events: one flat JSON object per event.

use vstd::prelude::*;

use crate::ipc::events::{
    digits_from, exponent_start, is_json_number, lemma_digits_from, Modifiers, Number, UiEvent,
    UiEventView, WidgetActionKind, WidgetActionKindView,
};
use crate::js_thread::json::{
    append_escaped, escape, fields_view, fields_wf, is_token, lemma_parse_object, object_text,
    parse_object, parse_object_text, render_object, JsonField, JsonFieldView, JsonValue,
    JsonValueView,
};
use crate::text::{
    bounded_decimal_of, chars_of, decimal, decimal_text, decimal_value, lemma_decimal, same_text,
};

verus! {

/// The text `s` as it stands inside a JSON string.
pub fn escape_json_string(s: &str) -> (escaped: String)
    ensures
        escaped@ == escape(s@),
{
    let mut escaped = String::new();
    append_escaped(&mut escaped, s);
    escaped
}

/// The `type` discriminator of an event.
pub open spec fn discriminator(e: UiEventView) -> Seq<char> {
    match e {
        UiEventView::WindowResized { .. } => "windowResized"@,
        UiEventView::MouseClick { .. } => "mouseClick"@,
        UiEventView::MouseMove { .. } => "mouseMove"@,
        UiEventView::KeyPress { .. } => "keyPress"@,
        UiEventView::KeyRelease { .. } => "keyRelease"@,
        UiEventView::TextInput { .. } => "textInput"@,
        UiEventView::WidgetAction { .. } => "widgetAction"@,
        UiEventView::WindowFocusChanged { .. } => "windowFocusChanged"@,
        UiEventView::WindowCloseRequested => "windowCloseRequested"@,
        UiEventView::AppExit => "appExit"@,
        UiEventView::Disconnected => "disconnected"@,
    }
}

/// The name under which a widget action goes over the wire.
pub open spec fn action_name(a: WidgetActionKindView) -> Seq<char> {
    match a {
        WidgetActionKindView::Click => "click"@,
        WidgetActionKindView::DoubleClick => "doubleClick"@,
        WidgetActionKindView::TextChanged(_) => "textChanged"@,
        WidgetActionKindView::ValueChanged(_) => "valueChanged"@,
        WidgetActionKindView::Custom(_) => "custom"@,
    }
}

/// `true` or `false`.
pub open spec fn bool_token(b: bool) -> Seq<char> {
    if b {
        "true"@
    } else {
        "false"@
    }
}

/// A field whose value is text.
pub open spec fn text_field(name: Seq<char>, text: Seq<char>) -> JsonFieldView {
    JsonFieldView { name, value: JsonValueView::Text(text) }
}

/// A field whose value is a bare token.
pub open spec fn token_field(name: Seq<char>, token: Seq<char>) -> JsonFieldView {
    JsonFieldView { name, value: JsonValueView::Token(token) }
}

/// The four fields of the modifier keys.
pub open spec fn modifier_fields(m: Modifiers) -> Seq<JsonFieldView> {
    seq![
        token_field("shift"@, bool_token(m.shift)),
        token_field("ctrl"@, bool_token(m.ctrl)),
        token_field("alt"@, bool_token(m.alt)),
        token_field("meta"@, bool_token(m.meta)),
    ]
}

/// The fields that a widget action adds behind the widget's name: the
/// action's name and, where the action carries one, its value.
pub open spec fn action_fields(a: WidgetActionKindView) -> Seq<JsonFieldView> {
    let name = text_field("action"@, action_name(a));
    match a {
        WidgetActionKindView::Click => seq![name],
        WidgetActionKindView::DoubleClick => seq![name],
        WidgetActionKindView::TextChanged(text) => seq![name, text_field("value"@, text)],
        WidgetActionKindView::ValueChanged(value) => seq![name, token_field("value"@, value)],
        WidgetActionKindView::Custom(text) => seq![name, text_field("value"@, text)],
    }
}

/// The fields of an event, in the order in which they are written: the
/// `type` discriminator first, then what the variant holds.
pub open spec fn event_fields(e: UiEventView) -> Seq<JsonFieldView> {
    let head = seq![text_field("type"@, discriminator(e))];
    match e {
        UiEventView::WindowResized { width, height } => head + seq![
            token_field("width"@, decimal(width as nat)),
            token_field("height"@, decimal(height as nat)),
        ],
        UiEventView::MouseClick { x, y } => head + seq![
            token_field("x"@, x),
            token_field("y"@, y),
        ],
        UiEventView::MouseMove { x, y } => head + seq![token_field("x"@, x), token_field("y"@, y)],
        UiEventView::KeyPress { key, modifiers } => head + (seq![text_field("key"@, key)]
            + modifier_fields(modifiers)),
        UiEventView::KeyRelease { key, modifiers } => head + (seq![text_field("key"@, key)]
            + modifier_fields(modifiers)),
        UiEventView::TextInput { text } => head + seq![text_field("text"@, text)],
        UiEventView::WidgetAction { widget_id, action } => head + (seq![
            text_field("widgetId"@, widget_id),
        ] + action_fields(action)),
        UiEventView::WindowFocusChanged { focused } => head + seq![
            token_field("focused"@, bool_token(focused)),
        ],
        UiEventView::WindowCloseRequested => head,
        UiEventView::AppExit => head,
        UiEventView::Disconnected => head,
    }
}

/// The event as it goes over the wire: a JSON object of its fields.
pub open spec fn event_text(e: UiEventView) -> Seq<char> {
    object_text(event_fields(e))
}

/// The text of field `i`, where that field is called `name` and holds text.
pub open spec fn text_at(fields: Seq<JsonFieldView>, i: int, name: Seq<char>) -> Option<Seq<char>> {
    if 0 <= i < fields.len() && fields[i].name == name {
        match fields[i].value {
            JsonValueView::Text(text) => Some(text),
            JsonValueView::Token(_) => None,
        }
    } else {
        None
    }
}

/// The token of field `i`, where that field is called `name` and holds a token.
pub open spec fn token_at(fields: Seq<JsonFieldView>, i: int, name: Seq<char>) -> Option<
    Seq<char>,
> {
    if 0 <= i < fields.len() && fields[i].name == name {
        match fields[i].value {
            JsonValueView::Text(_) => None,
            JsonValueView::Token(token) => Some(token),
        }
    } else {
        None
    }
}

/// The number of field `i`, where that field is called `name` and holds a
/// number as JSON writes it.
pub open spec fn number_at(fields: Seq<JsonFieldView>, i: int, name: Seq<char>) -> Option<
    Seq<char>,
> {
    match token_at(fields, i, name) {
        Some(token) => if is_json_number(token) {
            Some(token)
        } else {
            None
        },
        None => None,
    }
}

/// The truth value of field `i`, where that field is called `name` and holds
/// `true` or `false`.
pub open spec fn bool_at(fields: Seq<JsonFieldView>, i: int, name: Seq<char>) -> Option<bool> {
    match token_at(fields, i, name) {
        Some(token) => if token == "true"@ {
            Some(true)
        } else if token == "false"@ {
            Some(false)
        } else {
            None
        },
        None => None,
    }
}

/// The number of field `i`, where that field is called `name` and holds a
/// number as JSON writes it, made of digits that stand for a `u32`.
pub open spec fn u32_at(fields: Seq<JsonFieldView>, i: int, name: Seq<char>) -> Option<u32> {
    match number_at(fields, i, name) {
        Some(token) => match decimal_value(token) {
            Some(v) => if v <= u32::MAX {
                Some(v as u32)
            } else {
                None
            },
            None => None,
        },
        None => None,
    }
}

/// The modifier keys in the four fields from `from` on.
pub open spec fn modifiers_at(fields: Seq<JsonFieldView>, from: int) -> Option<Modifiers> {
    match (
        bool_at(fields, from, "shift"@),
        bool_at(fields, from + 1, "ctrl"@),
        bool_at(fields, from + 2, "alt"@),
        bool_at(fields, from + 3, "meta"@),
    ) {
        (Some(shift), Some(ctrl), Some(alt), Some(meta)) => Some(
            Modifiers { shift, ctrl, alt, meta },
        ),
        _ => None,
    }
}

/// The widget action in the fields from `from` on, which are the last.
pub open spec fn action_at(fields: Seq<JsonFieldView>, from: int) -> Option<WidgetActionKindView> {
    match text_at(fields, from, "action"@) {
        Some(name) => if name == "click"@ {
            if fields.len() == from + 1 {
                Some(WidgetActionKindView::Click)
            } else {
                None
            }
        } else if name == "doubleClick"@ {
            if fields.len() == from + 1 {
                Some(WidgetActionKindView::DoubleClick)
            } else {
                None
            }
        } else if name == "textChanged"@ {
            match text_at(fields, from + 1, "value"@) {
                Some(text) => if fields.len() == from + 2 {
                    Some(WidgetActionKindView::TextChanged(text))
                } else {
                    None
                },
                None => None,
            }
        } else if name == "valueChanged"@ {
            match number_at(fields, from + 1, "value"@) {
                Some(value) => if fields.len() == from + 2 {
                    Some(WidgetActionKindView::ValueChanged(value))
                } else {
                    None
                },
                None => None,
            }
        } else if name == "custom"@ {
            match text_at(fields, from + 1, "value"@) {
                Some(text) => if fields.len() == from + 2 {
                    Some(WidgetActionKindView::Custom(text))
                } else {
                    None
                },
                None => None,
            }
        } else {
            None
        },
        None => None,
    }
}

/// The event that `fields` stand for: the first field is the `type`
/// discriminator, and the others are exactly those of that variant, in
/// order. `None` for anything else.
pub open spec fn event_of_fields(fields: Seq<JsonFieldView>) -> Option<UiEventView> {
    match text_at(fields, 0, "type"@) {
        Some(tag) => if tag == "windowResized"@ {
            match (u32_at(fields, 1, "width"@), u32_at(fields, 2, "height"@)) {
                (Some(width), Some(height)) => if fields.len() == 3 {
                    Some(UiEventView::WindowResized { width, height })
                } else {
                    None
                },
                _ => None,
            }
        } else if tag == "mouseClick"@ {
            match (number_at(fields, 1, "x"@), number_at(fields, 2, "y"@)) {
                (Some(x), Some(y)) => if fields.len() == 3 {
                    Some(UiEventView::MouseClick { x, y })
                } else {
                    None
                },
                _ => None,
            }
        } else if tag == "mouseMove"@ {
            match (number_at(fields, 1, "x"@), number_at(fields, 2, "y"@)) {
                (Some(x), Some(y)) => if fields.len() == 3 {
                    Some(UiEventView::MouseMove { x, y })
                } else {
                    None
                },
                _ => None,
            }
        } else if tag == "keyPress"@ {
            match (text_at(fields, 1, "key"@), modifiers_at(fields, 2)) {
                (Some(key), Some(modifiers)) => if fields.len() == 6 {
                    Some(UiEventView::KeyPress { key, modifiers })
                } else {
                    None
                },
                _ => None,
            }
        } else if tag == "keyRelease"@ {
            match (text_at(fields, 1, "key"@), modifiers_at(fields, 2)) {
                (Some(key), Some(modifiers)) => if fields.len() == 6 {
                    Some(UiEventView::KeyRelease { key, modifiers })
                } else {
                    None
                },
                _ => None,
            }
        } else if tag == "textInput"@ {
            match text_at(fields, 1, "text"@) {
                Some(text) => if fields.len() == 2 {
                    Some(UiEventView::TextInput { text })
                } else {
                    None
                },
                None => None,
            }
        } else if tag == "widgetAction"@ {
            match (text_at(fields, 1, "widgetId"@), action_at(fields, 2)) {
                (Some(widget_id), Some(action)) => Some(
                    UiEventView::WidgetAction { widget_id, action },
                ),
                _ => None,
            }
        } else if tag == "windowFocusChanged"@ {
            match bool_at(fields, 1, "focused"@) {
                Some(focused) => if fields.len() == 2 {
                    Some(UiEventView::WindowFocusChanged { focused })
                } else {
                    None
                },
                None => None,
            }
        } else if tag == "windowCloseRequested"@ {
            if fields.len() == 1 {
                Some(UiEventView::WindowCloseRequested)
            } else {
                None
            }
        } else if tag == "appExit"@ {
            if fields.len() == 1 {
                Some(UiEventView::AppExit)
            } else {
                None
            }
        } else if tag == "disconnected"@ {
            if fields.len() == 1 {
                Some(UiEventView::Disconnected)
            } else {
                None
            }
        } else {
            None
        },
        None => None,
    }
}

/// The event written as `s`; `None` where `s` is not the text of an event.
pub open spec fn decode_event(s: Seq<char>) -> Option<UiEventView> {
    match parse_object(s) {
        Some(fields) => event_of_fields(fields),
        None => None,
    }
}

/// The `type` discriminators differ from one another.
pub proof fn lemma_discriminators(a: UiEventView, b: UiEventView)
    ensures
        discriminator(a) == discriminator(b) ==> (a is WindowResized <==> b is WindowResized) && (a
            is MouseClick <==> b is MouseClick) && (a is MouseMove <==> b is MouseMove) && (a
            is KeyPress <==> b is KeyPress) && (a is KeyRelease <==> b is KeyRelease) && (a
            is TextInput <==> b is TextInput) && (a is WidgetAction <==> b is WidgetAction) && (a
            is WindowFocusChanged <==> b is WindowFocusChanged) && (a is WindowCloseRequested <==> b
            is WindowCloseRequested) && (a is AppExit <==> b is AppExit) && (a is Disconnected <==> b
            is Disconnected),
{
    reveal_strlit("windowResized");
    reveal_strlit("mouseClick");
    reveal_strlit("mouseMove");
    reveal_strlit("keyPress");
    reveal_strlit("keyRelease");
    reveal_strlit("textInput");
    reveal_strlit("widgetAction");
    reveal_strlit("windowFocusChanged");
    reveal_strlit("windowCloseRequested");
    reveal_strlit("appExit");
    reveal_strlit("disconnected");
    if discriminator(a) == discriminator(b) {
        assert(discriminator(a).len() == discriminator(b).len());
        assert(discriminator(a)[0] == discriminator(b)[0]);
    }
}

/// The names of the widget actions differ from one another.
pub proof fn lemma_action_names(a: WidgetActionKindView, b: WidgetActionKindView)
    ensures
        action_name(a) == action_name(b) ==> (a is Click <==> b is Click) && (a is DoubleClick <==> b
            is DoubleClick) && (a is TextChanged <==> b is TextChanged) && (a is ValueChanged <==> b
            is ValueChanged) && (a is Custom <==> b is Custom),
{
    reveal_strlit("click");
    reveal_strlit("doubleClick");
    reveal_strlit("textChanged");
    reveal_strlit("valueChanged");
    reveal_strlit("custom");
    if action_name(a) == action_name(b) {
        assert(action_name(a).len() == action_name(b).len());
        assert(action_name(a)[0] == action_name(b)[0]);
    }
}

/// A number as JSON writes it is a token.
pub proof fn lemma_number_token(s: Seq<char>)
    requires
        is_json_number(s),
    ensures
        is_token(s),
{
    let start = if s.len() > 0 && s[0] == '-' {
        1int
    } else {
        0int
    };
    let int_end = digits_from(s, start);
    lemma_digits_from(s, start);
    let frac_end = if int_end < s.len() && s[int_end] == '.' {
        digits_from(s, int_end + 1)
    } else {
        int_end
    };
    if int_end < s.len() && s[int_end] == '.' {
        lemma_digits_from(s, int_end + 1);
    }
    let exp_start = exponent_start(s, frac_end);
    if exp_start > frac_end {
        lemma_digits_from(s, exp_start);
    }
}

/// `true` and `false` are tokens, and they differ.
pub proof fn lemma_bool_token(b: bool)
    ensures
        is_token(bool_token(b)),
        "true"@ != "false"@,
{
    reveal_strlit("true");
    reveal_strlit("false");
    assert("true"@.len() != "false"@.len());
}

/// The digits of a number do not start with `0`, unless the number is 0.
pub proof fn lemma_decimal_start(n: nat)
    ensures
        n >= 1 ==> decimal(n)[0] != '0',
        n == 0 ==> decimal(n) == seq!['0'],
    decreases n,
{
    if n >= 10 {
        lemma_decimal_start(n / 10);
        lemma_decimal(n / 10);
    }
}

/// The digits of a number are a number as JSON writes it, and a token.
pub proof fn lemma_decimal_token(n: nat)
    ensures
        is_json_number(decimal(n)),
        is_token(decimal(n)),
{
    lemma_decimal(n);
    lemma_decimal_start(n);
    lemma_digits_from(decimal(n), 0);
}

/// The bare values among the fields of a well-formed event are tokens.
pub proof fn lemma_event_fields_wf(e: UiEventView)
    requires
        e.wf(),
    ensures
        fields_wf(event_fields(e)),
{
    let fields = event_fields(e);
    lemma_bool_token(true);
    lemma_bool_token(false);
    match e {
        UiEventView::WindowResized { width, height } => {
            lemma_decimal_token(width as nat);
            lemma_decimal_token(height as nat);
        },
        UiEventView::MouseClick { x, y } => {
            lemma_number_token(x);
            lemma_number_token(y);
        },
        UiEventView::MouseMove { x, y } => {
            lemma_number_token(x);
            lemma_number_token(y);
        },
        UiEventView::WidgetAction { widget_id, action } => {
            match action {
                WidgetActionKindView::ValueChanged(value) => {
                    lemma_number_token(value);
                },
                _ => {},
            }
        },
        _ => {},
    }
    assert forall|i: int| 0 <= i < fields.len() implies (#[trigger] fields[i]).value.wf() by {
        match e {
            UiEventView::KeyPress { key, modifiers } => {
                if i >= 2 {
                    assert(fields[i] == modifier_fields(modifiers)[i - 2]);
                }
            },
            UiEventView::KeyRelease { key, modifiers } => {
                if i >= 2 {
                    assert(fields[i] == modifier_fields(modifiers)[i - 2]);
                }
            },
            UiEventView::WidgetAction { widget_id, action } => {
                if i >= 2 {
                    assert(fields[i] == action_fields(action)[i - 2]);
                }
            },
            _ => {},
        }
    }
}

/// The fields of an event stand for that event.
pub proof fn lemma_event_of_fields(e: UiEventView)
    requires
        e.wf(),
    ensures
        event_of_fields(event_fields(e)) == Some(e),
{
    let fields = event_fields(e);
    assert(fields[0] == text_field("type"@, discriminator(e)));
    assert(text_at(fields, 0, "type"@) == Some(discriminator(e)));
    lemma_discriminators(e, UiEventView::WindowResized { width: 0, height: 0 });
    lemma_discriminators(e, UiEventView::MouseClick { x: Seq::empty(), y: Seq::empty() });
    lemma_discriminators(e, UiEventView::MouseMove { x: Seq::empty(), y: Seq::empty() });
    let none = Modifiers { shift: false, ctrl: false, alt: false, meta: false };
    lemma_discriminators(e, UiEventView::KeyPress { key: Seq::empty(), modifiers: none });
    lemma_discriminators(e, UiEventView::KeyRelease { key: Seq::empty(), modifiers: none });
    lemma_discriminators(e, UiEventView::TextInput { text: Seq::empty() });
    lemma_discriminators(
        e,
        UiEventView::WidgetAction { widget_id: Seq::empty(), action: WidgetActionKindView::Click },
    );
    lemma_discriminators(e, UiEventView::WindowFocusChanged { focused: false });
    lemma_discriminators(e, UiEventView::WindowCloseRequested);
    lemma_discriminators(e, UiEventView::AppExit);
    lemma_discriminators(e, UiEventView::Disconnected);
    lemma_bool_token(true);
    match e {
        UiEventView::WindowResized { width, height } => {
            lemma_decimal(width as nat);
            lemma_decimal(height as nat);
            lemma_decimal_token(width as nat);
            lemma_decimal_token(height as nat);
            assert(fields[1] == token_field("width"@, decimal(width as nat)));
            assert(fields[2] == token_field("height"@, decimal(height as nat)));
        },
        UiEventView::MouseClick { x, y } => {
            assert(fields[1] == token_field("x"@, x));
            assert(fields[2] == token_field("y"@, y));
        },
        UiEventView::MouseMove { x, y } => {
            assert(fields[1] == token_field("x"@, x));
            assert(fields[2] == token_field("y"@, y));
        },
        UiEventView::KeyPress { key, modifiers } => {
            let m = modifier_fields(modifiers);
            assert(fields[1] == text_field("key"@, key));
            assert(fields[2] == m[0] && fields[3] == m[1] && fields[4] == m[2] && fields[5] == m[3]);
            assert(modifiers_at(fields, 2) == Some(modifiers));
        },
        UiEventView::KeyRelease { key, modifiers } => {
            let m = modifier_fields(modifiers);
            assert(fields[1] == text_field("key"@, key));
            assert(fields[2] == m[0] && fields[3] == m[1] && fields[4] == m[2] && fields[5] == m[3]);
            assert(modifiers_at(fields, 2) == Some(modifiers));
        },
        UiEventView::TextInput { text } => {
            assert(fields[1] == text_field("text"@, text));
        },
        UiEventView::WidgetAction { widget_id, action } => {
            let tail = action_fields(action);
            assert(fields[1] == text_field("widgetId"@, widget_id));
            assert(fields[2] == tail[0]);
            assert(text_at(fields, 2, "action"@) == Some(action_name(action)));
            lemma_action_names(action, WidgetActionKindView::Click);
            lemma_action_names(action, WidgetActionKindView::DoubleClick);
            lemma_action_names(action, WidgetActionKindView::TextChanged(Seq::empty()));
            lemma_action_names(action, WidgetActionKindView::ValueChanged(Seq::empty()));
            lemma_action_names(action, WidgetActionKindView::Custom(Seq::empty()));
            if tail.len() == 2 {
                assert(fields[3] == tail[1]);
            }
            assert(action_at(fields, 2) == Some(action));
        },
        UiEventView::WindowFocusChanged { focused } => {
            assert(fields[1] == token_field("focused"@, bool_token(focused)));
        },
        UiEventView::WindowCloseRequested => {},
        UiEventView::AppExit => {},
        UiEventView::Disconnected => {},
    }
}

/// Round trip: decoding the text of an event gives the event back, the
/// discriminator and every field as they were.
pub proof fn lemma_event_round_trip(e: UiEventView)
    requires
        e.wf(),
    ensures
        decode_event(event_text(e)) == Some(e),
{
    lemma_event_fields_wf(e);
    lemma_parse_object(event_fields(e));
    lemma_event_of_fields(e);
}

/// A field called `name` whose value is `text`.
fn text_field_of(name: &str, text: &str) -> (field: JsonField)
    ensures
        field@ == text_field(name@, text@),
{
    JsonField { name: name.to_owned(), value: JsonValue::Text(text.to_owned()) }
}

/// A field called `name` whose value is the bare `token`.
fn token_field_of(name: &str, token: &str) -> (field: JsonField)
    ensures
        field@ == token_field(name@, token@),
{
    JsonField { name: name.to_owned(), value: JsonValue::Token(token.to_owned()) }
}

/// A field called `name` whose value is `true` or `false`.
fn bool_field_of(name: &str, value: bool) -> (field: JsonField)
    ensures
        field@ == token_field(name@, bool_token(value)),
{
    if value {
        token_field_of(name, "true")
    } else {
        token_field_of(name, "false")
    }
}

/// A field called `name` whose value is `value` in decimal digits.
fn u32_field_of(name: &str, value: u32) -> (field: JsonField)
    ensures
        field@ == token_field(name@, decimal(value as nat)),
{
    let digits = decimal_text(value as u64);
    token_field_of(name, digits.as_str())
}

/// Appends the four fields of the modifier keys.
fn push_modifier_fields(fields: &mut Vec<JsonField>, modifiers: &Modifiers)
    ensures
        fields_view(final(fields)@) == fields_view(old(fields)@) + modifier_fields(*modifiers),
{
    fields.push(bool_field_of("shift", modifiers.shift));
    fields.push(bool_field_of("ctrl", modifiers.ctrl));
    fields.push(bool_field_of("alt", modifiers.alt));
    fields.push(bool_field_of("meta", modifiers.meta));
    assert(fields_view(fields@) =~= fields_view(old(fields)@) + modifier_fields(*modifiers));
}

/// Appends the fields of a widget action.
fn push_action_fields(fields: &mut Vec<JsonField>, action: &WidgetActionKind)
    ensures
        fields_view(final(fields)@) == fields_view(old(fields)@) + action_fields(action@),
        action@.wf(),
{
    match action {
        WidgetActionKind::Click => {
            fields.push(text_field_of("action", "click"));
        },
        WidgetActionKind::DoubleClick => {
            fields.push(text_field_of("action", "doubleClick"));
        },
        WidgetActionKind::TextChanged(text) => {
            fields.push(text_field_of("action", "textChanged"));
            fields.push(text_field_of("value", text.as_str()));
        },
        WidgetActionKind::ValueChanged(value) => {
            fields.push(text_field_of("action", "valueChanged"));
            fields.push(token_field_of("value", value.as_str()));
        },
        WidgetActionKind::Custom(text) => {
            fields.push(text_field_of("action", "custom"));
            fields.push(text_field_of("value", text.as_str()));
        },
    }
    assert(fields_view(fields@) =~= fields_view(old(fields)@) + action_fields(action@));
}

/// The event as it goes over the wire: a JSON object that starts with the
/// `type` discriminator and holds one field for each value of the variant.
/// Decoding the text gives the event back.
pub fn serialize_event(event: &UiEvent) -> (text: String)
    ensures
        text@ == event_text(event@),
        event@.wf(),
        decode_event(text@) == Some(event@),
{
    let mut fields: Vec<JsonField> = Vec::new();
    match event {
        UiEvent::WindowResized { width, height } => {
            fields.push(text_field_of("type", "windowResized"));
            fields.push(u32_field_of("width", *width));
            fields.push(u32_field_of("height", *height));
        },
        UiEvent::MouseClick { x, y } => {
            fields.push(text_field_of("type", "mouseClick"));
            fields.push(token_field_of("x", x.as_str()));
            fields.push(token_field_of("y", y.as_str()));
        },
        UiEvent::MouseMove { x, y } => {
            fields.push(text_field_of("type", "mouseMove"));
            fields.push(token_field_of("x", x.as_str()));
            fields.push(token_field_of("y", y.as_str()));
        },
        UiEvent::KeyPress { key, modifiers } => {
            fields.push(text_field_of("type", "keyPress"));
            fields.push(text_field_of("key", key.as_str()));
            push_modifier_fields(&mut fields, modifiers);
        },
        UiEvent::KeyRelease { key, modifiers } => {
            fields.push(text_field_of("type", "keyRelease"));
            fields.push(text_field_of("key", key.as_str()));
            push_modifier_fields(&mut fields, modifiers);
        },
        UiEvent::TextInput { text } => {
            fields.push(text_field_of("type", "textInput"));
            fields.push(text_field_of("text", text.as_str()));
        },
        UiEvent::WidgetAction { widget_id, action } => {
            fields.push(text_field_of("type", "widgetAction"));
            fields.push(text_field_of("widgetId", widget_id.as_str()));
            push_action_fields(&mut fields, action);
        },
        UiEvent::WindowFocusChanged { focused } => {
            fields.push(text_field_of("type", "windowFocusChanged"));
            fields.push(bool_field_of("focused", *focused));
        },
        UiEvent::WindowCloseRequested => {
            fields.push(text_field_of("type", "windowCloseRequested"));
        },
        UiEvent::AppExit => {
            fields.push(text_field_of("type", "appExit"));
        },
        UiEvent::Disconnected => {
            fields.push(text_field_of("type", "disconnected"));
        },
    }
    assert(fields_view(fields@) =~= event_fields(event@));
    proof {
        lemma_event_round_trip(event@);
    }
    render_object(&fields)
}

/// The text of field `i`, where that field is called `name` and holds text.
fn text_of<'a>(fields: &'a Vec<JsonField>, i: usize, name: &str) -> (found: Option<&'a String>)
    ensures
        match found {
            Some(text) => text_at(fields_view(fields@), i as int, name@) == Some(text@),
            None => text_at(fields_view(fields@), i as int, name@) is None,
        },
{
    if i < fields.len() && same_text(fields[i].name.as_str(), name) {
        match &fields[i].value {
            JsonValue::Text(text) => Some(text),
            JsonValue::Token(_) => None,
        }
    } else {
        None
    }
}

/// The token of field `i`, where that field is called `name` and holds a token.
fn token_of<'a>(fields: &'a Vec<JsonField>, i: usize, name: &str) -> (found: Option<&'a String>)
    ensures
        match found {
            Some(token) => token_at(fields_view(fields@), i as int, name@) == Some(token@),
            None => token_at(fields_view(fields@), i as int, name@) is None,
        },
{
    if i < fields.len() && same_text(fields[i].name.as_str(), name) {
        match &fields[i].value {
            JsonValue::Text(_) => None,
            JsonValue::Token(token) => Some(token),
        }
    } else {
        None
    }
}

/// The truth value of field `i`, where that field is called `name`.
fn bool_of(fields: &Vec<JsonField>, i: usize, name: &str) -> (found: Option<bool>)
    ensures
        found == bool_at(fields_view(fields@), i as int, name@),
{
    match token_of(fields, i, name) {
        Some(token) => if same_text(token.as_str(), "true") {
            Some(true)
        } else if same_text(token.as_str(), "false") {
            Some(false)
        } else {
            None
        },
        None => None,
    }
}

/// The number of field `i`, where that field is called `name`.
fn number_of(fields: &Vec<JsonField>, i: usize, name: &str) -> (found: Option<Number>)
    ensures
        match found {
            Some(number) => number_at(fields_view(fields@), i as int, name@) == Some(number@),
            None => number_at(fields_view(fields@), i as int, name@) is None,
        },
{
    match token_of(fields, i, name) {
        Some(token) => Number::from_text(token.as_str()),
        None => None,
    }
}

/// The number of field `i`, where that field is called `name`.
fn u32_of(fields: &Vec<JsonField>, i: usize, name: &str) -> (found: Option<u32>)
    ensures
        found == u32_at(fields_view(fields@), i as int, name@),
{
    match number_of(fields, i, name) {
        Some(number) => match bounded_decimal_of(&chars_of(number.as_str()), 0xffff_ffff) {
            Some(n) => Some(n as u32),
            None => None,
        },
        None => None,
    }
}

/// The modifier keys in the four fields from `from` on.
fn modifiers_of(fields: &Vec<JsonField>, from: usize) -> (found: Option<Modifiers>)
    requires
        from < 100,
    ensures
        found == modifiers_at(fields_view(fields@), from as int),
{
    match (
        bool_of(fields, from, "shift"),
        bool_of(fields, from + 1, "ctrl"),
        bool_of(fields, from + 2, "alt"),
        bool_of(fields, from + 3, "meta"),
    ) {
        (Some(shift), Some(ctrl), Some(alt), Some(meta)) => Some(
            Modifiers { shift, ctrl, alt, meta },
        ),
        _ => None,
    }
}

/// The widget action in the fields from `from` on, which are the last.
fn action_of_fields(fields: &Vec<JsonField>, from: usize) -> (found: Option<WidgetActionKind>)
    requires
        from < 100,
    ensures
        match found {
            Some(action) => action_at(fields_view(fields@), from as int) == Some(action@),
            None => action_at(fields_view(fields@), from as int) is None,
        },
{
    let name = match text_of(fields, from, "action") {
        Some(name) => name,
        None => {
            return None;
        },
    };
    if same_text(name.as_str(), "click") {
        if fields.len() == from + 1 {
            Some(WidgetActionKind::Click)
        } else {
            None
        }
    } else if same_text(name.as_str(), "doubleClick") {
        if fields.len() == from + 1 {
            Some(WidgetActionKind::DoubleClick)
        } else {
            None
        }
    } else if same_text(name.as_str(), "textChanged") {
        match text_of(fields, from + 1, "value") {
            Some(text) => if fields.len() == from + 2 {
                Some(WidgetActionKind::TextChanged(text.clone()))
            } else {
                None
            },
            None => None,
        }
    } else if same_text(name.as_str(), "valueChanged") {
        match number_of(fields, from + 1, "value") {
            Some(value) => if fields.len() == from + 2 {
                Some(WidgetActionKind::ValueChanged(value))
            } else {
                None
            },
            None => None,
        }
    } else if same_text(name.as_str(), "custom") {
        match text_of(fields, from + 1, "value") {
            Some(text) => if fields.len() == from + 2 {
                Some(WidgetActionKind::Custom(text.clone()))
            } else {
                None
            },
            None => None,
        }
    } else {
        None
    }
}

/// The event that `fields` stand for.
fn event_from_fields(fields: &Vec<JsonField>) -> (found: Option<UiEvent>)
    ensures
        match found {
            Some(event) => event_of_fields(fields_view(fields@)) == Some(event@),
            None => event_of_fields(fields_view(fields@)) is None,
        },
{
    let tag = match text_of(fields, 0, "type") {
        Some(tag) => tag,
        None => {
            return None;
        },
    };
    let count = fields.len();
    if same_text(tag.as_str(), "windowResized") {
        match (u32_of(fields, 1, "width"), u32_of(fields, 2, "height")) {
            (Some(width), Some(height)) => if count == 3 {
                Some(UiEvent::WindowResized { width, height })
            } else {
                None
            },
            _ => None,
        }
    } else if same_text(tag.as_str(), "mouseClick") {
        match (number_of(fields, 1, "x"), number_of(fields, 2, "y")) {
            (Some(x), Some(y)) => if count == 3 {
                Some(UiEvent::MouseClick { x, y })
            } else {
                None
            },
            _ => None,
        }
    } else if same_text(tag.as_str(), "mouseMove") {
        match (number_of(fields, 1, "x"), number_of(fields, 2, "y")) {
            (Some(x), Some(y)) => if count == 3 {
                Some(UiEvent::MouseMove { x, y })
            } else {
                None
            },
            _ => None,
        }
    } else if same_text(tag.as_str(), "keyPress") {
        match (text_of(fields, 1, "key"), modifiers_of(fields, 2)) {
            (Some(key), Some(modifiers)) => if count == 6 {
                Some(UiEvent::KeyPress { key: key.clone(), modifiers })
            } else {
                None
            },
            _ => None,
        }
    } else if same_text(tag.as_str(), "keyRelease") {
        match (text_of(fields, 1, "key"), modifiers_of(fields, 2)) {
            (Some(key), Some(modifiers)) => if count == 6 {
                Some(UiEvent::KeyRelease { key: key.clone(), modifiers })
            } else {
                None
            },
            _ => None,
        }
    } else if same_text(tag.as_str(), "textInput") {
        match text_of(fields, 1, "text") {
            Some(text) => if count == 2 {
                Some(UiEvent::TextInput { text: text.clone() })
            } else {
                None
            },
            None => None,
        }
    } else if same_text(tag.as_str(), "widgetAction") {
        match (text_of(fields, 1, "widgetId"), action_of_fields(fields, 2)) {
            (Some(widget_id), Some(action)) => Some(
                UiEvent::WidgetAction { widget_id: widget_id.clone(), action },
            ),
            _ => None,
        }
    } else if same_text(tag.as_str(), "windowFocusChanged") {
        match bool_of(fields, 1, "focused") {
            Some(focused) => if count == 2 {
                Some(UiEvent::WindowFocusChanged { focused })
            } else {
                None
            },
            None => None,
        }
    } else if same_text(tag.as_str(), "windowCloseRequested") {
        if count == 1 {
            Some(UiEvent::WindowCloseRequested)
        } else {
            None
        }
    } else if same_text(tag.as_str(), "appExit") {
        if count == 1 {
            Some(UiEvent::AppExit)
        } else {
            None
        }
    } else if same_text(tag.as_str(), "disconnected") {
        if count == 1 {
            Some(UiEvent::Disconnected)
        } else {
            None
        }
    } else {
        None
    }
}

/// The event written as `text`: the inverse of [`serialize_event`]. `None`
/// where `text` is not the text of an event.
pub fn deserialize_event(text: &str) -> (found: Option<UiEvent>)
    ensures
        match found {
            Some(event) => decode_event(text@) == Some(event@),
            None => decode_event(text@) is None,
        },
{
    match parse_object_text(text) {
        Some(fields) => event_from_fields(&fields),
        None => None,
    }
}

} // verus!
