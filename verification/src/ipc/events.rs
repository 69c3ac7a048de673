//! Events: what the UI thread reports to the script thread.

use vstd::prelude::*;

use crate::text::{chars_of, string_of};

verus! {

/// The end of the run of decimal digits that starts at `from` in `s`.
pub open spec fn digits_from(s: Seq<char>, from: int) -> int
    decreases s.len() - from,
{
    if 0 <= from < s.len() && '0' <= s[from] <= '9' {
        digits_from(s, from + 1)
    } else {
        from
    }
}

/// Where the digits of the exponent start, for a number whose fraction ends
/// at `frac_end`: behind `e` or `E` and a sign, if there is one. `frac_end`
/// itself where the number has no exponent.
pub open spec fn exponent_start(s: Seq<char>, frac_end: int) -> int {
    if 0 <= frac_end < s.len() && (s[frac_end] == 'e' || s[frac_end] == 'E') {
        if frac_end + 1 < s.len() && (s[frac_end + 1] == '+' || s[frac_end + 1] == '-') {
            frac_end + 2
        } else {
            frac_end + 1
        }
    } else {
        frac_end
    }
}

/// Whether `s` is a number as JSON writes it: an optional minus sign; then
/// `0`, or digits that do not start with `0`; then, optionally, a point and
/// at least one digit; then, optionally, `e` or `E`, an optional sign and at
/// least one digit.
pub open spec fn is_json_number(s: Seq<char>) -> bool {
    let start = if s.len() > 0 && s[0] == '-' {
        1int
    } else {
        0int
    };
    let int_end = digits_from(s, start);
    let has_fraction = int_end < s.len() && s[int_end] == '.';
    let frac_end = if has_fraction {
        digits_from(s, int_end + 1)
    } else {
        int_end
    };
    let exp_start = exponent_start(s, frac_end);
    let end = if exp_start > frac_end {
        digits_from(s, exp_start)
    } else {
        frac_end
    };
    &&& int_end > start
    &&& (s[start] == '0' ==> int_end == start + 1)
    &&& (has_fraction ==> frac_end > int_end + 1)
    &&& (exp_start > frac_end ==> end > exp_start)
    &&& end == s.len()
}

/// A run of digits ends within the text, holds digits only, and stops at
/// the first character that is no digit.
pub proof fn lemma_digits_from(s: Seq<char>, from: int)
    requires
        0 <= from <= s.len(),
    ensures
        from <= digits_from(s, from) <= s.len(),
        forall|k: int| from <= k < digits_from(s, from) ==> '0' <= #[trigger] s[k] <= '9',
        digits_from(s, from) < s.len() ==> !('0' <= s[digits_from(s, from)] <= '9'),
    decreases s.len() - from,
{
    if from < s.len() && '0' <= s[from] <= '9' {
        lemma_digits_from(s, from + 1);
    }
}

/// The end of the run of decimal digits that starts at `from` in `v`.
fn scan_digits(v: &Vec<char>, from: usize) -> (end: usize)
    requires
        from <= v.len(),
    ensures
        end == digits_from(v@, from as int),
        from <= end <= v.len(),
{
    let mut end: usize = from;
    while end < v.len() && '0' <= v[end] && v[end] <= '9'
        invariant
            from <= end <= v.len(),
            digits_from(v@, from as int) == digits_from(v@, end as int),
        decreases v.len() - end,
    {
        end += 1;
    }
    end
}

/// A number as it is written on the wire: a JSON number.
///
/// Coordinates and slider values are fractions. This crate does no arithmetic
/// on them: it carries each as the text that stands for it in the encoded
/// event.
#[derive(Debug, PartialEq, Eq)]
pub struct Number {
    text: String,
}

impl Clone for Number {
    fn clone(&self) -> (copy: Number)
        ensures
            copy@ == self@,
    {
        self.duplicate()
    }
}

impl View for Number {
    type V = Seq<char>;

    closed spec fn view(&self) -> Seq<char> {
        self.text@
    }
}

impl Number {
    #[verifier::type_invariant]
    spec fn valid(self) -> bool {
        is_json_number(self.text@)
    }

    /// The number written as `text`, or `None` where `text` is not a number
    /// as JSON writes it.
    pub fn from_text(text: &str) -> (number: Option<Number>)
        ensures
            number is Some <==> is_json_number(text@),
            number matches Some(n) ==> n@ == text@,
    {
        let chars = chars_of(text);
        let len = chars.len();
        let start: usize = if len > 0 && chars[0] == '-' {
            1
        } else {
            0
        };
        let int_end = scan_digits(&chars, start);
        if int_end == start || (chars[start] == '0' && int_end != start + 1) {
            return None;
        }
        let frac_end = if int_end < len && chars[int_end] == '.' {
            let frac_end = scan_digits(&chars, int_end + 1);
            if frac_end == int_end + 1 {
                return None;
            }
            frac_end
        } else {
            int_end
        };
        let end = if frac_end < len && (chars[frac_end] == 'e' || chars[frac_end] == 'E') {
            let exp_start = if len - frac_end > 1 && (chars[frac_end + 1] == '+' || chars[frac_end
                + 1] == '-') {
                frac_end + 2
            } else {
                frac_end + 1
            };
            let end = scan_digits(&chars, exp_start);
            if end == exp_start {
                return None;
            }
            end
        } else {
            frac_end
        };
        if end != len {
            return None;
        }
        Some(Number { text: string_of(&chars) })
    }

    /// The text that stands for this number on the wire.
    pub fn as_str(&self) -> (text: &str)
        ensures
            text@ == self@,
            is_json_number(self@),
    {
        proof {
            use_type_invariant(self);
        }
        self.text.as_str()
    }

    /// A second copy of this number.
    pub fn duplicate(&self) -> (copy: Number)
        ensures
            copy@ == self@,
    {
        proof {
            use_type_invariant(self);
        }
        Number { text: self.text.clone() }
    }
}

/// The modifier keys held down with a key.
#[derive(Debug, Clone, Copy, PartialEq, Eq, Structural)]
pub struct Modifiers {
    pub shift: bool,
    pub ctrl: bool,
    pub alt: bool,
    pub meta: bool,
}

/// What happened to a widget.
#[derive(Debug, Clone, PartialEq, Eq)]
pub enum WidgetActionKind {
    Click,
    DoubleClick,
    TextChanged(String),
    ValueChanged(Number),
    Custom(String),
}

/// Mathematical value of a [`WidgetActionKind`].
pub ghost enum WidgetActionKindView {
    Click,
    DoubleClick,
    TextChanged(Seq<char>),
    ValueChanged(Seq<char>),
    Custom(Seq<char>),
}

impl View for WidgetActionKind {
    type V = WidgetActionKindView;

    open spec fn view(&self) -> WidgetActionKindView {
        match self {
            WidgetActionKind::Click => WidgetActionKindView::Click,
            WidgetActionKind::DoubleClick => WidgetActionKindView::DoubleClick,
            WidgetActionKind::TextChanged(text) => WidgetActionKindView::TextChanged(text@),
            WidgetActionKind::ValueChanged(value) => WidgetActionKindView::ValueChanged(value@),
            WidgetActionKind::Custom(text) => WidgetActionKindView::Custom(text@),
        }
    }
}

impl WidgetActionKindView {
    /// The number in this value is a number as JSON writes it.
    pub open spec fn wf(self) -> bool {
        self matches WidgetActionKindView::ValueChanged(value) ==> is_json_number(value)
    }
}

impl WidgetActionKind {
    /// A second copy of this action.
    pub fn duplicate(&self) -> (copy: WidgetActionKind)
        ensures
            copy@ == self@,
    {
        match self {
            WidgetActionKind::Click => WidgetActionKind::Click,
            WidgetActionKind::DoubleClick => WidgetActionKind::DoubleClick,
            WidgetActionKind::TextChanged(text) => WidgetActionKind::TextChanged(text.clone()),
            WidgetActionKind::ValueChanged(value) => WidgetActionKind::ValueChanged(
                value.duplicate(),
            ),
            WidgetActionKind::Custom(text) => WidgetActionKind::Custom(text.clone()),
        }
    }
}

/// One notification from the UI thread.
#[derive(Debug, Clone, PartialEq, Eq)]
pub enum UiEvent {
    WindowResized { width: u32, height: u32 },
    MouseClick { x: Number, y: Number },
    MouseMove { x: Number, y: Number },
    KeyPress { key: String, modifiers: Modifiers },
    KeyRelease { key: String, modifiers: Modifiers },
    TextInput { text: String },
    WidgetAction { widget_id: String, action: WidgetActionKind },
    WindowFocusChanged { focused: bool },
    WindowCloseRequested,
    AppExit,
    /// The queue is closed: the other thread is gone.
    Disconnected,
}

/// Mathematical value of a [`UiEvent`].
pub ghost enum UiEventView {
    WindowResized { width: u32, height: u32 },
    MouseClick { x: Seq<char>, y: Seq<char> },
    MouseMove { x: Seq<char>, y: Seq<char> },
    KeyPress { key: Seq<char>, modifiers: Modifiers },
    KeyRelease { key: Seq<char>, modifiers: Modifiers },
    TextInput { text: Seq<char> },
    WidgetAction { widget_id: Seq<char>, action: WidgetActionKindView },
    WindowFocusChanged { focused: bool },
    WindowCloseRequested,
    AppExit,
    Disconnected,
}

impl View for UiEvent {
    type V = UiEventView;

    open spec fn view(&self) -> UiEventView {
        match self {
            UiEvent::WindowResized { width, height } => UiEventView::WindowResized {
                width: *width,
                height: *height,
            },
            UiEvent::MouseClick { x, y } => UiEventView::MouseClick { x: x@, y: y@ },
            UiEvent::MouseMove { x, y } => UiEventView::MouseMove { x: x@, y: y@ },
            UiEvent::KeyPress { key, modifiers } => UiEventView::KeyPress {
                key: key@,
                modifiers: *modifiers,
            },
            UiEvent::KeyRelease { key, modifiers } => UiEventView::KeyRelease {
                key: key@,
                modifiers: *modifiers,
            },
            UiEvent::TextInput { text } => UiEventView::TextInput { text: text@ },
            UiEvent::WidgetAction { widget_id, action } => UiEventView::WidgetAction {
                widget_id: widget_id@,
                action: action@,
            },
            UiEvent::WindowFocusChanged { focused } => UiEventView::WindowFocusChanged {
                focused: *focused,
            },
            UiEvent::WindowCloseRequested => UiEventView::WindowCloseRequested,
            UiEvent::AppExit => UiEventView::AppExit,
            UiEvent::Disconnected => UiEventView::Disconnected,
        }
    }
}

impl UiEventView {
    /// The numbers in this event are numbers as JSON writes them.
    pub open spec fn wf(self) -> bool {
        match self {
            UiEventView::MouseClick { x, y } => is_json_number(x) && is_json_number(y),
            UiEventView::MouseMove { x, y } => is_json_number(x) && is_json_number(y),
            UiEventView::WidgetAction { widget_id, action } => action.wf(),
            _ => true,
        }
    }
}

} // verus!
