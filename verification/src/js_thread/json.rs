//! Flat JSON objects: the text for a list of fields, and the fields of a text.
//!
//! A field has a name and a value. A value is either text, written as a JSON
//! string, or a bare token, written as it is: a number, `true` or `false`.

use vstd::prelude::*;

use crate::text::{chars_of, hex_value, hex_value_of};

verus! {


/// The hexadecimal digit for `d`, in lower case.
pub open spec fn hex_digit(d: int) -> char {
    if d == 0 {
        '0'
    } else if d == 1 {
        '1'
    } else if d == 2 {
        '2'
    } else if d == 3 {
        '3'
    } else if d == 4 {
        '4'
    } else if d == 5 {
        '5'
    } else if d == 6 {
        '6'
    } else if d == 7 {
        '7'
    } else if d == 8 {
        '8'
    } else if d == 9 {
        '9'
    } else if d == 10 {
        'a'
    } else if d == 11 {
        'b'
    } else if d == 12 {
        'c'
    } else if d == 13 {
        'd'
    } else if d == 14 {
        'e'
    } else {
        'f'
    }
}

/// How one character stands inside a JSON string: a backslash, a quote, a
/// line feed, a carriage return and a tab get a two-character escape, any
/// other control character gets `\u00` and its two hexadecimal digits, and
/// every other character stands for itself.
pub open spec fn escape_char(c: char) -> Seq<char> {
    if c == '\\' {
        seq!['\\', '\\']
    } else if c == '"' {
        seq!['\\', '"']
    } else if c == '\n' {
        seq!['\\', 'n']
    } else if c == '\r' {
        seq!['\\', 'r']
    } else if c == '\t' {
        seq!['\\', 't']
    } else if (c as u32) < 0x20 {
        seq!['\\', 'u', '0', '0', hex_digit((c as u32) as int / 16), hex_digit((c as u32) as int % 16)]
    } else {
        seq![c]
    }
}

/// How the text `s` stands inside a JSON string: character by character.
pub open spec fn escape(s: Seq<char>) -> Seq<char>
    decreases s.len(),
{
    if s.len() == 0 {
        Seq::empty()
    } else {
        escape_char(s[0]) + escape(s.skip(1))
    }
}

/// Escaping goes character by character, so a character added at the end
/// adds its escape at the end.
pub proof fn lemma_escape_push(s: Seq<char>, c: char)
    ensures
        escape(s.push(c)) == escape(s) + escape_char(c),
    decreases s.len(),
{
    let t = s.push(c);
    if s.len() == 0 {
        assert(t.skip(1) =~= Seq::<char>::empty());
        assert(escape(t.skip(1)) =~= Seq::<char>::empty());
        assert(escape(t) =~= escape(s) + escape_char(c));
    } else {
        assert(t.skip(1) =~= s.skip(1).push(c));
        lemma_escape_push(s.skip(1), c);
        assert(escape(t) =~= escape(s) + escape_char(c));
    }
}

/// The hexadecimal digit for `d`, in lower case.
fn hex_digit_of(d: u32) -> (c: char)
    requires
        d < 16,
    ensures
        c == hex_digit(d as int),
{
    if d == 0 {
        '0'
    } else if d == 1 {
        '1'
    } else if d == 2 {
        '2'
    } else if d == 3 {
        '3'
    } else if d == 4 {
        '4'
    } else if d == 5 {
        '5'
    } else if d == 6 {
        '6'
    } else if d == 7 {
        '7'
    } else if d == 8 {
        '8'
    } else if d == 9 {
        '9'
    } else if d == 10 {
        'a'
    } else if d == 11 {
        'b'
    } else if d == 12 {
        'c'
    } else if d == 13 {
        'd'
    } else if d == 14 {
        'e'
    } else {
        'f'
    }
}

/// Appends to `out` the escape of `c`.
pub fn push_escaped(out: &mut String, c: char)
    ensures
        final(out)@ == old(out)@ + escape_char(c),
{
    if c == '\\' {
        out.push('\\');
        out.push('\\');
    } else if c == '"' {
        out.push('\\');
        out.push('"');
    } else if c == '\n' {
        out.push('\\');
        out.push('n');
    } else if c == '\r' {
        out.push('\\');
        out.push('r');
    } else if c == '\t' {
        out.push('\\');
        out.push('t');
    } else if (c as u32) < 0x20 {
        let code = c as u32;
        out.push('\\');
        out.push('u');
        out.push('0');
        out.push('0');
        out.push(hex_digit_of(code / 16));
        out.push(hex_digit_of(code % 16));
    } else {
        out.push(c);
    }
    assert(out@ =~= old(out)@ + escape_char(c));
}

/// Appends to `out` the escape of `s`.
pub fn append_escaped(out: &mut String, s: &str)
    ensures
        final(out)@ == old(out)@ + escape(s@),
{
    broadcast use vstd::string::group_string_axioms;

    assert(escape(s@.take(0)) =~= Seq::<char>::empty());
    for c in it: s.chars()
        invariant
            it.seq() == s@,
            out@ == old(out)@ + escape(s@.take(it.index())),
    {
        proof {
            let i = it.index();
            assert(s@.take(i + 1) =~= s@.take(i).push(c));
            lemma_escape_push(s@.take(i), c);
        }
        push_escaped(out, c);
    }
    assert(s@.take(s@.len() as int) =~= s@);
}

/// Whether `c` may stand in a bare token: a digit, a letter, a sign or the
/// point. These are the characters of numbers, of `true` and of `false`.
pub open spec fn is_token_char(c: char) -> bool {
    ||| '0' <= c <= '9'
    ||| 'a' <= c <= 'z'
    ||| 'A' <= c <= 'Z'
    ||| c == '+'
    ||| c == '-'
    ||| c == '.'
}

/// Whether `s` can be written as a bare token: it is not empty and holds
/// token characters only.
pub open spec fn is_token(s: Seq<char>) -> bool {
    s.len() > 0 && forall|i: int| 0 <= i < s.len() ==> is_token_char(#[trigger] s[i])
}

/// Whether `c` may stand in a bare token.
pub fn token_char(c: char) -> (ok: bool)
    ensures
        ok == is_token_char(c),
{
    ('0' <= c && c <= '9') || ('a' <= c && c <= 'z') || ('A' <= c && c <= 'Z') || c == '+' || c
        == '-' || c == '.'
}

/// The value of a field.
#[derive(Debug, Clone, PartialEq, Eq)]
pub enum JsonValue {
    /// Text, written between quotes, escaped.
    Text(String),
    /// A number, `true` or `false`, written bare.
    Token(String),
}

/// Mathematical value of a [`JsonValue`].
pub ghost enum JsonValueView {
    Text(Seq<char>),
    Token(Seq<char>),
}

impl View for JsonValue {
    type V = JsonValueView;

    open spec fn view(&self) -> JsonValueView {
        match self {
            JsonValue::Text(s) => JsonValueView::Text(s@),
            JsonValue::Token(s) => JsonValueView::Token(s@),
        }
    }
}

/// One field of an object.
#[derive(Debug, Clone, PartialEq, Eq)]
pub struct JsonField {
    pub name: String,
    pub value: JsonValue,
}

/// Mathematical value of a [`JsonField`].
pub ghost struct JsonFieldView {
    pub name: Seq<char>,
    pub value: JsonValueView,
}

impl View for JsonField {
    type V = JsonFieldView;

    open spec fn view(&self) -> JsonFieldView {
        JsonFieldView { name: self.name@, value: self.value@ }
    }
}

/// The values of a list of fields.
pub open spec fn fields_view(fields: Seq<JsonField>) -> Seq<JsonFieldView> {
    Seq::new(fields.len(), |i: int| fields[i]@)
}

impl JsonValueView {
    /// A bare token is a token.
    pub open spec fn wf(self) -> bool {
        self matches JsonValueView::Token(t) ==> is_token(t)
    }
}

/// Every bare token among the values of `fields` is a token.
pub open spec fn fields_wf(fields: Seq<JsonFieldView>) -> bool {
    forall|i: int| 0 <= i < fields.len() ==> (#[trigger] fields[i]).value.wf()
}

/// `s` as a JSON string: escaped, between quotes.
pub open spec fn quoted(s: Seq<char>) -> Seq<char> {
    seq!['"'] + (escape(s) + seq!['"'])
}

/// The text of a value.
pub open spec fn value_text(v: JsonValueView) -> Seq<char> {
    match v {
        JsonValueView::Text(s) => quoted(s),
        JsonValueView::Token(t) => t,
    }
}

/// The text of a field: the quoted name, a colon, the value.
pub open spec fn field_text(f: JsonFieldView) -> Seq<char> {
    quoted(f.name) + (seq![':'] + value_text(f.value))
}

/// The text of the fields, with a comma between one and the next.
pub open spec fn fields_text(fields: Seq<JsonFieldView>) -> Seq<char>
    decreases fields.len(),
{
    if fields.len() == 0 {
        Seq::empty()
    } else if fields.len() == 1 {
        field_text(fields[0])
    } else {
        field_text(fields[0]) + (seq![','] + fields_text(fields.skip(1)))
    }
}

/// The text of the object that holds `fields`, in order.
pub open spec fn object_text(fields: Seq<JsonFieldView>) -> Seq<char> {
    seq!['{'] + (fields_text(fields) + seq!['}'])
}

/// A field added at the end adds a comma, unless it is the first, and its text.
pub proof fn lemma_fields_text_push(fields: Seq<JsonFieldView>, f: JsonFieldView)
    ensures
        fields_text(fields.push(f)) == if fields.len() == 0 {
            field_text(f)
        } else {
            fields_text(fields) + (seq![','] + field_text(f))
        },
    decreases fields.len(),
{
    let all = fields.push(f);
    if fields.len() == 0 {
    } else if fields.len() == 1 {
        assert(all.skip(1) =~= seq![f]);
        assert(fields_text(seq![f]) == field_text(f));
    } else {
        assert(all.skip(1) =~= fields.skip(1).push(f));
        lemma_fields_text_push(fields.skip(1), f);
        assert(fields_text(all) =~= fields_text(fields) + (seq![','] + field_text(f)));
    }
}

/// The character that the escape at the start of `s` stands for, and the
/// length of that escape; `s` starts with a backslash.
pub open spec fn read_escape(s: Seq<char>) -> Option<(char, int)> {
    if s.len() < 2 {
        None
    } else if s[1] == '\\' {
        Some(('\\', 2))
    } else if s[1] == '"' {
        Some(('"', 2))
    } else if s[1] == '/' {
        Some(('/', 2))
    } else if s[1] == 'n' {
        Some(('\n', 2))
    } else if s[1] == 'r' {
        Some(('\r', 2))
    } else if s[1] == 't' {
        Some(('\t', 2))
    } else if s[1] == 'u' && s.len() >= 6 && s[2] == '0' && s[3] == '0' {
        match (hex_value(s[4]), hex_value(s[5])) {
            (Some(hi), Some(lo)) => Some((((hi * 16 + lo) as u8) as char, 6)),
            _ => None,
        }
    } else {
        None
    }
}

/// Reads a JSON string whose opening quote has been read: the text up to the
/// closing quote, unescaped, and what follows that quote. `None` where the
/// string does not end, holds a bare control character, or holds an escape
/// that [`read_escape`] does not know.
pub open spec fn read_string(s: Seq<char>) -> Option<(Seq<char>, Seq<char>)>
    decreases s.len(),
{
    if s.len() == 0 {
        None
    } else if s[0] == '"' {
        Some((Seq::empty(), s.skip(1)))
    } else if s[0] == '\\' {
        match read_escape(s) {
            Some((c, used)) => match read_string(s.skip(used)) {
                Some((tail, rest)) => Some((seq![c] + tail, rest)),
                None => None,
            },
            None => None,
        }
    } else if (s[0] as u32) < 0x20 {
        None
    } else {
        match read_string(s.skip(1)) {
            Some((tail, rest)) => Some((seq![s[0]] + tail, rest)),
            None => None,
        }
    }
}

/// Reads a bare token: the longest run of token characters at the start of
/// `s`, and what follows it.
pub open spec fn read_token(s: Seq<char>) -> (Seq<char>, Seq<char>)
    decreases s.len(),
{
    if s.len() > 0 && is_token_char(s[0]) {
        let (tail, rest) = read_token(s.skip(1));
        (seq![s[0]] + tail, rest)
    } else {
        (Seq::empty(), s)
    }
}

/// Reads a value: a string where `s` starts with a quote, else a token,
/// which must not be empty.
pub open spec fn read_value(s: Seq<char>) -> Option<(JsonValueView, Seq<char>)> {
    if s.len() > 0 && s[0] == '"' {
        match read_string(s.skip(1)) {
            Some((text, rest)) => Some((JsonValueView::Text(text), rest)),
            None => None,
        }
    } else {
        let (token, rest) = read_token(s);
        if token.len() > 0 {
            Some((JsonValueView::Token(token), rest))
        } else {
            None
        }
    }
}

/// Reads a field: a quoted name, a colon, a value.
pub open spec fn read_field(s: Seq<char>) -> Option<(JsonFieldView, Seq<char>)> {
    if s.len() > 0 && s[0] == '"' {
        match read_string(s.skip(1)) {
            Some((name, rest)) => if rest.len() > 0 && rest[0] == ':' {
                match read_value(rest.skip(1)) {
                    Some((value, rest)) => Some((JsonFieldView { name, value }, rest)),
                    None => None,
                }
            } else {
                None
            },
            None => None,
        }
    } else {
        None
    }
}

/// Reads one field and, after each comma, one more; gives the fields and
/// what follows the last.
pub open spec fn read_fields(s: Seq<char>) -> Option<(Seq<JsonFieldView>, Seq<char>)>
    decreases s.len(),
{
    match read_field(s) {
        Some((f, rest)) => if rest.len() > 0 && rest[0] == ',' {
            if rest.len() <= s.len() {
                match read_fields(rest.skip(1)) {
                    Some((more, rest)) => Some((seq![f] + more, rest)),
                    None => None,
                }
            } else {
                None
            }
        } else {
            Some((seq![f], rest))
        },
        None => None,
    }
}

/// The fields of the object written as `s`; `None` where `s` is not one
/// object of fields as [`object_text`] writes them.
pub open spec fn parse_object(s: Seq<char>) -> Option<Seq<JsonFieldView>> {
    if s.len() >= 2 && s[0] == '{' {
        if s[1] == '}' {
            if s.len() == 2 {
                Some(Seq::empty())
            } else {
                None
            }
        } else {
            match read_fields(s.skip(1)) {
                Some((fields, rest)) => if rest == seq!['}'] {
                    Some(fields)
                } else {
                    None
                },
                None => None,
            }
        }
    } else {
        None
    }
}

/// An escape is read back as the character it stands for.
pub proof fn lemma_read_escaped_char(c: char, rest: Seq<char>)
    ensures
        ({
            let s = escape_char(c) + rest;
            if escape_char(c).len() == 1 {
                s[0] == c && c != '"' && c != '\\' && (c as u32) >= 0x20
            } else {
                s[0] == '\\' && read_escape(s) == Some((c, escape_char(c).len() as int))
            }
        }),
{
    let s = escape_char(c) + rest;
    if c == '\\' || c == '"' || c == '\n' || c == '\r' || c == '\t' {
        assert(s[1] == escape_char(c)[1]);
    } else if (c as u32) < 0x20 {
        let code = (c as u32) as int;
        let hi = code / 16;
        let lo = code % 16;
        assert(s[1] == 'u' && s[2] == '0' && s[3] == '0');
        assert(s[4] == hex_digit(hi));
        assert(s[5] == hex_digit(lo));
        assert(hex_value(hex_digit(hi)) == Some(hi));
        assert(hex_value(hex_digit(lo)) == Some(lo));
        assert(((hi * 16 + lo) as u8) as char == c);
    } else {
    }
}

/// An escaped text, closed by a quote, is read back as the text.
pub proof fn lemma_read_string(text: Seq<char>, rest: Seq<char>)
    ensures
        read_string(escape(text) + (seq!['"'] + rest)) == Some((text, rest)),
    decreases text.len(),
{
    let s = escape(text) + (seq!['"'] + rest);
    if text.len() == 0 {
        assert(s[0] == '"');
        assert(s.skip(1) =~= rest);
    } else {
        let c = text[0];
        let tail = text.skip(1);
        let after = escape(tail) + (seq!['"'] + rest);
        let used = escape_char(c).len() as int;
        assert(s =~= escape_char(c) + after);
        lemma_read_escaped_char(c, after);
        lemma_read_string(tail, rest);
        assert(s.skip(used) =~= after);
        assert(seq![c] + tail =~= text);
    }
}

/// A token is read back whole where no token character follows it.
pub proof fn lemma_read_token(token: Seq<char>, rest: Seq<char>)
    requires
        forall|i: int| 0 <= i < token.len() ==> is_token_char(#[trigger] token[i]),
        rest.len() == 0 || !is_token_char(rest[0]),
    ensures
        read_token(token + rest) == (token, rest),
    decreases token.len(),
{
    let s = token + rest;
    if token.len() == 0 {
        assert(s =~= rest);
    } else {
        assert(s[0] == token[0]);
        assert(s.skip(1) =~= token.skip(1) + rest);
        assert forall|i: int| 0 <= i < token.skip(1).len() implies is_token_char(
            #[trigger] token.skip(1)[i],
        ) by {
            assert(token.skip(1)[i] == token[i + 1]);
        }
        lemma_read_token(token.skip(1), rest);
        assert(seq![token[0]] + token.skip(1) =~= token);
    }
}

/// A value is read back where no token character follows it.
pub proof fn lemma_read_value(v: JsonValueView, rest: Seq<char>)
    requires
        v.wf(),
        rest.len() == 0 || !is_token_char(rest[0]),
    ensures
        read_value(value_text(v) + rest) == Some((v, rest)),
{
    let s = value_text(v) + rest;
    match v {
        JsonValueView::Text(text) => {
            assert(s[0] == '"');
            assert(s.skip(1) =~= escape(text) + (seq!['"'] + rest));
            lemma_read_string(text, rest);
        },
        JsonValueView::Token(token) => {
            assert(s[0] == token[0]);
            lemma_read_token(token, rest);
        },
    }
}

/// A field is read back where no token character follows it.
pub proof fn lemma_read_field(f: JsonFieldView, rest: Seq<char>)
    requires
        f.value.wf(),
        rest.len() == 0 || !is_token_char(rest[0]),
    ensures
        read_field(field_text(f) + rest) == Some((f, rest)),
{
    let s = field_text(f) + rest;
    let after_name = seq![':'] + (value_text(f.value) + rest);
    assert(s[0] == '"');
    assert(s.skip(1) =~= escape(f.name) + (seq!['"'] + after_name));
    lemma_read_string(f.name, after_name);
    assert(after_name[0] == ':');
    assert(after_name.skip(1) =~= value_text(f.value) + rest);
    lemma_read_value(f.value, rest);
}

/// The text of a field is not empty.
pub proof fn lemma_field_text_len(f: JsonFieldView)
    ensures
        field_text(f).len() >= 3,
{
}

/// A list of fields is read back where neither a comma nor a token
/// character follows it.
pub proof fn lemma_read_fields(fields: Seq<JsonFieldView>, rest: Seq<char>)
    requires
        fields.len() >= 1,
        fields_wf(fields),
        rest.len() == 0 || (!is_token_char(rest[0]) && rest[0] != ','),
    ensures
        read_fields(fields_text(fields) + rest) == Some((fields, rest)),
    decreases fields.len(),
{
    let s = fields_text(fields) + rest;
    let f = fields[0];
    assert(f.value.wf());
    if fields.len() == 1 {
        lemma_read_field(f, rest);
        assert(seq![f] =~= fields);
    } else {
        let more = fields.skip(1);
        let after = seq![','] + (fields_text(more) + rest);
        assert(s =~= field_text(f) + after);
        lemma_read_field(f, after);
        assert(after[0] == ',');
        assert(after.skip(1) =~= fields_text(more) + rest);
        assert forall|i: int| 0 <= i < more.len() implies (#[trigger] more[i]).value.wf() by {
            assert(more[i] == fields[i + 1]);
        }
        lemma_read_fields(more, rest);
        assert(seq![f] + more =~= fields);
    }
}

/// Round trip: the text of an object is parsed back into its fields.
pub proof fn lemma_parse_object(fields: Seq<JsonFieldView>)
    requires
        fields_wf(fields),
    ensures
        parse_object(object_text(fields)) == Some(fields),
{
    let s = object_text(fields);
    let close = seq!['}'];
    if fields.len() == 0 {
        assert(s =~= seq!['{', '}']);
        assert(fields =~= Seq::<JsonFieldView>::empty());
    } else {
        assert(s[0] == '{');
        assert(s.skip(1) =~= fields_text(fields) + close);
        lemma_field_text_len(fields[0]);
        assert(field_text(fields[0])[0] == '"');
        assert(fields_text(fields)[0] == '"');
        assert(s[1] == '"');
        assert(close[0] == '}');
        lemma_read_fields(fields, close);
    }
}

/// Appends to `out` the text of `field`.
pub fn append_field(out: &mut String, field: &JsonField)
    ensures
        final(out)@ == old(out)@ + field_text(field@),
{
    out.push('"');
    append_escaped(out, field.name.as_str());
    out.push('"');
    out.push(':');
    match &field.value {
        JsonValue::Text(text) => {
            out.push('"');
            append_escaped(out, text.as_str());
            out.push('"');
        },
        JsonValue::Token(token) => {
            out.append(token.as_str());
        },
    }
    assert(out@ =~= old(out)@ + field_text(field@));
}

/// The text of the object that holds `fields`, in order.
pub fn render_object(fields: &Vec<JsonField>) -> (text: String)
    ensures
        text@ == object_text(fields_view(fields@)),
{
    let ghost all = fields_view(fields@);
    let mut text = String::new();
    text.push('{');
    let mut i: usize = 0;
    while i < fields.len()
        invariant
            i <= fields.len(),
            all == fields_view(fields@),
            text@ == seq!['{'] + fields_text(all.take(i as int)),
        decreases fields.len() - i,
    {
        proof {
            assert(all.take(i + 1) =~= all.take(i as int).push(fields[i as int]@));
            lemma_fields_text_push(all.take(i as int), fields[i as int]@);
        }
        if i > 0 {
            text.push(',');
        }
        append_field(&mut text, &fields[i]);
        i += 1;
        assert(text@ =~= seq!['{'] + fields_text(all.take(i as int)));
    }
    text.push('}');
    assert(all.take(fields.len() as int) =~= all);
    assert(text@ =~= object_text(all));
    text
}

/// The character that the escape at `from` stands for, and the length of
/// that escape.
fn scan_escape(chars: &Vec<char>, from: usize) -> (found: Option<(char, usize)>)
    requires
        from < chars.len(),
    ensures
        match found {
            Some((c, used)) => read_escape(chars@.skip(from as int)) == Some((c, used as int))
                && 2 <= used && from + used <= chars.len(),
            None => read_escape(chars@.skip(from as int)) is None,
        },
{
    let ghost s = chars@.skip(from as int);
    if chars.len() - from < 2 {
        return None;
    }
    let c = chars[from + 1];
    assert(s[1] == c);
    if c == '\\' {
        Some(('\\', 2))
    } else if c == '"' {
        Some(('"', 2))
    } else if c == '/' {
        Some(('/', 2))
    } else if c == 'n' {
        Some(('\n', 2))
    } else if c == 'r' {
        Some(('\r', 2))
    } else if c == 't' {
        Some(('\t', 2))
    } else if c == 'u' && chars.len() - from >= 6 && chars[from + 2] == '0' && chars[from + 3]
        == '0' {
        assert(s[2] == '0' && s[3] == '0');
        assert(s[4] == chars@[from + 4] && s[5] == chars@[from + 5]);
        match (hex_value_of(chars[from + 4]), hex_value_of(chars[from + 5])) {
            (Some(hi), Some(lo)) => Some(((hi * 16 + lo) as char, 6)),
            _ => None,
        }
    } else {
        if c == 'u' && chars.len() - from >= 6 {
            assert(s[2] == chars@[from + 2] && s[3] == chars@[from + 3]);
        }
        None
    }
}

/// Reads, from `from` on, a JSON string whose opening quote has been read:
/// the text, and the position behind the closing quote.
fn scan_string(chars: &Vec<char>, from: usize) -> (found: Option<(String, usize)>)
    requires
        from <= chars.len(),
    ensures
        match found {
            Some((text, next)) => read_string(chars@.skip(from as int)) == Some(
                (text@, chars@.skip(next as int)),
            ) && from < next <= chars.len(),
            None => read_string(chars@.skip(from as int)) is None,
        },
{
    let ghost goal = read_string(chars@.skip(from as int));
    let mut text = String::new();
    let mut at: usize = from;
    assert(Seq::<char>::empty() + Seq::<char>::empty() =~= Seq::<char>::empty());
    loop
        invariant
            from <= at <= chars.len(),
            goal == read_string(chars@.skip(from as int)),
            goal == match read_string(chars@.skip(at as int)) {
                Some((tail, rest)) => Some((text@ + tail, rest)),
                None => None,
            },
        decreases chars.len() - at,
    {
        let ghost s = chars@.skip(at as int);
        if at == chars.len() {
            return None;
        }
        let c = chars[at];
        assert(s[0] == c);
        if c == '"' {
            assert(s.skip(1) =~= chars@.skip(at + 1));
            assert(text@ + Seq::<char>::empty() =~= text@);
            return Some((text, at + 1));
        } else if c == '\\' {
            match scan_escape(chars, at) {
                Some((decoded, used)) => {
                    proof {
                        assert(s.skip(used as int) =~= chars@.skip(at + used));
                        match read_string(chars@.skip(at + used)) {
                            Some((tail, rest)) => {
                                assert(text@ + (seq![decoded] + tail) =~= text@.push(decoded)
                                    + tail);
                            },
                            None => {},
                        }
                    }
                    text.push(decoded);
                    at = at + used;
                },
                None => {
                    return None;
                },
            }
        } else if (c as u32) < 0x20 {
            return None;
        } else {
            proof {
                assert(s.skip(1) =~= chars@.skip(at + 1));
                match read_string(chars@.skip(at + 1)) {
                    Some((tail, rest)) => {
                        assert(text@ + (seq![c] + tail) =~= text@.push(c) + tail);
                    },
                    None => {},
                }
            }
            text.push(c);
            at = at + 1;
        }
    }
}

/// Reads, from `from` on, a bare token: the longest run of token
/// characters, and the position behind it.
fn scan_token(chars: &Vec<char>, from: usize) -> (found: (String, usize))
    requires
        from <= chars.len(),
    ensures
        read_token(chars@.skip(from as int)) == (found.0@, chars@.skip(found.1 as int)),
        from <= found.1 <= chars.len(),
        found.1 - from == found.0@.len(),
        forall|i: int| 0 <= i < found.0@.len() ==> is_token_char(#[trigger] found.0@[i]),
{
    let ghost goal = read_token(chars@.skip(from as int));
    let mut text = String::new();
    let mut at: usize = from;
    assert(Seq::<char>::empty() + read_token(chars@.skip(from as int)).0 =~= read_token(
        chars@.skip(from as int),
    ).0);
    while at < chars.len() && token_char(chars[at])
        invariant
            from <= at <= chars.len(),
            at - from == text@.len(),
            forall|i: int| 0 <= i < text@.len() ==> is_token_char(#[trigger] text@[i]),
            goal == (
                text@ + read_token(chars@.skip(at as int)).0,
                read_token(chars@.skip(at as int)).1,
            ),
        decreases chars.len() - at,
    {
        let c = chars[at];
        proof {
            let s = chars@.skip(at as int);
            assert(s[0] == c);
            assert(s.skip(1) =~= chars@.skip(at + 1));
            let tail = read_token(chars@.skip(at + 1)).0;
            assert(text@ + (seq![c] + tail) =~= text@.push(c) + tail);
        }
        text.push(c);
        at = at + 1;
    }
    proof {
        let s = chars@.skip(at as int);
        if at < chars.len() {
            assert(s[0] == chars@[at as int]);
        }
        assert(text@ + Seq::<char>::empty() =~= text@);
    }
    (text, at)
}

/// Reads, from `from` on, a value, and gives the position behind it.
fn scan_value(chars: &Vec<char>, from: usize) -> (found: Option<(JsonValue, usize)>)
    requires
        from <= chars.len(),
    ensures
        match found {
            Some((value, next)) => read_value(chars@.skip(from as int)) == Some(
                (value@, chars@.skip(next as int)),
            ) && from < next <= chars.len() && value@.wf(),
            None => read_value(chars@.skip(from as int)) is None,
        },
{
    let ghost s = chars@.skip(from as int);
    if from < chars.len() && chars[from] == '"' {
        assert(s[0] == '"');
        assert(s.skip(1) =~= chars@.skip(from + 1));
        match scan_string(chars, from + 1) {
            Some((text, next)) => Some((JsonValue::Text(text), next)),
            None => None,
        }
    } else {
        if from < chars.len() {
            assert(s[0] == chars@[from as int]);
        }
        let (token, next) = scan_token(chars, from);
        if next > from {
            Some((JsonValue::Token(token), next))
        } else {
            None
        }
    }
}

/// Reads, from `from` on, a field, and gives the position behind it.
fn scan_field(chars: &Vec<char>, from: usize) -> (found: Option<(JsonField, usize)>)
    requires
        from <= chars.len(),
    ensures
        match found {
            Some((field, next)) => read_field(chars@.skip(from as int)) == Some(
                (field@, chars@.skip(next as int)),
            ) && from < next <= chars.len() && field@.value.wf(),
            None => read_field(chars@.skip(from as int)) is None,
        },
{
    let ghost s = chars@.skip(from as int);
    if from < chars.len() && chars[from] == '"' {
        assert(s[0] == '"');
        assert(s.skip(1) =~= chars@.skip(from + 1));
        match scan_string(chars, from + 1) {
            Some((name, colon)) => {
                let ghost rest = chars@.skip(colon as int);
                if colon < chars.len() && chars[colon] == ':' {
                    assert(rest[0] == ':');
                    assert(rest.skip(1) =~= chars@.skip(colon + 1));
                    match scan_value(chars, colon + 1) {
                        Some((value, next)) => Some((JsonField { name, value }, next)),
                        None => None,
                    }
                } else {
                    if colon < chars.len() {
                        assert(rest[0] == chars@[colon as int]);
                    }
                    None
                }
            },
            None => None,
        }
    } else {
        if from < chars.len() {
            assert(s[0] == chars@[from as int]);
        }
        None
    }
}

/// Reads, from `from` on, one field and, after each comma, one more; gives
/// the fields and the position behind the last.
fn scan_fields(chars: &Vec<char>, from: usize) -> (found: Option<(Vec<JsonField>, usize)>)
    requires
        from <= chars.len(),
    ensures
        match found {
            Some((fields, next)) => read_fields(chars@.skip(from as int)) == Some(
                (fields_view(fields@), chars@.skip(next as int)),
            ) && from < next <= chars.len() && fields_wf(fields_view(fields@)),
            None => read_fields(chars@.skip(from as int)) is None,
        },
{
    let ghost goal = read_fields(chars@.skip(from as int));
    let mut fields: Vec<JsonField> = Vec::new();
    let mut at: usize = from;
    assert(fields_view(fields@) =~= Seq::<JsonFieldView>::empty());
    proof {
        match read_fields(chars@.skip(at as int)) {
            Some((more, rest)) => {
                assert(Seq::<JsonFieldView>::empty() + more =~= more);
            },
            None => {},
        }
    }
    loop
        invariant
            from <= at <= chars.len(),
            fields_wf(fields_view(fields@)),
            goal == read_fields(chars@.skip(from as int)),
            goal == match read_fields(chars@.skip(at as int)) {
                Some((more, rest)) => Some((fields_view(fields@) + more, rest)),
                None => None,
            },
        decreases chars.len() - at,
    {
        let ghost s = chars@.skip(at as int);
        let ghost done = fields_view(fields@);
        match scan_field(chars, at) {
            Some((field, next)) => {
                let ghost rest = chars@.skip(next as int);
                let ghost f = field@;
                fields.push(field);
                proof {
                    assert(fields_view(fields@) =~= done.push(f));
                    assert(fields_wf(fields_view(fields@))) by {
                        assert forall|i: int| 0 <= i < fields_view(fields@).len() implies (
                        #[trigger] fields_view(fields@)[i]).value.wf() by {
                            if i < done.len() {
                                assert(fields_view(fields@)[i] == done[i]);
                            }
                        }
                    }
                    assert(done + seq![f] =~= done.push(f));
                }
                if next < chars.len() && chars[next] == ',' {
                    proof {
                        assert(rest[0] == ',');
                        assert(rest.skip(1) =~= chars@.skip(next + 1));
                        match read_fields(chars@.skip(next + 1)) {
                            Some((more, after)) => {
                                assert(done + (seq![f] + more) =~= done.push(f) + more);
                            },
                            None => {},
                        }
                    }
                    at = next + 1;
                } else {
                    if next < chars.len() {
                        assert(rest[0] == chars@[next as int]);
                    }
                    return Some((fields, next));
                }
            },
            None => {
                return None;
            },
        }
    }
}

/// The fields of the object written as `text`; `None` where `text` is not
/// one object of fields as [`render_object`] writes them.
pub fn parse_object_text(text: &str) -> (found: Option<Vec<JsonField>>)
    ensures
        match found {
            Some(fields) => parse_object(text@) == Some(fields_view(fields@)) && fields_wf(
                fields_view(fields@),
            ),
            None => parse_object(text@) is None,
        },
{
    let chars = chars_of(text);
    if chars.len() < 2 || chars[0] != '{' {
        return None;
    }
    if chars[1] == '}' {
        if chars.len() == 2 {
            let fields: Vec<JsonField> = Vec::new();
            assert(fields_view(fields@) =~= Seq::<JsonFieldView>::empty());
            return Some(fields);
        } else {
            return None;
        }
    }
    match scan_fields(&chars, 1) {
        Some((fields, next)) => {
            if next < chars.len() && chars.len() - next == 1 && chars[next] == '}' {
                assert(chars@.skip(next as int) =~= seq!['}']);
                Some(fields)
            } else {
                proof {
                    let rest = chars@.skip(next as int);
                    if rest == seq!['}'] {
                        assert(rest.len() == 1);
                        assert(rest[0] == chars@[next as int]);
                    }
                }
                None
            }
        },
        None => None,
    }
}

} // verus!
