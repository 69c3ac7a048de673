//! Colors as the script writes them.

use vstd::prelude::*;

use crate::text::{
    all_digits, bounded_decimal_of, chars_of, decimal_value, hex_value, hex_value_of,
    lemma_split_len, lowercase_of, only_digits, same_text, slice_of, split, split_at_each,
    starts_with, string_of, strip_all, to_lowercase, trim, trim_end_char, trimmed,
    without_leading, without_trailing,
};

verus! {

/// A parsed color.
#[derive(Debug, Clone, PartialEq, Eq)]
pub enum ColorValue {
    /// Red, green, blue and alpha, each from 0 to 255.
    Rgba { r: u8, g: u8, b: u8, a: u8 },
    /// A color name that this crate does not know, in lower case.
    Named(String),
}

/// Mathematical value of a [`ColorValue`].
pub ghost enum ColorValueView {
    Rgba { r: u8, g: u8, b: u8, a: u8 },
    Named(Seq<char>),
}

impl View for ColorValue {
    type V = ColorValueView;

    open spec fn view(&self) -> ColorValueView {
        match self {
            ColorValue::Rgba { r, g, b, a } => ColorValueView::Rgba { r: *r, g: *g, b: *b, a: *a },
            ColorValue::Named(name) => ColorValueView::Named(name@),
        }
    }
}

/// The value of an optional color.
pub open spec fn option_color(color: Option<ColorValue>) -> Option<ColorValueView> {
    match color {
        Some(c) => Some(c@),
        None => None,
    }
}

/// A color with all four channels given.
pub open spec fn rgba(r: u8, g: u8, b: u8, a: u8) -> ColorValueView {
    ColorValueView::Rgba { r, g, b, a }
}

/// The color that the lower-case name `lower` stands for: one of the names
/// this crate knows, or the name itself.
pub open spec fn named_color(lower: Seq<char>) -> ColorValueView {
    if lower == "white"@ {
        rgba(255, 255, 255, 255)
    } else if lower == "black"@ {
        rgba(0, 0, 0, 255)
    } else if lower == "red"@ {
        rgba(255, 0, 0, 255)
    } else if lower == "green"@ {
        rgba(0, 128, 0, 255)
    } else if lower == "blue"@ {
        rgba(0, 0, 255, 255)
    } else if lower == "yellow"@ {
        rgba(255, 255, 0, 255)
    } else if lower == "cyan"@ {
        rgba(0, 255, 255, 255)
    } else if lower == "magenta"@ {
        rgba(255, 0, 255, 255)
    } else if lower == "orange"@ {
        rgba(255, 165, 0, 255)
    } else if lower == "purple"@ {
        rgba(128, 0, 128, 255)
    } else if lower == "gray"@ || lower == "grey"@ {
        rgba(128, 128, 128, 255)
    } else if lower == "transparent"@ {
        rgba(0, 0, 0, 0)
    } else {
        ColorValueView::Named(lower)
    }
}

/// The channel written as the two characters `c0` and `c1`: two hexadecimal
/// digits, or a plus sign and one digit.
pub open spec fn hex_pair(c0: char, c1: char) -> Option<u8> {
    if c0 == '+' {
        match hex_value(c1) {
            Some(v) => Some(v as u8),
            None => None,
        }
    } else {
        match (hex_value(c0), hex_value(c1)) {
            (Some(hi), Some(lo)) => Some((hi * 16 + lo) as u8),
            _ => None,
        }
    }
}

/// The color written as the hexadecimal digits `hex`: three channels in six
/// characters, or four in eight.
pub open spec fn hex_color(hex: Seq<char>) -> Option<ColorValueView> {
    if hex.len() == 6 {
        match (hex_pair(hex[0], hex[1]), hex_pair(hex[2], hex[3]), hex_pair(hex[4], hex[5])) {
            (Some(r), Some(g), Some(b)) => Some(rgba(r, g, b, 255)),
            _ => None,
        }
    } else if hex.len() == 8 {
        match (
            hex_pair(hex[0], hex[1]),
            hex_pair(hex[2], hex[3]),
            hex_pair(hex[4], hex[5]),
            hex_pair(hex[6], hex[7]),
        ) {
            (Some(r), Some(g), Some(b), Some(a)) => Some(rgba(r, g, b, a)),
            _ => None,
        }
    } else {
        None
    }
}

/// The channel written in decimal as `t`: digits, after a plus sign or
/// without one, that stand for a number up to 255.
pub open spec fn decimal_channel(t: Seq<char>) -> Option<u8> {
    let digits = if t.len() > 0 && t[0] == '+' {
        t.skip(1)
    } else {
        t
    };
    match decimal_value(digits) {
        Some(v) => if v <= 255 {
            Some(v as u8)
        } else {
            None
        },
        None => None,
    }
}

/// 10 to the power `k`.
pub open spec fn pow10(k: nat) -> nat
    decreases k,
{
    if k == 0 {
        1
    } else {
        10 * pow10((k - 1) as nat)
    }
}

/// The number that the digits `s` stand for; 0 for no digits.
pub open spec fn digits_value(s: Seq<char>) -> nat
    decreases s.len(),
{
    if s.len() == 0 {
        0
    } else {
        (s[0] as u32 - '0' as u32) as nat * pow10((s.len() - 1) as nat) + digits_value(s.skip(1))
    }
}

/// The alpha channel written as the fraction `t`: an optional sign, digits,
/// and optionally a point and more digits, with a digit somewhere. The
/// channel is 255 times the fraction, rounded down and kept within 0 to 255.
pub open spec fn alpha_channel(t: Seq<char>) -> Option<u8> {
    let signed = t.len() > 0 && (t[0] == '+' || t[0] == '-');
    let body = if signed {
        t.skip(1)
    } else {
        t
    };
    let pieces = split(body, '.');
    let whole = pieces[0];
    let fraction = if pieces.len() == 2 {
        pieces[1]
    } else {
        Seq::empty()
    };
    if pieces.len() <= 2 && all_digits(whole) && all_digits(fraction) && whole.len()
        + fraction.len() > 0 {
        let scale = pow10(fraction.len());
        let scaled = 255 * (digits_value(whole) * scale + digits_value(fraction)) / scale;
        if t[0] == '-' {
            Some(0)
        } else if scaled >= 255 {
            Some(255)
        } else {
            Some(scaled as u8)
        }
    } else {
        None
    }
}

/// The color written as `rgb(..)` or `rgba(..)` in `s`: what stands between
/// the opening words and the closing brackets is cut at the commas; the
/// first three pieces are the decimal channels, a fourth is the alpha
/// fraction and defaults to opaque; white space around a piece is ignored.
pub open spec fn rgb_color(s: Seq<char>) -> Option<ColorValueView> {
    let inner = trim_end_char(strip_all(strip_all(s, "rgba("@), "rgb("@), ')');
    let parts = split(inner, ',');
    if parts.len() >= 3 {
        match (
            decimal_channel(trim(parts[0])),
            decimal_channel(trim(parts[1])),
            decimal_channel(trim(parts[2])),
        ) {
            (Some(r), Some(g), Some(b)) => if parts.len() >= 4 {
                match alpha_channel(trim(parts[3])) {
                    Some(a) => Some(rgba(r, g, b, a)),
                    None => None,
                }
            } else {
                Some(rgba(r, g, b, 255))
            },
            _ => None,
        }
    } else {
        None
    }
}

/// The color written as `input`: hexadecimal after `#`, channels in
/// `rgb(..)` or `rgba(..)`, or else a name, taken in lower case.
pub open spec fn parse_color(input: Seq<char>) -> Option<ColorValueView> {
    let s = trim(input);
    if s.len() > 0 && s[0] == '#' {
        hex_color(s.skip(1))
    } else if "rgb("@.is_prefix_of(s) || "rgba("@.is_prefix_of(s) {
        rgb_color(s)
    } else {
        Some(named_color(lowercase_of(s)))
    }
}

/// The channel written as the two characters `c0` and `c1`.
fn hex_pair_of(c0: char, c1: char) -> (v: Option<u8>)
    ensures
        v == hex_pair(c0, c1),
{
    if c0 == '+' {
        hex_value_of(c1)
    } else {
        match (hex_value_of(c0), hex_value_of(c1)) {
            (Some(hi), Some(lo)) => Some(hi * 16 + lo),
            _ => None,
        }
    }
}

/// The color written as the hexadecimal digits `hex`.
fn hex_color_of(hex: &Vec<char>) -> (color: Option<ColorValue>)
    ensures
        option_color(color) == hex_color(hex@),
{
    if hex.len() == 6 {
        match (hex_pair_of(hex[0], hex[1]), hex_pair_of(hex[2], hex[3]), hex_pair_of(hex[4], hex[5])) {
            (Some(r), Some(g), Some(b)) => Some(ColorValue::Rgba { r, g, b, a: 255 }),
            _ => None,
        }
    } else if hex.len() == 8 {
        match (
            hex_pair_of(hex[0], hex[1]),
            hex_pair_of(hex[2], hex[3]),
            hex_pair_of(hex[4], hex[5]),
            hex_pair_of(hex[6], hex[7]),
        ) {
            (Some(r), Some(g), Some(b), Some(a)) => Some(ColorValue::Rgba { r, g, b, a }),
            _ => None,
        }
    } else {
        None
    }
}

/// The channel written in decimal as `t`.
fn decimal_channel_of(t: &Vec<char>) -> (v: Option<u8>)
    ensures
        v == decimal_channel(t@),
{
    let digits = if t.len() > 0 && t[0] == '+' {
        slice_of(t, 1, t.len())
    } else {
        slice_of(t, 0, t.len())
    };
    assert(digits@ =~= if t@.len() > 0 && t@[0] == '+' {
        t@.skip(1)
    } else {
        t@
    });
    match bounded_decimal_of(&digits, 255) {
        Some(n) => Some(n as u8),
        None => None,
    }
}

/// A power of ten is positive.
pub proof fn lemma_pow10_positive(k: nat)
    ensures
        pow10(k) > 0,
    decreases k,
{
    if k > 0 {
        lemma_pow10_positive((k - 1) as nat);
    }
}

/// `k` digits stand for a number below 10 to the power `k`, and for 0 only
/// where each of them is `0`.
pub proof fn lemma_digits_value(s: Seq<char>)
    requires
        all_digits(s),
    ensures
        digits_value(s) < pow10(s.len()),
        digits_value(s) == 0 <==> forall|i: int| 0 <= i < s.len() ==> #[trigger] s[i] == '0',
    decreases s.len(),
{
    lemma_pow10_positive(s.len());
    if s.len() > 0 {
        let rest = s.skip(1);
        let p = pow10(rest.len());
        let d = (s[0] as u32 - '0' as u32) as nat;
        assert forall|i: int| 0 <= i < rest.len() implies '0' <= #[trigger] rest[i] <= '9' by {
            assert(rest[i] == s[i + 1]);
        }
        lemma_digits_value(rest);
        lemma_pow10_positive(rest.len());
        assert(d * p + digits_value(rest) < 10 * p) by (nonlinear_arith)
            requires
                d <= 9,
                digits_value(rest) < p,
        ;
        assert(d * p == 0 <==> d == 0) by (nonlinear_arith)
            requires
                p > 0,
        ;
        if digits_value(s) == 0 {
            assert forall|i: int| 0 <= i < s.len() implies #[trigger] s[i] == '0' by {
                if i > 0 {
                    assert(rest[i - 1] == s[i]);
                }
            }
        }
        if forall|i: int| 0 <= i < s.len() ==> #[trigger] s[i] == '0' {
            assert forall|i: int| 0 <= i < rest.len() implies #[trigger] rest[i] == '0' by {
                assert(rest[i] == s[i + 1]);
            }
        }
    }
}

/// Whether every character of `v` is `0`.
fn only_zeros(v: &Vec<char>) -> (yes: bool)
    ensures
        yes == forall|j: int| 0 <= j < v@.len() ==> #[trigger] v@[j] == '0',
{
    let mut i: usize = 0;
    while i < v.len()
        invariant
            i <= v.len(),
            forall|j: int| 0 <= j < i ==> #[trigger] v@[j] == '0',
        decreases v.len() - i,
    {
        if v[i] != '0' {
            return false;
        }
        i += 1;
    }
    true
}

/// 255 times the fraction whose digits are `fraction`, rounded down.
fn scaled_fraction(fraction: &Vec<char>) -> (scaled: u8)
    requires
        all_digits(fraction@),
    ensures
        scaled == 255 * digits_value(fraction@) / pow10(fraction@.len()),
        scaled < 255,
{
    let mut carry: u32 = 0;
    let ghost mut rem: nat = 0;
    let mut i: usize = fraction.len();
    assert(fraction@.skip(fraction.len() as int) =~= Seq::<char>::empty());
    while i > 0
        invariant
            i <= fraction.len(),
            all_digits(fraction@),
            carry <= 255,
            rem < pow10((fraction.len() - i) as nat),
            255 * digits_value(fraction@.skip(i as int)) == carry * pow10(
                (fraction.len() - i) as nat,
            ) + rem,
        decreases i,
    {
        let ghost suffix = fraction@.skip(i as int);
        let ghost p = pow10((fraction.len() - i) as nat);
        let ghost v = digits_value(suffix);
        i -= 1;
        let c = fraction[i];
        let d = c as u32 - '0' as u32;
        let t = 255 * d + carry;
        proof {
            let longer = fraction@.skip(i as int);
            assert(longer[0] == c);
            assert(longer.skip(1) =~= suffix);
            assert(digits_value(longer) == d as nat * p + v);
            let b = (t % 10) as nat;
            let q = (t / 10) as nat;
            assert(255 * (d as nat * p + v) == q * (10 * p) + (b * p + rem)) by (nonlinear_arith)
                requires
                    255 * v == carry as nat * p + rem,
                    t as nat == 255 * d as nat + carry as nat,
                    t as nat == 10 * q + b,
            ;
            assert(b * p + rem < 10 * p) by (nonlinear_arith)
                requires
                    b <= 9,
                    rem < p,
            ;
            rem = b * p + rem;
        }
        carry = t / 10;
    }
    proof {
        assert(fraction@.skip(0) =~= fraction@);
        let scale = pow10(fraction@.len());
        let x = 255 * digits_value(fraction@);
        lemma_pow10_positive(fraction@.len());
        lemma_digits_value(fraction@);
        vstd::arithmetic::div_mod::lemma_fundamental_div_mod_converse(
            x as int,
            scale as int,
            carry as int,
            rem as int,
        );
        assert(carry < 255) by (nonlinear_arith)
            requires
                255 * digits_value(fraction@) == carry * scale + rem,
                digits_value(fraction@) < scale,
        ;
    }
    carry as u8
}

/// The alpha channel written as the fraction `t`.
fn alpha_channel_of(t: &Vec<char>) -> (v: Option<u8>)
    ensures
        v == alpha_channel(t@),
{
    let signed = t.len() > 0 && (t[0] == '+' || t[0] == '-');
    let body = if signed {
        slice_of(t, 1, t.len())
    } else {
        slice_of(t, 0, t.len())
    };
    assert(body@ =~= if signed {
        t@.skip(1)
    } else {
        t@
    });
    let pieces = split_at_each(&body, '.');
    proof {
        lemma_split_len(body@, '.', Seq::empty());
    }
    if pieces.len() == 0 || pieces.len() > 2 {
        return None;
    }
    let empty: Vec<char> = Vec::new();
    let whole = &pieces[0];
    let fraction = if pieces.len() == 2 {
        &pieces[1]
    } else {
        &empty
    };
    if !only_digits(whole) || !only_digits(fraction) || (whole.len() == 0 && fraction.len() == 0) {
        return None;
    }
    proof {
        lemma_digits_value(whole@);
        lemma_pow10_positive(fraction@.len());
    }
    let ghost scale = pow10(fraction@.len());
    let ghost w = digits_value(whole@);
    let ghost f = digits_value(fraction@);
    if t[0] == '-' {
        Some(0)
    } else if !only_zeros(whole) {
        assert(255 * (w * scale + f) / scale >= 255) by (nonlinear_arith)
            requires
                w >= 1,
                scale > 0,
        ;
        Some(255)
    } else {
        assert(w * scale + f == f) by (nonlinear_arith)
            requires
                w == 0,
        ;
        Some(scaled_fraction(fraction))
    }
}

/// The color written as `rgb(..)` or `rgba(..)` in `s`.
fn rgb_color_of(s: &Vec<char>) -> (color: Option<ColorValue>)
    ensures
        option_color(color) == rgb_color(s@),
{
    let rgba_word = chars_of("rgba(");
    let rgb_word = chars_of("rgb(");
    let inner = without_trailing(&without_leading(&without_leading(s, &rgba_word), &rgb_word), ')');
    let parts = split_at_each(&inner, ',');
    if parts.len() < 3 {
        return None;
    }
    let r = decimal_channel_of(&trimmed(&parts[0]));
    let g = decimal_channel_of(&trimmed(&parts[1]));
    let b = decimal_channel_of(&trimmed(&parts[2]));
    match (r, g, b) {
        (Some(r), Some(g), Some(b)) => if parts.len() >= 4 {
            match alpha_channel_of(&trimmed(&parts[3])) {
                Some(a) => Some(ColorValue::Rgba { r, g, b, a }),
                None => None,
            }
        } else {
            Some(ColorValue::Rgba { r, g, b, a: 255 })
        },
        _ => None,
    }
}

/// The four channels with which a color is painted: its own, or those of
/// white where only its name is known.
pub open spec fn painted(color: ColorValueView) -> (u8, u8, u8, u8) {
    match color {
        ColorValueView::Rgba { r, g, b, a } => (r, g, b, a),
        ColorValueView::Named(_) => (255, 255, 255, 255),
    }
}

impl ColorValue {
    /// The four channels with which this color is painted: red, green, blue
    /// and alpha. A color of which only the name is known is painted white.
    pub fn rgba_or_white(&self) -> (channels: (u8, u8, u8, u8))
        ensures
            channels == painted(self@),
    {
        match self {
            ColorValue::Rgba { r, g, b, a } => (*r, *g, *b, *a),
            ColorValue::Named(_) => (255, 255, 255, 255),
        }
    }

    /// The color that the lower-case name `lower` stands for: one of the
    /// names this crate knows, or the name itself.
    pub fn named(lower: &str) -> (color: ColorValue)
        ensures
            color@ == named_color(lower@),
    {
        if same_text(lower, "white") {
            ColorValue::Rgba { r: 255, g: 255, b: 255, a: 255 }
        } else if same_text(lower, "black") {
            ColorValue::Rgba { r: 0, g: 0, b: 0, a: 255 }
        } else if same_text(lower, "red") {
            ColorValue::Rgba { r: 255, g: 0, b: 0, a: 255 }
        } else if same_text(lower, "green") {
            ColorValue::Rgba { r: 0, g: 128, b: 0, a: 255 }
        } else if same_text(lower, "blue") {
            ColorValue::Rgba { r: 0, g: 0, b: 255, a: 255 }
        } else if same_text(lower, "yellow") {
            ColorValue::Rgba { r: 255, g: 255, b: 0, a: 255 }
        } else if same_text(lower, "cyan") {
            ColorValue::Rgba { r: 0, g: 255, b: 255, a: 255 }
        } else if same_text(lower, "magenta") {
            ColorValue::Rgba { r: 255, g: 0, b: 255, a: 255 }
        } else if same_text(lower, "orange") {
            ColorValue::Rgba { r: 255, g: 165, b: 0, a: 255 }
        } else if same_text(lower, "purple") {
            ColorValue::Rgba { r: 128, g: 0, b: 128, a: 255 }
        } else if same_text(lower, "gray") || same_text(lower, "grey") {
            ColorValue::Rgba { r: 128, g: 128, b: 128, a: 255 }
        } else if same_text(lower, "transparent") {
            ColorValue::Rgba { r: 0, g: 0, b: 0, a: 0 }
        } else {
            ColorValue::Named(lower.to_owned())
        }
    }

    /// Parses a color as the script writes it: `#RRGGBB`, `#RRGGBBAA`,
    /// `rgb(r, g, b)`, `rgba(r, g, b, a)`, or a name. `None` where a
    /// hexadecimal or bracketed form does not hold the channels it must.
    pub fn parse(s: &str) -> (color: Option<ColorValue>)
        ensures
            option_color(color) == parse_color(s@),
    {
        let all = chars_of(s);
        let text = trimmed(&all);
        if text.len() > 0 && text[0] == '#' {
            let hex = slice_of(&text, 1, text.len());
            assert(hex@ =~= text@.skip(1));
            hex_color_of(&hex)
        } else if starts_with(&text, &chars_of("rgb(")) || starts_with(&text, &chars_of("rgba(")) {
            rgb_color_of(&text)
        } else {
            let lower = to_lowercase(string_of(&text).as_str());
            Some(ColorValue::named(lower.as_str()))
        }
    }
}

} // verus!
