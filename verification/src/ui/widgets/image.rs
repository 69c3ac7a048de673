//! How an image is fitted into its box.

use vstd::prelude::*;

use crate::text::{lowercase_of, same_text, to_lowercase};

verus! {

/// How an image fills the box it is given.
#[derive(Debug, Clone, Copy, PartialEq, Eq, Structural)]
pub enum ObjectFit {
    Contain,
    Cover,
    Fill,
    /// The image keeps its own size.
    Natural,
    ScaleDown,
}

/// The fit that the lower-case word `lower` names; `Contain` for any other word.
pub open spec fn fit_named(lower: Seq<char>) -> ObjectFit {
    if lower == "contain"@ {
        ObjectFit::Contain
    } else if lower == "cover"@ {
        ObjectFit::Cover
    } else if lower == "fill"@ {
        ObjectFit::Fill
    } else if lower == "none"@ {
        ObjectFit::Natural
    } else if lower == "scale-down"@ || lower == "scaledown"@ || lower == "scale_down"@ {
        ObjectFit::ScaleDown
    } else {
        ObjectFit::Contain
    }
}

/// The fit that the lower-case word `lower` names.
pub fn object_fit_named(lower: &str) -> (fit: ObjectFit)
    ensures
        fit == fit_named(lower@),
{
    if same_text(lower, "contain") {
        ObjectFit::Contain
    } else if same_text(lower, "cover") {
        ObjectFit::Cover
    } else if same_text(lower, "fill") {
        ObjectFit::Fill
    } else if same_text(lower, "none") {
        ObjectFit::Natural
    } else if same_text(lower, "scale-down") || same_text(lower, "scaledown") || same_text(
        lower,
        "scale_down",
    ) {
        ObjectFit::ScaleDown
    } else {
        ObjectFit::Contain
    }
}

/// The fit that the word `s` names, in whatever case it is written.
pub fn parse_object_fit(s: &str) -> (fit: ObjectFit)
    ensures
        fit == fit_named(lowercase_of(s@)),
{
    let lower = to_lowercase(s);
    object_fit_named(lower.as_str())
}

} // verus!
