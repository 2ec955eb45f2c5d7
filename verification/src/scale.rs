//! The names of the temperature scales.

use vstd::prelude::*;
use crate::text::same_text;

verus! {

/// A temperature scale.
#[derive(Debug, Clone, Copy, PartialEq, Eq)]
pub enum Scale {
    Celsius,
    Farenheit,
}

/// The scale that `name` names: `celsius` or `farenheit`, spelled so.
pub open spec fn scale_of(name: Seq<char>) -> Option<Scale> {
    if name == "celsius"@ {
        Some(Scale::Celsius)
    } else if name == "farenheit"@ {
        Some(Scale::Farenheit)
    } else {
        None
    }
}

/// The scale that `name` names, if it names one.
pub fn scale_named(name: &str) -> (scale: Option<Scale>)
    ensures
        scale == scale_of(name@),
{
    if same_text(name, "celsius") {
        Some(Scale::Celsius)
    } else if same_text(name, "farenheit") {
        Some(Scale::Farenheit)
    } else {
        None
    }
}

} // verus!
