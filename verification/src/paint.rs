//! Weight and colour for the terminal, by the crate `colored`.
//!
//! What a marked text looks like once it is turned into a string depends on
//! the terminal and on the environment of the process, so that nothing is
//! claimed of it here.

use colored::{ColoredString, Colorize};
use vstd::prelude::*;

verus! {

/// `ColoredString` of `colored`: a text with the marks it was given. It is
/// carried from one call to the next and never looked into.
#[verifier::external_type_specification]
#[verifier::external_body]
pub struct ExColoredString(ColoredString);

/// `Colorize::bold` of `colored`, on a string slice: the text, marked bold.
/// Nothing is claimed of the result.
#[verifier::external_body]
pub(crate) fn bold(text: &str) -> (marked: ColoredString) {
    text.bold()
}

/// `Colorize::green` of `colored`, on a marked text: the same text, marked
/// green as well. Nothing is claimed of the result.
#[verifier::external_body]
pub(crate) fn green(text: ColoredString) -> (marked: ColoredString) {
    text.green()
}

/// `Colorize::yellow` of `colored`, on a marked text: the same text, marked
/// yellow as well. Nothing is claimed of the result.
#[verifier::external_body]
pub(crate) fn yellow(text: ColoredString) -> (marked: ColoredString) {
    text.yellow()
}

} // verus!
