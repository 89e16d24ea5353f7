//! A Facet's declared, user-facing parameters: the pieces of the parameter surface that
//! carry no floating-point value — the options of a choice control, and a colour.

use vstd::prelude::*;

verus! {

/// One option in a choice control: the value the Facet reads and the label shown.
#[derive(Debug, Clone, PartialEq, Eq)]
pub struct ChoiceOption {
    pub value: String,
    pub label: String,
}

/// An 8-bit-per-channel RGBA colour.
#[derive(Debug, Clone, Copy, PartialEq, Eq, Structural)]
pub struct Rgba {
    pub r: u8,
    pub g: u8,
    pub b: u8,
    pub a: u8,
}

} // verus!
