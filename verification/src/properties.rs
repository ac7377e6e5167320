//! The computed values of an element, as far as sharing reads them.

use vstd::prelude::*;

verus! {

/// What the box properties say about transitions and animations.
#[derive(Clone, Copy, Debug, PartialEq, Eq, Structural)]
pub struct BoxStyle {
    /// Whether the style specifies any transition.
    pub transitions: bool,
    /// Whether the style specifies any animation.
    pub animations: bool,
}

impl BoxStyle {
    /// Whether the style specifies any transition.
    pub fn specifies_transitions(&self) -> (answer: bool)
        ensures
            answer == self.transitions,
    {
        self.transitions
    }

    /// Whether the style specifies any animation.
    pub fn specifies_animations(&self) -> (answer: bool)
        ensures
            answer == self.animations,
    {
        self.animations
    }
}

/// One set of computed values. Sets of computed values are told apart by
/// `identity`: elements whose values have the same identity hold one and the
/// same set.
#[derive(Clone, Copy, Debug, PartialEq, Eq, Structural)]
pub struct ComputedValues {
    /// Which set of computed values this is.
    pub identity: u64,
    /// The box properties.
    pub box_style: BoxStyle,
}

impl ComputedValues {
    /// The box properties.
    pub fn get_box(&self) -> (box_style: &BoxStyle)
        ensures
            *box_style == self.box_style,
    {
        &self.box_style
    }
}

} // verus!
