//! The style data of an element.

use crate::properties::ComputedValues;
use vstd::prelude::*;

verus! {

/// The style of an element or of one of its pseudo-elements.
#[derive(Clone, Copy, Debug, PartialEq, Eq)]
pub struct ComputedStyle {
    /// The node of the rule tree that stands for the rules that matched.
    pub rules: u64,
    /// The computed values, where they have been computed.
    pub values: Option<ComputedValues>,
}

/// The styles of an element and of its pseudo-elements.
#[derive(Debug, PartialEq, Eq)]
pub struct ElementStyles {
    /// The style of the element itself.
    pub primary: ComputedStyle,
    /// The styles of the pseudo-elements.
    pub pseudos: Vec<ComputedStyle>,
}

impl ElementStyles {
    /// The styles of an element that has no pseudo-element style.
    pub fn new(primary: ComputedStyle) -> (styles: Self)
        ensures
            styles.primary == primary,
            styles.pseudos@ == Seq::<ComputedStyle>::empty(),
    {
        ElementStyles { primary, pseudos: Vec::new() }
    }
}

/// The state of a restyle in progress.
#[derive(Clone, Copy, Debug, PartialEq, Eq)]
pub struct RestyleData {
    /// The restyle hint.
    pub hint: u32,
    /// The damage accumulated so far.
    pub damage: u32,
}

/// The style data of an element: its styles, once it has been styled, and the
/// state of its restyle, while it is restyled.
#[derive(Debug, PartialEq, Eq)]
pub struct ElementData {
    /// The styles.
    pub styles: Option<ElementStyles>,
    /// The restyle in progress.
    pub restyle: Option<RestyleData>,
}

impl ElementData {
    /// Whether the element has been styled.
    pub open spec fn has_styles(self) -> bool {
        self.styles is Some
    }

    /// Whether the element is being restyled.
    pub open spec fn has_restyle(self) -> bool {
        self.restyle is Some
    }

    /// The values of the element's own style, where there are any.
    pub open spec fn primary_values(self) -> Option<ComputedValues> {
        match self.styles {
            Some(styles) => styles.primary.values,
            None => None,
        }
    }

    /// Whether these are the data of an element that had `before` and has taken
    /// over `style`, `restyle` being the restyle data that came out of it.
    pub open spec fn adopted(
        self,
        before: ElementData,
        style: ComputedStyle,
        restyle: RestyleData,
    ) -> bool {
        &&& self.styles matches Some(styles) && styles.primary == style && styles.pseudos@
            == Seq::<ComputedStyle>::empty()
        &&& self.restyle == if before.restyle is Some {
            Some(restyle)
        } else {
            None
        }
    }

    /// Takes the values of the element's own style out of the data.
    pub fn take_primary_values(&mut self) -> (values: Option<ComputedValues>)
        ensures
            values == old(self).primary_values(),
            final(self).restyle == old(self).restyle,
            final(self).primary_values() is None,
            old(self).styles is None ==> final(self).styles is None,
            old(self).styles matches Some(styles) ==> {
                &&& final(self).styles is Some
                &&& final(self).styles->0.primary.rules == styles.primary.rules
                &&& final(self).styles->0.pseudos == styles.pseudos
            },
    {
        match &mut self.styles {
            Some(styles) => styles.primary.values.take(),
            None => None,
        }
    }

    /// Takes over `style`, `restyle` being the restyle data that came out of it.
    /// The element has no pseudo-element styles then.
    pub fn adopt(&mut self, style: ComputedStyle, restyle: RestyleData)
        ensures
            final(self).adopted(*old(self), style, restyle),
    {
        if self.restyle.is_some() {
            self.restyle = Some(restyle);
        }
        self.styles = Some(ElementStyles::new(style));
    }
}

} // verus!
