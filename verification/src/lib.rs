//! Style sharing: a small cache of recently styled elements from which an
//! element that is about to be styled may take its style, so that similar nodes
//! do not have to run selector matching twice.
//!
//! When we try to style an element, the target, we first check whether its style
//! matches that of something in the cache, a candidate. This is subject to the
//! following constraints:
//!
//! 1) The target and candidate must be inheriting the same styles.
//! 2) The target and candidate must have exactly the same rules matching them.
//! 3) The target and candidate must have exactly the same non-selector-based
//!    style information (inline styles, presentation hints).
//! 4) The target and candidate must have exactly the same rules matching their
//!    pseudo-elements.
//!
//! They are satisfied in the following ways:
//!
//! * The parents of the target and the candidate have the same computed style.
//! * The target and candidate have the same inline style and presentation hint
//!   declarations.
//! * Elements that have pseudo-element styles are not inserted into the cache.
//! * A target matches a candidate only if they have the same name, kind, state and
//!   classes, and the same results for all revalidation selectors.
//!
//! [`StyleSharingCandidateCache`] is the cache, [`StyleSharingTarget`] the element
//! that looks for a style. `laws` says what holds of the two as a whole, `guarantees`
//! what an element can count on, told by what the elements have and what the style
//! system answered, and `operations` what each operation asks for and does. The rest
//! of the style system answers through `stylist::StyleSystem`.

pub mod atom;
pub mod bits;
pub mod bloom;
pub mod cache;
pub mod candidate;
pub mod checks;
pub mod class_order;
pub mod context;
pub mod data;
pub mod dom;
pub mod inline_list;
pub mod laws;
pub mod operations;
pub mod outcome;
pub mod properties;
pub mod relations;
pub mod guarantees;
pub mod sharing;
pub mod stylist;
pub mod target;
pub mod validation;
pub mod walk;

pub use crate::candidate::StyleSharingCandidate;
pub use crate::outcome::{CacheMiss, StyleSharingResult};
pub use crate::sharing::{
    StyleSharingBehavior, StyleSharingCandidateCache, STYLE_SHARING_CANDIDATE_CACHE_SIZE,
};
pub use crate::target::StyleSharingTarget;
pub use crate::validation::ValidationData;
