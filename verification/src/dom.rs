//! What sharing reads of an element of the document.

use crate::atom::Atom;
use crate::data::ElementData;
use crate::inline_list::{block_items, BlockList};
use crate::stylist::ApplicableDeclarationBlock;
use vstd::prelude::*;

verus! {

/// The identity of a node of the document.
#[derive(Clone, Copy, Debug, PartialEq, Eq, Structural)]
pub struct OpaqueNode {
    /// The number of the node.
    pub number: u64,
}

/// The parent of an element. Parents are styled before their children.
#[derive(Clone, Copy, Debug, PartialEq, Eq, Structural)]
pub struct ParentElement {
    /// Which node the parent is.
    pub node: OpaqueNode,
    /// The identity of the parent's computed values.
    pub computed_values: u64,
}

/// The state of an element.
#[derive(Clone, Copy, Debug, PartialEq, Eq, Structural)]
pub struct ElementState {
    /// Whether the element is a visited link.
    pub visited: bool,
    /// Everything else: each bit is one state.
    pub other: u64,
}

/// How links count while presentational hints are made.
#[derive(Clone, Copy, Debug, PartialEq, Eq, Structural)]
pub enum VisitedHandlingMode {
    /// All links are matched as if they were unvisited.
    AllLinksUnvisited,
    /// The relevant link is matched as if it were visited.
    RelevantLinkVisited,
}

/// An element of the document.
///
/// While the document is traversed nothing of this changes.
#[derive(Debug)]
pub struct Element {
    /// Which node the element is.
    pub node: OpaqueNode,
    /// The parent element.
    pub parent: Option<ParentElement>,
    /// Whether the element is native anonymous content.
    pub native_anonymous: bool,
    /// The local name.
    pub local_name: Atom,
    /// The namespace.
    pub namespace: Atom,
    /// Whether the element is a link.
    pub link: bool,
    /// Whether user and author rules can match the element.
    pub user_and_author_rules: bool,
    /// The state.
    pub state: ElementState,
    /// The `id` attribute.
    pub id: Option<Atom>,
    /// The identity of the declarations of the `style` attribute.
    pub style_attribute: Option<u64>,
    /// The classes, in the order of the `class` attribute.
    pub classes: Vec<Atom>,
    /// The presentational hints of legacy attributes, all links being unvisited.
    pub unvisited_hints: Vec<ApplicableDeclarationBlock>,
    /// The presentational hints of legacy attributes, the relevant link being
    /// visited.
    pub visited_hints: Vec<ApplicableDeclarationBlock>,
    /// The style data.
    pub data: Option<ElementData>,
}

impl Element {
    /// The node of the parent element.
    pub open spec fn parent_node(self) -> Option<OpaqueNode> {
        match self.parent {
            Some(parent) => Some(parent.node),
            None => None,
        }
    }

    /// Whether the element has its own style.
    pub open spec fn has_style(self) -> bool {
        self.data matches Some(data) && data.has_styles()
    }

    /// Whether the element has its own style, with its values.
    pub open spec fn is_styled(self) -> bool {
        self.data matches Some(data) && data.primary_values() is Some
    }

    /// The element's own style.
    pub open spec fn primary_style(self) -> crate::data::ComputedStyle {
        self.data->0.styles->0.primary
    }

    /// The presentational hints that `mode` asks for.
    pub open spec fn hints(self, mode: VisitedHandlingMode) -> Seq<ApplicableDeclarationBlock> {
        match mode {
            VisitedHandlingMode::AllLinksUnvisited => self.unvisited_hints@,
            VisitedHandlingMode::RelevantLinkVisited => self.visited_hints@,
        }
    }

    /// Appends the presentational hints that `mode` asks for to `hints`.
    pub(crate) fn synthesize_presentational_hints_for_legacy_attributes(
        &self,
        mode: VisitedHandlingMode,
        hints: &mut BlockList,
    )
        ensures
            block_items(*final(hints)) == block_items(*old(hints)) + self.hints(mode),
    {
        let source: &Vec<ApplicableDeclarationBlock> = match mode {
            VisitedHandlingMode::AllLinksUnvisited => &self.unvisited_hints,
            VisitedHandlingMode::RelevantLinkVisited => &self.visited_hints,
        };
        let ghost before = block_items(*hints);
        let mut i: usize = 0;
        while i < source.len()
            invariant
                i <= source.len(),
                source@ == self.hints(mode),
                block_items(*hints) == before + source@.take(i as int),
            decreases source.len() - i,
        {
            hints.push(source[i]);
            i += 1;
        }
    }
}

} // verus!
