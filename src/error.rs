//! Failures that signal a malformed document.
use vstd::prelude::*;

use crate::element::{FormatElement, TagKind};

verus! {

/// What stood where a start tag was expected.
#[derive(Clone, Copy, Debug, PartialEq, Eq, Structural)]
pub enum ElementKind {
    Space,
    Line,
    Text,
    StartTag(TagKind),
    EndTag(TagKind),
    Interned,
}

pub open spec fn spec_element_kind(e: FormatElement) -> ElementKind {
    match e {
        FormatElement::Space => ElementKind::Space,
        FormatElement::Line(_) => ElementKind::Line,
        FormatElement::Text { .. } => ElementKind::Text,
        FormatElement::Tag(t) => match t {
            crate::element::Tag::Start(k) => ElementKind::StartTag(k),
            crate::element::Tag::End(k) => ElementKind::EndTag(k),
        },
        FormatElement::Interned(_) => ElementKind::Interned,
    }
}

/// The kind of `e`.
pub fn element_kind(e: &FormatElement) -> (r: ElementKind)
    ensures
        r == spec_element_kind(*e),
{
    match e {
        FormatElement::Space => ElementKind::Space,
        FormatElement::Line(_) => ElementKind::Line,
        FormatElement::Text { .. } => ElementKind::Text,
        FormatElement::Tag(crate::element::Tag::Start(k)) => ElementKind::StartTag(*k),
        FormatElement::Tag(crate::element::Tag::End(k)) => ElementKind::EndTag(*k),
        FormatElement::Interned(_) => ElementKind::Interned,
    }
}

/// A malformed document: the only remedy is to fix the stage that built it.
#[derive(Clone, Copy, Debug, PartialEq, Eq, Structural)]
pub enum PrintError {
    /// An end tag of `kind` where no region of that kind was open.
    InvalidEndTag { kind: TagKind },
    /// Content of the given kind where a start tag of `kind` was expected.
    InvalidStartTag { kind: TagKind, found: ElementKind },
    /// The document ended while a region of `kind` was still open.
    MissingEnd { kind: TagKind },
}

} // verus!
