//! Rules that tell a fit measurement where to stop.
use vstd::prelude::*;

use crate::element::{FormatElement, Tag, TagKind};
use crate::error::{element_kind, spec_element_kind, PrintError};

verus! {

/// Takes every element up to the end of the document.
#[derive(Clone, Copy, Debug, PartialEq, Eq, Structural)]
pub struct AllPredicate;

impl AllPredicate {
    /// Never ends the measurement.
    pub fn is_end(&mut self, element: &FormatElement) -> (r: Result<bool, PrintError>)
        ensures
            r == Ok::<bool, PrintError>(false),
    {
        Ok(false)
    }
}

/// Takes the elements of one entry: from its start tag to the matching end tag.
#[derive(Clone, Copy, Debug, PartialEq, Eq, Structural)]
pub enum SingleEntryPredicate {
    Entry { depth: usize },
    Done,
}

/// The outcome of showing `e` to a single-entry predicate in state `p`: whether the measurement
/// ends there, and the predicate's next state.
pub open spec fn entry_step(p: SingleEntryPredicate, e: FormatElement) -> Result<(bool, SingleEntryPredicate), PrintError> {
    match p {
        SingleEntryPredicate::Done => Ok((true, SingleEntryPredicate::Done)),
        SingleEntryPredicate::Entry { depth } => {
            if e == FormatElement::Tag(Tag::Start(TagKind::Entry)) {
                Ok((false, SingleEntryPredicate::Entry { depth: if depth < usize::MAX { (depth + 1) as usize } else { depth } }))
            } else if e == FormatElement::Tag(Tag::End(TagKind::Entry)) {
                if depth == 0 {
                    Err(PrintError::InvalidEndTag { kind: TagKind::Entry })
                } else if depth == 1 {
                    Ok((true, SingleEntryPredicate::Done))
                } else {
                    Ok((false, SingleEntryPredicate::Entry { depth: (depth - 1) as usize }))
                }
            } else if e is Interned {
                Ok((false, p))
            } else if depth == 0 {
                Err(PrintError::InvalidStartTag { kind: TagKind::Entry, found: spec_element_kind(e) })
            } else {
                Ok((false, p))
            }
        },
    }
}

impl SingleEntryPredicate {
    /// Whether the entry has been measured to its end.
    pub fn is_done(&self) -> (r: bool)
        ensures
            r == (*self is Done),
    {
        matches!(self, SingleEntryPredicate::Done)
    }

    /// Shows `element` to the predicate: `true` once the entry's end tag closes it, and from
    /// then on. An end tag with no open entry, or content before the entry starts, is an error,
    /// and leaves the predicate as it was.
    pub fn is_end(&mut self, element: &FormatElement) -> (r: Result<bool, PrintError>)
        ensures
            match entry_step(*old(self), *element) {
                Ok((end, next)) => r == Ok::<bool, PrintError>(end) && *final(self) == next,
                Err(e) => r == Err::<bool, PrintError>(e) && *final(self) == *old(self),
            },
    {
        match self {
            SingleEntryPredicate::Done => Ok(true),
            SingleEntryPredicate::Entry { depth } => {
                match element {
                    FormatElement::Tag(Tag::Start(TagKind::Entry)) => {
                        if *depth < usize::MAX {
                            *depth = *depth + 1;
                        }
                        Ok(false)
                    },
                    FormatElement::Tag(Tag::End(TagKind::Entry)) => {
                        if *depth == 0 {
                            return Err(PrintError::InvalidEndTag { kind: TagKind::Entry });
                        }
                        *depth = *depth - 1;
                        let is_end = *depth == 0;
                        if is_end {
                            *self = SingleEntryPredicate::Done;
                        }
                        Ok(is_end)
                    },
                    FormatElement::Interned(_) => Ok(false),
                    _ => {
                        if *depth == 0 {
                            return Err(PrintError::InvalidStartTag { kind: TagKind::Entry, found: element_kind(element) });
                        }
                        Ok(false)
                    },
                }
            },
        }
    }
}

impl Default for SingleEntryPredicate {
    /// A predicate waiting for the entry's start tag.
    fn default() -> (r: Self)
        ensures
            r == (SingleEntryPredicate::Entry { depth: 0 }),
    {
        SingleEntryPredicate::Entry { depth: 0 }
    }
}

/// The rule a fit measurement stops by.
#[derive(Clone, Copy, Debug, PartialEq, Eq, Structural)]
pub enum FitsEndPredicate {
    /// Measure everything that remains.
    All(AllPredicate),
    /// Measure one entry.
    SingleEntry(SingleEntryPredicate),
}

/// The outcome of showing `e` to `p`: whether the measurement ends there, and the next state.
pub open spec fn end_step(p: FitsEndPredicate, e: FormatElement) -> Result<(bool, FitsEndPredicate), PrintError> {
    match p {
        FitsEndPredicate::All(a) => Ok((false, p)),
        FitsEndPredicate::SingleEntry(s) => match entry_step(s, e) {
            Ok((end, next)) => Ok((end, FitsEndPredicate::SingleEntry(next))),
            Err(err) => Err(err),
        },
    }
}

impl FitsEndPredicate {
    /// Shows `element` to the predicate; `true` ends the measurement after it.
    pub fn is_end(&mut self, element: &FormatElement) -> (r: Result<bool, PrintError>)
        ensures
            match end_step(*old(self), *element) {
                Ok((end, next)) => r == Ok::<bool, PrintError>(end) && *final(self) == next,
                Err(e) => r == Err::<bool, PrintError>(e) && *final(self) == *old(self),
            },
    {
        match self {
            FitsEndPredicate::All(a) => a.is_end(element),
            FitsEndPredicate::SingleEntry(s) => s.is_end(element),
        }
    }
}

} // verus!
