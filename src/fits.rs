//! The fit check: whether upcoming content renders flat within the line width.
use vstd::prelude::*;

use crate::element::{lemma_size_append, size, FormatElement, LineMode};
use crate::error::PrintError;
use crate::predicate::{end_step, FitsEndPredicate};
use crate::queue::{lemma_split_first, lemma_unfold, queue_wf, queued, FitsQueue, PrintQueue, Queue};

verus! {

/// The line width after rendering `e` flat at width `w`, or `None` where it does not fit within
/// `max` (a hard or empty line never does).
pub open spec fn measure(e: FormatElement, w: int, max: int) -> Option<int> {
    match e {
        FormatElement::Space => within(w + 1, max),
        FormatElement::Line(LineMode::Soft) => Some(w),
        FormatElement::Line(LineMode::SoftOrSpace) => within(w + 1, max),
        FormatElement::Line(_) => None,
        FormatElement::Text { text, width } => within(w + width, max),
        FormatElement::Tag(_) => Some(w),
        FormatElement::Interned(_) => Some(w),
    }
}

pub open spec fn within(n: int, max: int) -> Option<int> {
    if n <= max {
        Some(n)
    } else {
        None
    }
}

/// What follows `s[0]` once it is consumed: an interned reference leaves its contents in front.
pub open spec fn after_first(s: Seq<FormatElement>) -> Seq<FormatElement> {
    match s[0] {
        FormatElement::Interned(v) => v@ + s.drop_first(),
        _ => s.drop_first(),
    }
}

/// The outcome of measuring `s` from width `w` with the predicate in state `p`: `Ok(true)` where
/// the predicate ends the measurement or `s` runs out within the width, `Ok(false)` where an
/// element does not fit first, an error where the predicate finds the document malformed.
pub open spec fn fits_spec(s: Seq<FormatElement>, p: FitsEndPredicate, w: int, max: int) -> Result<bool, PrintError>
    decreases size(s),
    via fits_spec_decreases
{
    if s.len() == 0 {
        Ok(true)
    } else {
        match measure(s[0], w, max) {
            None => Ok(false),
            Some(w_next) => match end_step(p, s[0]) {
                Err(e) => Err(e),
                Ok((end, p_next)) => if end {
                    Ok(true)
                } else {
                    fits_spec(after_first(s), p_next, w_next, max)
                },
            },
        }
    }
}

#[via_fn]
proof fn fits_spec_decreases(s: Seq<FormatElement>, p: FitsEndPredicate, w: int, max: int) {
    if s.len() > 0 {
        lemma_size_after_first(s);
    }
}

pub proof fn lemma_size_after_first(s: Seq<FormatElement>)
    requires
        s.len() > 0,
    ensures
        size(after_first(s)) < size(s),
{
    lemma_split_first(s);
    lemma_unfold(s[0], s.drop_first());
    if let FormatElement::Interned(v) = s[0] {
        lemma_size_append(v@, s.drop_first());
    }
}

/// The width after rendering `element` flat at `width`, or `None` where it does not fit.
pub fn measure_element(element: &FormatElement, width: u32, max_width: u32) -> (r: Option<u32>)
    ensures
        match r {
            Some(n) => measure(*element, width as int, max_width as int) == Some(n as int),
            None => measure(*element, width as int, max_width as int) is None,
        },
{
    let next: u64 = match element {
        FormatElement::Space => width as u64 + 1,
        FormatElement::Line(LineMode::SoftOrSpace) => width as u64 + 1,
        FormatElement::Line(LineMode::Soft) | FormatElement::Tag(_) | FormatElement::Interned(_) => {
            return Some(width);
        },
        FormatElement::Line(_) => {
            return None;
        },
        FormatElement::Text { width: text_width, .. } => width as u64 + *text_width as u64,
    };
    if next <= max_width as u64 {
        Some(next as u32)
    } else {
        None
    }
}

/// Measures the content of `queue` from `line_width`: pops elements, each measured and shown to
/// `predicate`, until the predicate ends the measurement, an element does not fit within
/// `max_width`, or the queue runs out.
pub fn fits<'a, Q: Queue<'a>>(queue: &mut Q, predicate: &mut FitsEndPredicate, line_width: u32, max_width: u32) -> (r: Result<bool, PrintError>)
    requires
        queue_wf(*old(queue)),
    ensures
        queue_wf(*final(queue)),
        r == fits_spec(queued(*old(queue)), *old(predicate), line_width as int, max_width as int),
{
    let mut width = line_width;
    loop
        invariant
            queue_wf(*queue),
            fits_spec(queued(*queue), *predicate, width as int, max_width as int)
                == fits_spec(queued(*old(queue)), *old(predicate), line_width as int, max_width as int),
        decreases size(queued(*queue)),
    {
        let ghost s = queued(*queue);
        proof {
            if s.len() > 0 {
                lemma_size_after_first(s);
            }
        }
        let element = match queue.pop() {
            None => {
                return Ok(true);
            },
            Some(e) => e,
        };
        match measure_element(element, width, max_width) {
            None => {
                return Ok(false);
            },
            Some(w) => {
                width = w;
            },
        }
        if let FormatElement::Interned(interned) = element {
            queue.extend_back(interned.as_slice());
        }
        proof {
            assert(queued(*queue) == after_first(s));
        }
        match predicate.is_end(element) {
            Err(e) => {
                return Err(e);
            },
            Ok(true) => {
                return Ok(true);
            },
            Ok(false) => {},
        }
    }
}

/// Whether the content left in `print_queue` fits from `line_width` within `max_width`, measured
/// on a fits queue over it; the print queue itself is only read.
pub fn fits_on_line<'a>(print_queue: &PrintQueue<'a>, predicate: &mut FitsEndPredicate, line_width: u32, max_width: u32) -> (r: Result<bool, PrintError>)
    requires
        queue_wf(*print_queue),
    ensures
        r == fits_spec(queued(*print_queue), *old(predicate), line_width as int, max_width as int),
{
    let mut queue = FitsQueue::new(print_queue, Vec::new());
    let r = fits(&mut queue, predicate, line_width, max_width);
    let _ = queue.finish();
    r
}

} // verus!
