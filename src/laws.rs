//! Properties that relate several operations of the printer queues.
use vstd::prelude::*;

use crate::element::{flatten, lemma_flatten_append, size, FormatElement, LineMode, Tag, TagKind};
use crate::fits::{after_first, fits_spec, lemma_size_after_first};
use crate::predicate::{end_step, FitsEndPredicate, SingleEntryPredicate};
use crate::queue::{after_content, lemma_unfold, next_depth};

verus! {

/// `f` closes every region of `kind` that it opens, starting `d` regions deep, never closes one
/// it did not open, and never nests `usize::MAX` regions deep.
pub open spec fn well_nested(f: Seq<FormatElement>, kind: TagKind, d: nat) -> bool
    decreases f.len(),
{
    if f.len() == 0 {
        d == 0
    } else if f[0] == FormatElement::Tag(Tag::Start(kind)) {
        d + 2 <= usize::MAX && well_nested(f.drop_first(), kind, d + 1)
    } else if f[0] == FormatElement::Tag(Tag::End(kind)) {
        d > 0 && well_nested(f.drop_first(), kind, (d - 1) as nat)
    } else {
        well_nested(f.drop_first(), kind, d)
    }
}

proof fn lemma_well_nested_closes(f: Seq<FormatElement>, rest: Seq<FormatElement>, kind: TagKind, d: nat)
    requires
        well_nested(f, kind, d),
    ensures
        after_content(f + seq![FormatElement::Tag(Tag::End(kind))] + rest, kind, d + 1) == Some(rest),
    decreases f.len(),
{
    let end = FormatElement::Tag(Tag::End(kind));
    let s = f + seq![end] + rest;
    if f.len() == 0 {
        assert(s[0] == end);
        assert(s.drop_first() =~= rest);
        assert(next_depth(end, kind, 1) == 0);
        assert(after_content(rest, kind, 0) == Some(rest));
        assert(after_content(s, kind, 1) == after_content(s.drop_first(), kind, 0));
    } else {
        assert(s[0] == f[0]);
        assert(s.drop_first() =~= f.drop_first() + seq![end] + rest);
        if f[0] == FormatElement::Tag(Tag::Start(kind)) {
            lemma_well_nested_closes(f.drop_first(), rest, kind, d + 1);
        } else if f[0] == end {
            lemma_well_nested_closes(f.drop_first(), rest, kind, (d - 1) as nat);
        } else {
            lemma_well_nested_closes(f.drop_first(), rest, kind, d);
        }
    }
}

/// Walking a region of `kind` whose body is well nested consumes the body and its end tag,
/// each element once, and leaves exactly what follows the region.
pub proof fn lemma_balanced_region_consumed(body: Seq<FormatElement>, rest: Seq<FormatElement>, kind: TagKind)
    requires
        well_nested(flatten(body), kind, 0),
    ensures
        after_content(flatten(body + seq![FormatElement::Tag(Tag::End(kind))] + rest), kind, 1)
            == Some(flatten(rest)),
{
    let end = FormatElement::Tag(Tag::End(kind));
    lemma_flatten_append(body + seq![end], rest);
    lemma_flatten_append(body, seq![end]);
    assert(seq![end].drop_first() =~= Seq::<FormatElement>::empty());
    lemma_unfold(end, Seq::empty());
    assert(seq![end] + Seq::<FormatElement>::empty() =~= seq![end]);
    assert(flatten(seq![end]) =~= seq![end]);
    lemma_well_nested_closes(flatten(body), flatten(rest), kind, 0);
}

/// Replacing a sub-sequence by an interned reference to it leaves the flattened order of the
/// elements, the order in which content is walked, unchanged.
pub proof fn lemma_interning_keeps_order(a: Seq<FormatElement>, v: Vec<FormatElement>, b: Seq<FormatElement>)
    ensures
        flatten(a + seq![FormatElement::Interned(v)] + b) == flatten(a + v@ + b),
{
    let x = FormatElement::Interned(v);
    lemma_flatten_append(a + seq![x], b);
    lemma_flatten_append(a, seq![x]);
    lemma_flatten_append(a + v@, b);
    lemma_flatten_append(a, v@);
    let one = seq![x];
    assert(one[0] == x);
    assert(one.drop_first() =~= Seq::<FormatElement>::empty());
    lemma_unfold(x, Seq::empty());
    assert(one + Seq::<FormatElement>::empty() =~= one);
    assert(flatten(v@) + Seq::<FormatElement>::empty() =~= flatten(v@));
    assert(flatten(one) =~= flatten(v@));
}

proof fn lemma_not_done_after_continue(p: FitsEndPredicate, e: FormatElement)
    requires
        end_step(p, e) is Ok,
        !end_step(p, e)->Ok_0.0,
    ensures
        end_step(p, e)->Ok_0.1 != FitsEndPredicate::SingleEntry(SingleEntryPredicate::Done),
{
}

/// Replacing a sub-sequence by an interned reference to it leaves the outcome of a fit check
/// unchanged, for a predicate that has not already ended the measurement.
pub proof fn lemma_interning_keeps_fits(
    a: Seq<FormatElement>,
    v: Vec<FormatElement>,
    b: Seq<FormatElement>,
    p: FitsEndPredicate,
    w: int,
    max: int,
)
    requires
        p != FitsEndPredicate::SingleEntry(SingleEntryPredicate::Done),
    ensures
        fits_spec(a + seq![FormatElement::Interned(v)] + b, p, w, max) == fits_spec(a + v@ + b, p, w, max),
    decreases size(a),
{
    let x = FormatElement::Interned(v);
    let s1 = a + seq![x] + b;
    let s2 = a + v@ + b;
    if a.len() == 0 {
        assert(s1[0] == x);
        assert(s1.drop_first() =~= b);
        assert(after_first(s1) =~= s2);
        assert(size(s1) > 0) by {
            lemma_size_after_first(s1);
        }
    } else {
        let y = a[0];
        assert(s1[0] == y);
        assert(s2[0] == y);
        let a2 = after_first(a);
        lemma_size_after_first(a);
        assert(after_first(s1) =~= a2 + seq![x] + b);
        assert(after_first(s2) =~= a2 + v@ + b);
        match end_step(p, y) {
            Ok((end, p_next)) => {
                if !end {
                    lemma_not_done_after_continue(p, y);
                    match crate::fits::measure(y, w, max) {
                        Some(w_next) => {
                            lemma_interning_keeps_fits(a2, v, b, p_next, w_next, max);
                        },
                        None => {},
                    }
                }
            },
            Err(_) => {},
        }
    }
}

/// A hard line break met before the predicate ends the measurement means the content does not
/// fit, whatever the width used so far and whatever the predicate's state.
pub proof fn lemma_forced_break_does_not_fit(rest: Seq<FormatElement>, p: FitsEndPredicate, w: int, max: int)
    ensures
        fits_spec(seq![FormatElement::Line(LineMode::Hard)] + rest, p, w, max) == Ok::<bool, crate::error::PrintError>(false),
{
    let s = seq![FormatElement::Line(LineMode::Hard)] + rest;
    assert(s[0] == FormatElement::Line(LineMode::Hard));
}

} // verus!
