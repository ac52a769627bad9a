//! The document element model: tokens, structural tags and interned sub-sequences.
use vstd::prelude::*;

verus! {

broadcast use vstd::std_specs::vec::axiom_vec_index_decreases, vstd::seq::axiom_seq_subrange_decreases;

/// The kind of a structural tag.
#[derive(Clone, Copy, Debug, PartialEq, Eq, Structural)]
pub enum TagKind {
    Entry,
    Group,
    Indent,
    Fill,
    List,
}

/// A structural marker: the start or the end of a region of the given kind.
#[derive(Clone, Copy, Debug, PartialEq, Eq, Structural)]
pub enum Tag {
    Start(TagKind),
    End(TagKind),
}

impl Tag {
    pub open spec fn spec_kind(&self) -> TagKind {
        match *self {
            Tag::Start(k) => k,
            Tag::End(k) => k,
        }
    }

    /// The kind of region this tag delimits.
    #[verifier::when_used_as_spec(spec_kind)]
    pub fn kind(&self) -> (r: TagKind)
        ensures
            r == self.spec_kind(),
    {
        match self {
            Tag::Start(k) => *k,
            Tag::End(k) => *k,
        }
    }

    /// Whether this tag opens a region.
    pub fn is_start(&self) -> (r: bool)
        ensures
            r == (self is Start),
    {
        matches!(self, Tag::Start(_))
    }
}

/// How a line break renders.
#[derive(Clone, Copy, Debug, PartialEq, Eq, Structural)]
pub enum LineMode {
    /// Nothing when flat, a new line when expanded.
    Soft,
    /// A space when flat, a new line when expanded.
    SoftOrSpace,
    /// Always a new line: content holding it never fits on one line.
    Hard,
    /// Always an empty line.
    Empty,
}

/// One unit of the printable document.
#[derive(Debug)]
pub enum FormatElement {
    /// A single space.
    Space,
    /// A line break.
    Line(LineMode),
    /// Text whose rendered width in columns is `width`.
    Text { text: String, width: u32 },
    /// A structural marker.
    Tag(Tag),
    /// A shared sub-sequence that stands for its contents, inlined at this position.
    Interned(Vec<FormatElement>),
}

/// The elements of `s` with every interned reference replaced, recursively, by its contents.
pub open spec fn flatten(s: Seq<FormatElement>) -> Seq<FormatElement>
    decreases s,
{
    if s.len() == 0 {
        Seq::empty()
    } else {
        match s[0] {
            FormatElement::Interned(v) => flatten(v@) + flatten(s.drop_first()),
            _ => seq![s[0]] + flatten(s.drop_first()),
        }
    }
}

/// The number of elements of `s`, counting interned references and everything inside them.
pub open spec fn size(s: Seq<FormatElement>) -> nat
    decreases s,
{
    if s.len() == 0 {
        0
    } else {
        match s[0] {
            FormatElement::Interned(v) => 1 + size(v@) + size(s.drop_first()),
            _ => 1 + size(s.drop_first()),
        }
    }
}

/// The first element of `e` once interned references are resolved through their first element;
/// `None` where an interned reference on the way is empty.
pub open spec fn resolve_first(e: FormatElement) -> Option<FormatElement>
    decreases e,
{
    match e {
        FormatElement::Interned(v) => if v.len() == 0 {
            None
        } else {
            resolve_first(v[0])
        },
        _ => Some(e),
    }
}

/// How many interned references `resolve_first` passes through.
pub open spec fn first_nesting(e: FormatElement) -> nat
    decreases e,
{
    match e {
        FormatElement::Interned(v) => if v.len() == 0 {
            1
        } else {
            1 + first_nesting(v[0])
        },
        _ => 0,
    }
}

pub proof fn lemma_flatten_append(a: Seq<FormatElement>, b: Seq<FormatElement>)
    ensures
        flatten(a + b) == flatten(a) + flatten(b),
    decreases a.len(),
{
    if a.len() == 0 {
        assert(a + b =~= b);
    } else {
        assert((a + b).drop_first() =~= a.drop_first() + b);
        assert((a + b)[0] == a[0]);
        lemma_flatten_append(a.drop_first(), b);
    }
}

pub proof fn lemma_size_append(a: Seq<FormatElement>, b: Seq<FormatElement>)
    ensures
        size(a + b) == size(a) + size(b),
    decreases a.len(),
{
    if a.len() == 0 {
        assert(a + b =~= b);
    } else {
        assert((a + b).drop_first() =~= a.drop_first() + b);
        assert((a + b)[0] == a[0]);
        lemma_size_append(a.drop_first(), b);
    }
}

} // verus!
