//! Cursors over a stack of element slices: the consuming print queue and the speculative fits
//! queue, and the iterator over the content of a structural region.
use vstd::prelude::*;

use crate::element::{flatten, lemma_flatten_append, lemma_size_append, size, first_nesting, resolve_first, FormatElement, Tag, TagKind};
use crate::error::PrintError;
use crate::stack::StackedStack;

verus! {

broadcast use vstd::std_specs::vec::axiom_vec_index_decreases;

/// The elements of `frames` from the top frame down, each frame in order.
pub open spec fn stacked<'a>(frames: Seq<&'a [FormatElement]>) -> Seq<FormatElement>
    decreases frames.len(),
{
    if frames.len() == 0 {
        Seq::empty()
    } else {
        frames.last()@ + stacked(frames.drop_last())
    }
}

/// The elements still queued: the top frame from `cursor` on, then the frames beneath it.
pub open spec fn remaining<'a>(frames: Seq<&'a [FormatElement]>, cursor: nat) -> Seq<FormatElement> {
    if frames.len() == 0 {
        Seq::empty()
    } else {
        frames.last()@.skip(cursor as int) + stacked(frames.drop_last())
    }
}

/// No frame is empty, and the cursor points into the top frame.
pub open spec fn frames_wf<'a>(frames: Seq<&'a [FormatElement]>, cursor: nat) -> bool {
    &&& forall|i: int| 0 <= i < frames.len() ==> #[trigger] frames[i]@.len() > 0
    &&& frames.len() > 0 ==> cursor < frames.last()@.len()
    &&& frames.len() == 0 ==> cursor == 0
}

pub open spec fn first_of(s: Seq<FormatElement>) -> Option<FormatElement> {
    if s.len() == 0 {
        None
    } else {
        Some(s[0])
    }
}

pub open spec fn deref_opt(r: Option<&FormatElement>) -> Option<FormatElement> {
    match r {
        Some(e) => Some(*e),
        None => None,
    }
}

/// The first element of `s`, resolved through interned references.
pub open spec fn resolved_first(s: Seq<FormatElement>) -> Option<FormatElement> {
    if s.len() == 0 {
        None
    } else {
        resolve_first(s[0])
    }
}

proof fn lemma_remaining_zero<'a>(frames: Seq<&'a [FormatElement]>)
    ensures
        remaining(frames, 0) == stacked(frames),
{
    if frames.len() > 0 {
        assert(frames.last()@.skip(0) =~= frames.last()@);
    }
}

/// Relies on std::slice::from_ref: a slice of one element, borrowed from it.
#[verifier::external_body]
fn slice_of_one<'a>(element: &'a FormatElement) -> (r: &'a [FormatElement])
    ensures
        r@ == seq![*element],
{
    std::slice::from_ref(element)
}

/// The elements still queued in `q`, next first.
pub open spec fn queued<'a, Q: Queue<'a>>(q: Q) -> Seq<FormatElement> {
    remaining(q.frames(), q.cursor())
}

pub open spec fn queue_wf<'a, Q: Queue<'a>>(q: Q) -> bool {
    frames_wf(q.frames(), q.cursor())
}

/// A queue of format elements kept as a stack of slices and a cursor into the top slice.
pub trait Queue<'a>: Sized {
    /// The slices on the stack, bottom first.
    spec fn frames(&self) -> Seq<&'a [FormatElement]>;

    /// The index of the next element in the top slice.
    spec fn cursor(&self) -> nat;

    fn stack_top(&self) -> (r: Option<&'a [FormatElement]>)
        ensures
            r == (if self.frames().len() == 0 {
                None
            } else {
                Some(self.frames().last())
            }),
    ;

    fn stack_pop(&mut self) -> (r: Option<&'a [FormatElement]>)
        ensures
            final(self).cursor() == old(self).cursor(),
            old(self).frames().len() == 0 ==> r is None && final(self).frames() == old(self).frames(),
            old(self).frames().len() > 0 ==> r == Some(old(self).frames().last())
                && final(self).frames() == old(self).frames().drop_last(),
    ;

    fn stack_push(&mut self, slice: &'a [FormatElement])
        ensures
            final(self).cursor() == old(self).cursor(),
            final(self).frames() == old(self).frames().push(slice),
    ;

    fn next_index(&self) -> (r: usize)
        ensures
            r == self.cursor(),
    ;

    fn set_next_index(&mut self, index: usize)
        ensures
            final(self).cursor() == index,
            final(self).frames() == old(self).frames(),
    ;

    /// Removes and returns the next element.
    fn pop(&mut self) -> (r: Option<&'a FormatElement>)
        requires
            frames_wf(old(self).frames(), old(self).cursor()),
        ensures
            frames_wf(final(self).frames(), final(self).cursor()),
            deref_opt(r) == first_of(remaining(old(self).frames(), old(self).cursor())),
            remaining(old(self).frames(), old(self).cursor()).len() == 0 ==> remaining(final(self).frames(), final(self).cursor()) == remaining(old(self).frames(), old(self).cursor()),
            remaining(old(self).frames(), old(self).cursor()).len() > 0 ==> remaining(final(self).frames(), final(self).cursor()) == remaining(old(self).frames(), old(self).cursor()).drop_first(),
    {
        match self.stack_top() {
            Some(top_slice) => {
                let next_index = self.next_index();
                let element = &top_slice[next_index];
                let ghost fr = self.frames();
                proof {
                    assert(fr[fr.len() - 1]@.len() > 0);
                }
                if next_index + 1 == top_slice.len() {
                    self.stack_pop();
                    self.set_next_index(0);
                    proof {
                        lemma_remaining_zero(fr.drop_last());
                        assert(fr.last()@.skip(next_index as int) =~= seq![*element]);
                        assert forall|i: int| 0 <= i < self.frames().len() implies #[trigger] self.frames()[i]@.len() > 0 by {
                            assert(self.frames()[i] == fr[i]);
                        }
                    }
                } else {
                    self.set_next_index(next_index + 1);
                    proof {
                        assert(fr.last()@.skip(next_index as int) =~= seq![*element] + fr.last()@.skip(next_index + 1));
                    }
                }
                proof {
                    assert(remaining(old(self).frames(), old(self).cursor())[0] == *element);
                    assert(remaining(self.frames(), self.cursor()) =~= remaining(old(self).frames(), old(self).cursor()).drop_first());
                }
                Some(element)
            },
            None => None,
        }
    }

    /// The next element, not resolving interned references.
    fn top_with_interned(&self) -> (r: Option<&'a FormatElement>)
        requires
            frames_wf(self.frames(), self.cursor()),
        ensures
            deref_opt(r) == first_of(remaining(self.frames(), self.cursor())),
    {
        match self.stack_top() {
            Some(top_slice) => {
                let ghost fr = self.frames();
                proof {
                    assert(fr[fr.len() - 1]@.len() > 0);
                }
                Some(&top_slice[self.next_index()])
            },
            None => None,
        }
    }

    /// The next element, resolving interned references through their first element.
    fn top(&self) -> (r: Option<&'a FormatElement>)
        requires
            frames_wf(self.frames(), self.cursor()),
        ensures
            deref_opt(r) == resolved_first(remaining(self.frames(), self.cursor())),
    {
        let mut top = self.top_with_interned();
        loop
            invariant
                top is Some ==> resolve_first(*top.unwrap()) == resolved_first(remaining(self.frames(), self.cursor())),
                top is None ==> resolved_first(remaining(self.frames(), self.cursor())) is None,
            decreases (if top is Some { first_nesting(*top.unwrap()) } else { 0 }),
        {
            match top {
                Some(FormatElement::Interned(interned)) => {
                    if interned.len() == 0 {
                        top = None;
                    } else {
                        top = Some(&interned[0]);
                    }
                },
                _ => {
                    return top;
                },
            }
        }
    }

    /// Queues one element to come before all others.
    fn push(&mut self, element: &'a FormatElement)
        requires
            frames_wf(old(self).frames(), old(self).cursor()),
        ensures
            frames_wf(final(self).frames(), final(self).cursor()),
            remaining(final(self).frames(), final(self).cursor()) == seq![*element] + remaining(old(self).frames(), old(self).cursor()),
    {
        self.extend_back(slice_of_one(element));
    }

    /// Queues the elements of a slice to come, in order, before all others. An empty slice is
    /// not pushed: the stack is left as it was.
    fn extend_back(&mut self, elements: &'a [FormatElement])
        requires
            frames_wf(old(self).frames(), old(self).cursor()),
        ensures
            frames_wf(final(self).frames(), final(self).cursor()),
            remaining(final(self).frames(), final(self).cursor()) == elements@ + remaining(old(self).frames(), old(self).cursor()),
            elements@.len() == 0 ==> final(self).frames() == old(self).frames()
                && final(self).cursor() == old(self).cursor(),
    {
        if elements.len() == 0 {
            assert(elements@ + remaining(old(self).frames(), old(self).cursor()) =~= remaining(old(self).frames(), old(self).cursor()));
        } else {
            let next_index = self.next_index();
            let ghost fr = self.frames();
            match self.stack_pop() {
                Some(top) => {
                    proof {
                        assert(fr[fr.len() - 1]@.len() > 0);
                    }
                    let rest = vstd::slice::slice_subrange(top, next_index, top.len());
                    self.stack_push(rest);
                    proof {
                        let f2 = fr.drop_last().push(rest);
                        assert(f2.drop_last() =~= fr.drop_last());
                        assert(rest@ =~= fr.last()@.skip(next_index as int));
                    }
                },
                None => {},
            }
            let ghost mid = self.frames();
            self.stack_push(elements);
            self.set_next_index(0);
            proof {
                assert(self.frames().drop_last() =~= mid);
                assert(elements@.skip(0) =~= elements@);
                assert forall|i: int| 0 <= i < self.frames().len() implies #[trigger] self.frames()[i]@.len() > 0 by {
                    if i < self.frames().len() - 1 {
                        assert(self.frames()[i] == mid[i]);
                        if fr.len() > 0 && i == fr.len() - 1 {
                        } else {
                            assert(mid[i] == fr[i]);
                        }
                    }
                }
            }
        }
    }

    /// An iterator over the content of the region of `kind` in which the queue stands, to be
    /// driven with this queue.
    fn iter_content(&self, kind: TagKind) -> (r: QueueContentIterator)
        ensures
            r.spec_kind() == kind,
            r.spec_depth() == 1,
    {
        QueueContentIterator::new(kind)
    }

    /// Removes the top slice, which is then no longer queued.
    fn pop_slice(&mut self) -> (r: Option<&'a [FormatElement]>)
        requires
            frames_wf(old(self).frames(), old(self).cursor()),
        ensures
            frames_wf(final(self).frames(), final(self).cursor()),
            final(self).cursor() == 0,
            old(self).frames().len() == 0 ==> r is None && final(self).frames() == old(self).frames(),
            old(self).frames().len() > 0 ==> r == Some(old(self).frames().last())
                && final(self).frames() == old(self).frames().drop_last(),
    {
        self.set_next_index(0);
        let r = self.stack_pop();
        proof {
            let fr = self.frames();
            if fr.len() > 0 {
                assert(fr[fr.len() - 1] == old(self).frames()[fr.len() - 1]);
            }
            assert forall|i: int| 0 <= i < fr.len() implies #[trigger] fr[i]@.len() > 0 by {
                assert(fr[i] == old(self).frames()[i]);
            }
        }
        r
    }
}

/// The queue of the elements to print: consumed as output is committed.
pub struct PrintQueue<'a> {
    slices: Vec<&'a [FormatElement]>,
    next_index: usize,
}

impl<'a> PrintQueue<'a> {
    /// A queue holding the elements of `slice`; an empty slice gives an empty queue.
    pub fn new(slice: &'a [FormatElement]) -> (r: Self)
        ensures
            queue_wf(r),
            queued(r) == slice@,
            r.frames().len() == (if slice@.len() == 0 { 0int } else { 1int }),
    {
        let mut slices: Vec<&'a [FormatElement]> = Vec::new();
        if slice.len() > 0 {
            slices.push(slice);
        }
        let r = PrintQueue { slices, next_index: 0 };
        proof {
            if slice@.len() > 0 {
                assert(r.frames().drop_last() =~= Seq::<&'a [FormatElement]>::empty());
                assert(slice@.skip(0) =~= slice@);
                assert(queued(r) =~= slice@);
            }
        }
        r
    }

    /// Whether no element is left to print.
    pub fn is_empty(&self) -> (r: bool)
        requires
            queue_wf(*self),
        ensures
            r == (self.frames().len() == 0),
            r == (queued(*self).len() == 0),
    {
        self.slices.len() == 0
    }
}

impl<'a> Queue<'a> for PrintQueue<'a> {
    closed spec fn frames(&self) -> Seq<&'a [FormatElement]> {
        self.slices@
    }

    closed spec fn cursor(&self) -> nat {
        self.next_index as nat
    }

    fn stack_top(&self) -> (r: Option<&'a [FormatElement]>) {
        let n = self.slices.len();
        if n > 0 {
            Some(self.slices[n - 1])
        } else {
            None
        }
    }

    fn stack_pop(&mut self) -> (r: Option<&'a [FormatElement]>) {
        self.slices.pop()
    }

    fn stack_push(&mut self, slice: &'a [FormatElement]) {
        self.slices.push(slice);
    }

    fn next_index(&self) -> (r: usize) {
        self.next_index
    }

    fn set_next_index(&mut self, index: usize) {
        self.next_index = index;
    }
}

/// A speculative queue for measuring whether content fits on the line: a view over a print
/// queue that never removes anything from it.
pub struct FitsQueue<'a, 'print> {
    stack: StackedStack<'print, &'a [FormatElement]>,
    next_index: usize,
}

impl<'a, 'print> FitsQueue<'a, 'print> {
    /// A queue that holds what `print_queue` holds, reusing the allocation of `saved`.
    pub fn new(print_queue: &'print PrintQueue<'a>, saved: Vec<&'a [FormatElement]>) -> (r: Self)
        ensures
            r.frames() == print_queue.frames(),
            r.cursor() == print_queue.cursor(),
            queued(r) == queued(*print_queue),
    {
        let stack = StackedStack::with_vec(print_queue.slices.as_slice(), saved);
        FitsQueue { stack, next_index: print_queue.next_index }
    }

    /// Takes the queue apart into its frames, bottom first.
    pub fn finish(self) -> (r: Vec<&'a [FormatElement]>)
        ensures
            r@ == self.frames(),
    {
        self.stack.into_vec()
    }
}

impl<'a, 'print> Queue<'a> for FitsQueue<'a, 'print> {
    closed spec fn frames(&self) -> Seq<&'a [FormatElement]> {
        self.stack@
    }

    closed spec fn cursor(&self) -> nat {
        self.next_index as nat
    }

    fn stack_top(&self) -> (r: Option<&'a [FormatElement]>) {
        match self.stack.top() {
            Some(s) => Some(*s),
            None => None,
        }
    }

    fn stack_pop(&mut self) -> (r: Option<&'a [FormatElement]>) {
        self.stack.pop()
    }

    fn stack_push(&mut self, slice: &'a [FormatElement]) {
        self.stack.push(slice);
    }

    fn next_index(&self) -> (r: usize) {
        self.next_index
    }

    fn set_next_index(&mut self, index: usize) {
        self.next_index = index;
    }
}

/// Whether `x` closes the region of `kind` when `depth` regions of it are open.
pub open spec fn closes(x: FormatElement, kind: TagKind, depth: nat) -> bool {
    x == FormatElement::Tag(Tag::End(kind)) && depth == 1
}

/// The number of open regions of `kind` after `x`, counted up to `usize::MAX`.
pub open spec fn next_depth(x: FormatElement, kind: TagKind, depth: nat) -> nat {
    if x == FormatElement::Tag(Tag::Start(kind)) {
        if depth < usize::MAX {
            depth + 1
        } else {
            depth
        }
    } else if x == FormatElement::Tag(Tag::End(kind)) && depth > 0 {
        (depth - 1) as nat
    } else {
        depth
    }
}

/// What follows the end tag that closes `depth` open regions of `kind` in `f`; `None` where
/// `f` ends first.
pub open spec fn after_content(f: Seq<FormatElement>, kind: TagKind, depth: nat) -> Option<Seq<FormatElement>>
    decreases f.len(),
{
    if depth == 0 {
        Some(f)
    } else if f.len() == 0 {
        None
    } else {
        after_content(f.drop_first(), kind, next_depth(f[0], kind, depth))
    }
}

pub proof fn lemma_unfold(x: FormatElement, q: Seq<FormatElement>)
    ensures
        flatten(seq![x] + q) == (match x {
            FormatElement::Interned(v) => flatten(v@) + flatten(q),
            _ => seq![x] + flatten(q),
        }),
        size(seq![x] + q) == (match x {
            FormatElement::Interned(v) => 1 + size(v@) + size(q),
            _ => 1 + size(q),
        }),
{
    let s = seq![x] + q;
    assert(s[0] == x);
    assert(s.drop_first() =~= q);
}

pub proof fn lemma_split_first(s: Seq<FormatElement>)
    requires
        s.len() > 0,
    ensures
        s == seq![s[0]] + s.drop_first(),
{
    assert(s =~= seq![s[0]] + s.drop_first());
}

/// Walks the elements of a region of one tag kind, from inside it up to its matching end tag,
/// with interned references flattened.
pub struct QueueContentIterator {
    kind: TagKind,
    depth: usize,
}

impl QueueContentIterator {
    /// The kind of the region walked.
    pub closed spec fn spec_kind(&self) -> TagKind {
        self.kind
    }

    /// The number of regions of that kind still open; zero once the walk is over.
    pub closed spec fn spec_depth(&self) -> nat {
        self.depth as nat
    }

    /// An iterator that starts inside one open region of `kind`.
    pub fn new(kind: TagKind) -> (r: Self)
        ensures
            r.spec_kind() == kind,
            r.spec_depth() == 1,
    {
        QueueContentIterator { kind, depth: 1 }
    }

    /// The next element of the region taken from `queue`, or `None` once its end tag has been
    /// consumed. The end tag itself is not handed out; nested tags of the kind are.
    pub fn next<'a, Q: Queue<'a>>(&mut self, queue: &mut Q) -> (r: Result<Option<&'a FormatElement>, PrintError>)
        requires
            queue_wf(*old(queue)),
        ensures
            queue_wf(*final(queue)),
            final(self).spec_kind() == old(self).spec_kind(),
            ({
                let f = flatten(queued(*old(queue)));
                let kind = old(self).spec_kind();
                let depth = old(self).spec_depth();
                &&& depth == 0 ==> r == Ok::<Option<&'a FormatElement>, PrintError>(None)
                    && final(self).spec_depth() == 0 && queued(*final(queue)) == queued(*old(queue))
                &&& depth > 0 && f.len() == 0 ==> r == Err::<Option<&'a FormatElement>, PrintError>(PrintError::MissingEnd { kind })
                    && flatten(queued(*final(queue))).len() == 0
                &&& depth > 0 && f.len() > 0 ==> {
                    &&& r is Ok
                    &&& deref_opt(r->Ok_0) == (if closes(f[0], kind, depth) { None } else { Some(f[0]) })
                    &&& final(self).spec_depth() == next_depth(f[0], kind, depth)
                    &&& flatten(queued(*final(queue))) == f.drop_first()
                    &&& size(queued(*final(queue))) < size(queued(*old(queue)))
                }
            }),
    {
        if self.depth == 0 {
            return Ok(None);
        }
        let ghost f0 = flatten(queued(*queue));
        let ghost s0 = size(queued(*queue));
        proof {
            if queued(*queue).len() > 0 {
                lemma_split_first(queued(*queue));
            }
        }
        let mut top = queue.pop();
        loop
            invariant
                queue_wf(*queue),
                *self == *old(self),
                self.depth > 0,
                f0 == flatten(queued(*old(queue))),
                s0 == size(queued(*old(queue))),
                top is Some ==> flatten(seq![*top.unwrap()] + queued(*queue)) == f0
                    && size(seq![*top.unwrap()] + queued(*queue)) <= s0,
                top is None ==> queued(*queue).len() == 0 && f0.len() == 0,
                top is None && queued(*old(queue)).len() == 0 ==> queued(*queue) == queued(*old(queue)),
            decreases (if top is Some { size(seq![*top.unwrap()] + queued(*queue)) } else { 0 }),
        {
            match top {
                Some(FormatElement::Interned(interned)) => {
                    let ghost q1 = queued(*queue);
                    proof {
                        lemma_unfold(*top.unwrap(), q1);
                    }
                    queue.extend_back(interned.as_slice());
                    proof {
                        lemma_flatten_append(interned@, q1);
                        lemma_size_append(interned@, q1);
                        if queued(*queue).len() > 0 {
                            lemma_split_first(queued(*queue));
                        }
                    }
                    top = queue.pop();
                },
                None => {
                    return Err(PrintError::MissingEnd { kind: self.kind });
                },
                Some(element) => {
                    proof {
                        lemma_unfold(*element, queued(*queue));
                        assert(f0[0] == *element);
                        assert(f0.drop_first() =~= flatten(queued(*queue)));
                    }
                    if let FormatElement::Tag(tag) = element {
                        if tag.kind() == self.kind {
                            if tag.is_start() {
                                if self.depth < usize::MAX {
                                    self.depth = self.depth + 1;
                                }
                            } else {
                                self.depth = self.depth - 1;
                                if self.depth == 0 {
                                    return Ok(None);
                                }
                            }
                        }
                    }
                    return Ok(Some(element));
                },
            }
        }
    }
}

/// Consumes from `queue` everything up to and including the end tag that closes the region
/// of `kind` in which the queue stands.
pub fn skip_content<'a, Q: Queue<'a>>(queue: &mut Q, kind: TagKind) -> (r: Result<(), PrintError>)
    requires
        queue_wf(*old(queue)),
    ensures
        queue_wf(*final(queue)),
        match after_content(flatten(queued(*old(queue))), kind, 1) {
            Some(rest) => r is Ok && flatten(queued(*final(queue))) == rest,
            None => r == Err::<(), PrintError>(PrintError::MissingEnd { kind }),
        },
{
    let mut iter = QueueContentIterator::new(kind);
    let ghost goal = after_content(flatten(queued(*queue)), kind, 1);
    loop
        invariant
            queue_wf(*queue),
            iter.spec_kind() == kind,
            goal == after_content(flatten(queued(*old(queue))), kind, 1),
            after_content(flatten(queued(*queue)), kind, iter.spec_depth()) == goal,
        decreases size(queued(*queue)),
    {
        match iter.next(queue) {
            Ok(Some(_)) => {},
            Ok(None) => {
                return Ok(());
            },
            Err(e) => {
                return Err(e);
            },
        }
    }
}

} // verus!
