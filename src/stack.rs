//! A layered stack: a read-only snapshot of another stack with private frames pushed on top.
use vstd::prelude::*;

verus! {

/// A stack whose lower part is a borrowed, never mutated snapshot of another stack and whose
/// upper part holds the values pushed since. Popping past the private part narrows the borrowed
/// view of the snapshot without touching the snapshot itself.
pub struct StackedStack<'p, T> {
    snapshot: &'p [T],
    stack: Vec<T>,
}

impl<'p, T> View for StackedStack<'p, T> {
    type V = Seq<T>;

    /// The values on the stack, bottom first.
    closed spec fn view(&self) -> Seq<T> {
        self.snapshot@ + self.stack@
    }
}

impl<'p, T: Copy> StackedStack<'p, T> {
    /// A stack that shows `snapshot`, reusing the allocation of `saved`, whose contents are dropped.
    pub fn with_vec(snapshot: &'p [T], saved: Vec<T>) -> (r: Self)
        ensures
            r@ == snapshot@,
    {
        let mut stack = saved;
        stack.clear();
        let r = StackedStack { snapshot, stack };
        assert(r@ =~= snapshot@);
        r
    }

    /// The value on top, if any.
    pub fn top(&self) -> (r: Option<&T>)
        ensures
            r.is_some() == (self@.len() > 0),
            r.is_some() ==> *r.unwrap() == self@.last(),
    {
        let n = self.stack.len();
        if n > 0 {
            Some(&self.stack[n - 1])
        } else if self.snapshot.len() > 0 {
            Some(&self.snapshot[self.snapshot.len() - 1])
        } else {
            None
        }
    }

    /// Removes and returns the value on top, if any.
    pub fn pop(&mut self) -> (r: Option<T>)
        ensures
            old(self)@.len() == 0 ==> r is None && final(self)@ == old(self)@,
            old(self)@.len() > 0 ==> r == Some(old(self)@.last()) && final(self)@ == old(self)@.drop_last(),
    {
        if self.stack.len() > 0 {
            let r = self.stack.pop();
            assert(self@ =~= old(self)@.drop_last());
            r
        } else if self.snapshot.len() > 0 {
            let n = self.snapshot.len() - 1;
            let value = self.snapshot[n];
            self.snapshot = vstd::slice::slice_subrange(self.snapshot, 0, n);
            assert(self@ =~= old(self)@.drop_last());
            Some(value)
        } else {
            None
        }
    }

    /// Pushes `value` on top.
    pub fn push(&mut self, value: T)
        ensures
            final(self)@ == old(self)@.push(value),
    {
        self.stack.push(value);
        assert(self@ =~= old(self)@.push(value));
    }

    /// Whether the stack holds no value.
    pub fn is_empty(&self) -> (r: bool)
        ensures
            r == (self@.len() == 0),
    {
        self.stack.len() == 0 && self.snapshot.len() == 0
    }

    /// All values on the stack, bottom first: the visible snapshot, then the private values.
    pub fn into_vec(self) -> (r: Vec<T>)
        ensures
            r@ == self@,
    {
        let mut r: Vec<T> = Vec::new();
        let mut i: usize = 0;
        while i < self.snapshot.len()
            invariant
                i <= self.snapshot@.len(),
                r@ == self.snapshot@.subrange(0, i as int),
            decreases self.snapshot@.len() - i,
        {
            r.push(self.snapshot[i]);
            i = i + 1;
            assert(r@ =~= self.snapshot@.subrange(0, i as int));
        }
        let mut j: usize = 0;
        while j < self.stack.len()
            invariant
                i == self.snapshot@.len(),
                j <= self.stack@.len(),
                r@ == self.snapshot@.subrange(0, i as int) + self.stack@.subrange(0, j as int),
            decreases self.stack@.len() - j,
        {
            r.push(self.stack[j]);
            j = j + 1;
            assert(r@ =~= self.snapshot@.subrange(0, i as int) + self.stack@.subrange(0, j as int));
        }
        assert(self.stack@.subrange(0, j as int) =~= self.stack@);
        assert(self.snapshot@.subrange(0, i as int) =~= self.snapshot@);
        r
    }
}

} // verus!
