//! An iterator adapter that can look at the element `n` steps ahead without
//! consuming anything: elements pulled early from the wrapped iterator are
//! kept in a buffer, in the order produced, until they are handed out.
use vstd::prelude::*;
use std::collections::VecDeque;
use vstd::std_specs::iter::IteratorSpec;

pub mod laws;
pub mod model;

use crate::model::{back_step, fill, fill_count, front_step, peek_at};

verus! {

/// Adds `peekable_nth()` to every iterator.
pub trait IteratorExt: Iterator + Sized {
    fn peekable_nth(self) -> (r: PeekableNth<Self>)
        ensures
            r.source() == self,
            r.buffered() == Seq::<Self::Item>::empty(),
    ;
}

/// An iterator with a `peek_nth()` method that returns an optional reference
/// to the element `n` steps ahead.
///
/// The elements still to come are `buffered() + source().remaining()`: the
/// buffer holds elements already taken from the wrapped iterator but not yet
/// handed out, oldest first.
#[derive(Clone, Debug)]
pub struct PeekableNth<I: Iterator> {
    iter: I,
    next: VecDeque<I::Item>,
}

impl<I: Iterator> IteratorExt for I {
    fn peekable_nth(self) -> (r: PeekableNth<I>) {
        PeekableNth { iter: self, next: VecDeque::new() }
    }
}

impl<I: Iterator> PeekableNth<I> {
    /// The wrapped iterator.
    pub closed spec fn source(&self) -> I {
        self.iter
    }

    /// Elements taken from the wrapped iterator and not yet handed out,
    /// oldest first.
    pub closed spec fn buffered(&self) -> Seq<I::Item> {
        self.next@
    }

    /// The wrapped iterator keeps to the laws that relate `next` to the
    /// elements it has still to produce. Those laws hold only of iterators
    /// that end: a source that never ends, such as `0..`, is left out.
    pub open spec fn wf(&self) -> bool {
        self.source().obeys_prophetic_iter_laws()
    }

    /// Returns a reference to the next value without advancing the iterator.
    pub fn peek(&mut self) -> (r: Option<&I::Item>)
        requires
            old(self).wf(),
        ensures
            final(self).wf(),
            (final(self).buffered(), final(self).source().remaining())
                == fill(old(self).buffered(), old(self).source().remaining(), 0),
            peek_at(old(self).buffered(), old(self).source().remaining(), 0) == match r {
                Some(x) => Some(*x),
                None => None,
            },
    {
        self.peek_nth(0)
    }

    /// Returns a reference to the value `n` steps ahead without advancing the
    /// iterator. Elements pulled from the wrapped iterator on the way are kept
    /// for later peeks and for `next`.
    pub fn peek_nth(&mut self, n: usize) -> (r: Option<&I::Item>)
        requires
            old(self).wf(),
        ensures
            final(self).wf(),
            (final(self).buffered(), final(self).source().remaining())
                == fill(old(self).buffered(), old(self).source().remaining(), n as int),
            peek_at(old(self).buffered(), old(self).source().remaining(), n as int) == match r {
                Some(x) => Some(*x),
                None => None,
            },
    {
        let ghost buf0 = self.next@;
        let ghost rest0 = self.iter.remaining();
        while self.next.len() <= n
            invariant
                self.wf(),
                buf0.len() <= self.next@.len() <= buf0.len() + rest0.len(),
                self.next@.len() <= buf0.len() || self.next@.len() <= n + 1,
                self.next@ == buf0 + rest0.take(self.next@.len() - buf0.len()),
                self.iter.remaining() == rest0.skip(self.next@.len() - buf0.len()),
            ensures
                self.wf(),
                buf0.len() <= self.next@.len() <= buf0.len() + rest0.len(),
                self.next@.len() <= buf0.len() || self.next@.len() <= n + 1,
                self.next@ == buf0 + rest0.take(self.next@.len() - buf0.len()),
                self.iter.remaining() == rest0.skip(self.next@.len() - buf0.len()),
                self.next@.len() <= n ==> self.iter.remaining().len() == 0,
            decreases n + 1 - self.next@.len(),
        {
            let ghost k = self.next@.len() - buf0.len();
            match self.iter.next() {
                Some(x) => {
                    self.next.push_back(x);
                    assert(rest0.take(k + 1) =~= rest0.take(k).push(x));
                    assert(rest0.skip(k + 1) =~= rest0.skip(k).drop_first());
                },
                None => {
                    break;
                },
            }
        }
        proof {
            let m = fill_count(buf0, rest0, n as int);
            assert(m == self.next@.len() - buf0.len());
            assert(buf0 + rest0 =~= self.next@ + self.iter.remaining());
        }
        if n < self.next.len() {
            Some(&self.next[n])
        } else {
            None
        }
    }

    /// The number of buffered elements.
    fn buffered_len(&self) -> (r: usize)
        ensures
            r == self.buffered().len(),
    {
        self.next.len()
    }

    /// Hands out the next element: the oldest buffered one if any, else the
    /// next one of the wrapped iterator.
    pub fn next(&mut self) -> (r: Option<I::Item>)
        requires
            old(self).wf(),
        ensures
            final(self).wf(),
            (r, final(self).buffered(), final(self).source().remaining())
                == front_step(old(self).buffered(), old(self).source().remaining()),
    {
        if self.next.len() == 0 {
            self.iter.next()
        } else {
            self.next.pop_front()
        }
    }
}

impl<I: DoubleEndedIterator> PeekableNth<I> {
    /// Hands out the last element. The wrapped iterator's own back end comes
    /// first: only once it is exhausted does the newest buffered element go.
    pub fn next_back(&mut self) -> (r: Option<I::Item>)
        requires
            old(self).wf(),
        ensures
            final(self).wf(),
            (r, final(self).buffered(), final(self).source().remaining())
                == back_step(old(self).buffered(), old(self).source().remaining()),
    {
        match self.iter.next_back() {
            None => {
                if self.next.len() > 0 {
                    self.next.pop_back()
                } else {
                    None
                }
            },
            option => option,
        }
    }
}

/// Relies on `ExactSizeIterator::len`, the count the wrapped iterator
/// reports of the elements it has still to produce. The trait is safe to
/// implement and std does not hold an implementation to that count, so
/// nothing is claimed of the result.
#[verifier::external_body]
fn source_len<I: ExactSizeIterator>(iter: &I) -> (r: usize) {
    iter.len()
}

impl<I: Iterator> PeekableNth<I> {
    /// The number of elements still to come when the wrapped iterator has
    /// `source_count` still to produce: that count and the buffered elements.
    pub fn len_with(&self, source_count: usize) -> (r: usize)
        requires
            source_count + self.buffered().len() <= usize::MAX,
        ensures
            r == source_count + self.buffered().len(),
    {
        source_count + self.buffered_len()
    }
}

impl<I: ExactSizeIterator> PeekableNth<I> {
    /// The number of elements still to come: the count the wrapped iterator
    /// reports, plus the buffered elements (see `len_with`). It is exact when
    /// the wrapped iterator reports its count truly; std cannot promise that
    /// of every `ExactSizeIterator`, and its own `len` panics on an
    /// implementation whose `size_hint` is not exact. Where the sum does not
    /// fit in `usize`, the result is `usize::MAX`.
    pub fn len(&self) -> (r: usize)
        ensures
            r >= self.buffered().len(),
    {
        let n = source_len(&self.iter);
        let b = self.buffered_len();
        if n <= usize::MAX - b {
            self.len_with(n)
        } else {
            usize::MAX
        }
    }
}

}
