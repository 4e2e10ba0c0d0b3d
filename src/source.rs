//! The item source as the writer sees it: one poll outcome at a time, and an
//! adapter that remembers exhaustion so that a finished source is never
//! polled again.
use vstd::prelude::*;

verus! {

/// What one poll of the item source gave.
pub enum SourcePoll<T, E> {
    /// The next item, with the number of bytes its encoding needs, where known.
    Item(T, Option<usize>),
    /// The source has no more items, now or later.
    End,
    /// No item is available yet.
    NotReady,
    /// The source failed.
    Error(E),
}

/// Keeps a source from being polled after it has ended.
pub struct FusedSource {
    done: bool,
}

impl FusedSource {
    pub closed spec fn done(&self) -> bool {
        self.done
    }

    /// A source that has not ended yet.
    pub fn new() -> (r: FusedSource)
        ensures
            !r.done(),
    {
        FusedSource { done: false }
    }

    /// Whether the source has yielded `End`; asking has no side effect.
    pub fn is_done(&self) -> (r: bool)
        ensures
            r == self.done(),
    {
        self.done
    }

    /// Passes a poll outcome of the underlying source through. Once `End` has
    /// been seen, every later outcome reads as `End`, whatever was handed in.
    pub fn record<T, E>(&mut self, ev: SourcePoll<T, E>) -> (r: SourcePoll<T, E>)
        ensures
            old(self).done() ==> r is End && final(self).done(),
            !old(self).done() ==> r == ev && final(self).done() == (ev is End),
    {
        if self.done {
            SourcePoll::End
        } else {
            if let SourcePoll::End = ev {
                self.done = true;
            }
            ev
        }
    }
}

} // verus!
