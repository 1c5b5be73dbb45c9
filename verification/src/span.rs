//! Byte ranges of the source text.

use vstd::prelude::*;

verus! {

/// A range of the source text: the byte offset where it starts, and its
/// length in bytes.
#[derive(Clone, Copy, Debug, PartialEq, Eq)]
pub struct SourceSpan(pub usize, pub usize);

impl SourceSpan {
    /// The offset one past the last byte, as a mathematical integer.
    pub open spec fn end(self) -> int {
        self.0 + self.1
    }

    /// The range that starts where `self` starts and ends where `other`
    /// ends. An end beyond the largest offset counts as the largest offset,
    /// and a range that would end before it starts is empty.
    pub open spec fn cover(self, other: SourceSpan) -> SourceSpan {
        let end: int = if other.end() > usize::MAX {
            usize::MAX as int
        } else {
            other.end()
        };
        if end >= self.0 {
            SourceSpan(self.0, (end - self.0) as usize)
        } else {
            SourceSpan(self.0, 0)
        }
    }

    /// Computes [`SourceSpan::cover`].
    pub fn covering(self, other: SourceSpan) -> (r: SourceSpan)
        ensures
            r == self.cover(other),
    {
        let end: usize = other.0.saturating_add(other.1);
        SourceSpan(self.0, end.saturating_sub(self.0))
    }
}

/// Where both ranges fit in the address space and the first does not start
/// after the second ends, the covering range starts with the first and ends
/// with the second.
pub proof fn lemma_cover_is_union(a: SourceSpan, b: SourceSpan)
    requires
        b.end() <= usize::MAX,
        a.0 <= b.end(),
    ensures
        a.cover(b).0 == a.0,
        a.cover(b).end() == b.end(),
{
}

} // verus!
