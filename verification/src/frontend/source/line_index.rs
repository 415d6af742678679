use vstd::prelude::*;
use vstd::string::StringSliceAdditionalSpecFns;

verus! {

/// Zero-based line/column pair resolved from a byte offset.
#[derive(Debug, Clone, Copy, PartialEq, Eq, Structural)]
pub struct LineCol {
    pub line: usize,
    pub column: usize,
}

/// Byte offsets at which lines start: offset 0, then the offset just after
/// every `\n` byte, in order.
pub open spec fn line_starts_of(bytes: Seq<u8>) -> Seq<usize>
    decreases bytes.len(),
{
    if bytes.len() == 0 {
        seq![0usize]
    } else {
        let prev = line_starts_of(bytes.drop_last());
        if bytes.last() == 10u8 {
            prev.push(bytes.len() as usize)
        } else {
            prev
        }
    }
}

/// Line starts are strictly ascending, start at zero and never pass the end.
pub open spec fn line_starts_wf(starts: Seq<usize>, len: nat) -> bool {
    &&& starts.len() >= 1
    &&& starts[0] == 0
    &&& forall|i: int, j: int| 0 <= i < j < starts.len() ==> #[trigger] starts[i] < #[trigger] starts[j]
    &&& forall|i: int| 0 <= i < starts.len() ==> #[trigger] starts[i] <= len
}

pub proof fn lemma_line_starts_wf(bytes: Seq<u8>)
    requires
        bytes.len() <= usize::MAX,
    ensures
        line_starts_wf(line_starts_of(bytes), bytes.len()),
    decreases bytes.len(),
{
    if bytes.len() > 0 {
        lemma_line_starts_wf(bytes.drop_last());
    }
}

/// The line holding `offset`: the last line that starts at or before it.
pub open spec fn is_line_of(starts: Seq<usize>, offset: int, line: int) -> bool {
    &&& 0 <= line < starts.len()
    &&& starts[line] <= offset
    &&& line + 1 < starts.len() ==> offset < starts[line + 1]
}

/// Source line index built from byte offsets.
#[derive(Debug)]
pub struct LineIndex {
    line_starts: Vec<usize>,
    source_len: usize,
}

impl LineIndex {
    #[verifier::type_invariant]
    closed spec fn inv(self) -> bool {
        line_starts_wf(self.line_starts@, self.source_len as nat)
    }

    /// Offsets at which the indexed lines start.
    pub closed spec fn starts(&self) -> Seq<usize> {
        self.line_starts@
    }

    /// Length in bytes of the indexed source.
    pub closed spec fn spec_source_len(&self) -> usize {
        self.source_len
    }

    /// Builds a line index for the given source.
    pub fn new(source: &str) -> (index: Self)
        ensures
            index.starts() == line_starts_of(source.spec_bytes()),
            index.spec_source_len() == source.spec_bytes().len(),
    {
        let bytes = source.as_bytes();
        let mut line_starts: Vec<usize> = Vec::new();
        line_starts.push(0);
        let mut idx: usize = 0;
        while idx < bytes.len()
            invariant
                idx <= bytes@.len(),
                bytes@ == source.spec_bytes(),
                line_starts@ == line_starts_of(bytes@.subrange(0, idx as int)),
            decreases bytes@.len() - idx,
        {
            proof {
                let pre = bytes@.subrange(0, idx as int + 1);
                assert(pre.drop_last() =~= bytes@.subrange(0, idx as int));
                assert(pre.last() == bytes@[idx as int]);
            }
            if bytes[idx] == 10u8 {
                line_starts.push(idx + 1);
            }
            idx = idx + 1;
        }
        proof {
            assert(bytes@.subrange(0, bytes@.len() as int) =~= bytes@);
            lemma_line_starts_wf(bytes@);
        }
        LineIndex { line_starts, source_len: bytes.len() }
    }

    /// Returns the number of indexed lines.
    pub fn line_count(&self) -> (n: usize)
        ensures
            n == self.starts().len(),
            n >= 1,
    {
        proof {
            use_type_invariant(self);
        }
        self.line_starts.len()
    }

    /// Returns the byte offset where the given line starts.
    pub fn line_start(&self, line: usize) -> (r: Option<usize>)
        ensures
            match r {
                Some(start) => line < self.starts().len() && start == self.starts()[line as int],
                None => line >= self.starts().len(),
            },
    {
        if line < self.line_starts.len() {
            Some(self.line_starts[line])
        } else {
            None
        }
    }

    /// Returns all line start byte offsets.
    pub fn line_starts(&self) -> (r: &[usize])
        ensures
            r@ == self.starts(),
            line_starts_wf(self.starts(), self.spec_source_len() as nat),
    {
        proof {
            use_type_invariant(self);
        }
        self.line_starts.as_slice()
    }

    /// Maps a byte offset to a zero-based line/column pair; `None` past the
    /// end of the source.
    pub fn line_col(&self, offset: usize) -> (r: Option<LineCol>)
        ensures
            match r {
                Some(lc) => {
                    &&& offset <= self.spec_source_len()
                    &&& is_line_of(self.starts(), offset as int, lc.line as int)
                    &&& lc.column == offset - self.starts()[lc.line as int]
                },
                None => offset > self.spec_source_len(),
            },
    {
        proof {
            use_type_invariant(self);
        }
        if offset > self.source_len {
            return None;
        }
        let starts = &self.line_starts;
        let mut lo: usize = 0;
        let mut hi: usize = starts.len();
        while hi - lo > 1
            invariant
                line_starts_wf(starts@, self.source_len as nat),
                lo < hi <= starts@.len(),
                starts@[lo as int] <= offset,
                hi < starts@.len() ==> offset < starts@[hi as int],
            decreases hi - lo,
        {
            let mid = lo + (hi - lo) / 2;
            if starts[mid] <= offset {
                lo = mid;
            } else {
                hi = mid;
            }
        }
        let column = offset - starts[lo];
        Some(LineCol { line: lo, column })
    }
}

/// Every offset inside the source lies on exactly one line.
pub proof fn lemma_line_of_unique(starts: Seq<usize>, len: nat, offset: int, a: int, b: int)
    requires
        line_starts_wf(starts, len),
        is_line_of(starts, offset, a),
        is_line_of(starts, offset, b),
    ensures
        a == b,
{
    if a < b {
        assert(starts[a + 1] <= starts[b]) by {
            if a + 1 < b {
                assert(starts[a + 1] < starts[b]);
            }
        }
    } else if b < a {
        assert(starts[b + 1] <= starts[a]) by {
            if b + 1 < a {
                assert(starts[b + 1] < starts[a]);
            }
        }
    }
}

} // verus!
