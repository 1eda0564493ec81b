//! The source model: an immutable source buffer with its origin, and the
//! position resolver that maps a byte offset to a 1-based line and a
//! 0-based column.

use vstd::prelude::*;
use crate::tree::Span;

verus! {

/// Where a source buffer came from: a concrete file path, or the sentinel
/// for synthetic input (in-memory or interactive source with no file
/// behind it).
pub enum Origin {
    File(String),
    Synthetic,
}

/// The display path of an origin: the path's text for a concrete file,
/// the empty sequence for synthetic input.
pub open spec fn origin_display(o: Origin) -> Seq<char> {
    match o {
        Origin::File(p) => p@,
        Origin::Synthetic => Seq::<char>::empty(),
    }
}

/// An immutable source buffer: the text of one compilation unit and the
/// origin it came from. Owned by the host; the transform only borrows it.
pub struct SourceBuffer {
    pub text: Vec<u8>,
    pub origin: Origin,
}

/// Ghost view of a source buffer.
pub struct SourceBufferV {
    pub text: Seq<u8>,
    pub origin_path: Seq<char>,
}

impl View for SourceBuffer {
    type V = SourceBufferV;

    open spec fn view(&self) -> SourceBufferV {
        SourceBufferV { text: self.text@, origin_path: origin_display(self.origin) }
    }
}

impl SourceBuffer {
    /// Machine limit: lines and columns are reported as `u32`, so the
    /// buffer must leave them representable.
    pub open spec fn wf(self) -> bool {
        self.text@.len() < u32::MAX
    }
}

/// The newline byte that terminates a line.
pub open spec fn is_newline(b: u8) -> bool {
    b == 10
}

/// How many newline bytes `s` holds.
pub open spec fn newline_count(s: Seq<u8>) -> nat
    decreases s.len(),
{
    if s.len() == 0 {
        0
    } else {
        newline_count(s.subrange(0, s.len() - 1)) + if is_newline(s[s.len() - 1]) {
            1nat
        } else {
            0nat
        }
    }
}

/// The 1-based line of offset `off`: one more than the newlines before it.
pub open spec fn line_of(text: Seq<u8>, off: int) -> nat {
    newline_count(text.subrange(0, off)) + 1
}

/// The offset of the first byte of the line containing `off`: just after
/// the last newline strictly before `off`.
pub open spec fn line_start(text: Seq<u8>, off: int) -> int
    decreases off,
{
    if off <= 0 {
        0
    } else if is_newline(text[off - 1]) {
        off
    } else {
        line_start(text, off - 1)
    }
}

/// The 0-based column of offset `off`: its distance from its line's start.
pub open spec fn col_of(text: Seq<u8>, off: int) -> nat {
    (off - line_start(text, off)) as nat
}

/// There are at most as many newlines as bytes.
pub proof fn lemma_newline_count_le(s: Seq<u8>)
    ensures
        newline_count(s) <= s.len(),
    decreases s.len(),
{
    if s.len() > 0 {
        lemma_newline_count_le(s.subrange(0, s.len() - 1));
    }
}

/// Why a span could not be resolved.
#[derive(Clone, Copy, PartialEq, Eq, Structural, Debug)]
pub enum ResolveError {
    /// The span's offsets are out of order (`lo > hi`).
    MalformedSpan,
    /// The span's start lies beyond the buffer it claims to point into.
    OutOfRange,
}

/// The resolved position of a span's start offset: the origin's display
/// path (empty when the origin is synthetic), a 1-based line and a
/// 0-based column.
#[derive(Debug)]
pub struct Position {
    pub origin: String,
    pub line: u32,
    pub col: u32,
}

/// Ghost view of a position.
pub struct PositionV {
    pub origin: Seq<char>,
    pub line: nat,
    pub col: nat,
}

impl View for Position {
    type V = PositionV;

    open spec fn view(&self) -> PositionV {
        PositionV { origin: self.origin@, line: self.line as nat, col: self.col as nat }
    }
}

impl SourceBuffer {
    /// Resolves a span's start offset against this buffer: the origin's
    /// display path plus the offset's 1-based line and 0-based column.
    /// Fails exactly on a malformed span (`lo > hi`) or a start offset
    /// beyond the buffer; an unknown origin is not a failure and degrades
    /// to an empty path.
    pub fn resolve(&self, span: Span) -> (r: Result<Position, ResolveError>)
        requires
            self.wf(),
        ensures
            r is Ok <==> span.wf() && span.lo <= self@.text.len(),
            r is Ok ==> r->Ok_0@ == (PositionV {
                origin: self@.origin_path,
                line: line_of(self@.text, span.lo as int),
                col: col_of(self@.text, span.lo as int),
            }),
            span.lo > span.hi ==> r == Result::<Position, ResolveError>::Err(
                ResolveError::MalformedSpan,
            ),
            span.lo <= span.hi && span.lo > self@.text.len() ==> r == Result::<
                Position,
                ResolveError,
            >::Err(ResolveError::OutOfRange),
    {
        if span.lo > span.hi {
            return Err(ResolveError::MalformedSpan);
        }
        if span.lo as usize > self.text.len() {
            return Err(ResolveError::OutOfRange);
        }
        let mut line: u32 = 1;
        let mut start: u32 = 0;
        let mut i: u32 = 0;
        while i < span.lo
            invariant
                self.wf(),
                i <= span.lo,
                span.lo <= self@.text.len(),
                start <= i,
                line == line_of(self@.text, i as int),
                start as int == line_start(self@.text, i as int),
            decreases span.lo - i,
        {
            proof {
                lemma_newline_count_le(self@.text.subrange(0, i as int));
                assert(self@.text.subrange(0, i + 1).subrange(0, i as int) =~= self@.text.subrange(
                    0,
                    i as int,
                ));
                assert(self@.text.subrange(0, i + 1)[i as int] == self@.text[i as int]);
            }
            if self.text[i as usize] == 10 {
                line = line + 1;
                start = i + 1;
            }
            i = i + 1;
        }
        let origin = match &self.origin {
            Origin::File(p) => p.clone(),
            Origin::Synthetic => String::new(),
        };
        Ok(Position { origin, line, col: span.lo - start })
    }
}

} // verus!
