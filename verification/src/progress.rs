//! Decoding the progress stream of the block-copy subprocess, and the
//! shared progress state a display layer polls.
//!
//! The copy tool reports progress on its diagnostic channel as free-form
//! text lines terminated by carriage return (it overwrites one line in
//! place) or newline. A line is a progress update only when it carries
//! both a "bytes" and a "copied" marker; the update value is the line's
//! leading whitespace-delimited decimal token with comma grouping
//! separators stripped. Any other line is diagnostic chatter and yields
//! nothing.

use vstd::prelude::*;
use vstd::string::*;

use crate::text::contains_seq;
use crate::text::first_token;
use crate::text::parse_decimal;
use crate::text::str_contains;
use crate::text::strip_commas;
use crate::text::token_span;

verus! {

/// A line terminator in the progress stream.
pub open spec fn is_line_end(c: char) -> bool {
    c == '\r' || c == '\n'
}

/// The byte offset a single progress line reports, if any.
pub open spec fn line_offset(line: Seq<char>) -> Option<u64> {
    if contains_seq(line, "bytes"@) && contains_seq(line, "copied"@) {
        parse_decimal(strip_commas(first_token(line)))
    } else {
        None
    }
}

/// Leading decimal token of a line, grouping commas stripped.
pub fn parse_dd_bytes(line: &str) -> (r: Option<u64>)
    ensures
        r == parse_decimal(strip_commas(first_token(line@))),
{
    let (start, end) = token_span(line);
    let tok = line.substring_char(start, end);
    crate::text::parse_grouped_decimal(tok)
}

/// Decide whether `line` is a progress update and extract its offset.
pub fn parse_progress_line(line: &str) -> (r: Option<u64>)
    ensures
        r == line_offset(line@),
{
    if str_contains(line, "bytes") && str_contains(line, "copied") {
        parse_dd_bytes(line)
    } else {
        None
    }
}

/// The offsets reported by the stream text `s` when `line` has already
/// been buffered: each terminator closes the current line, which yields
/// its offset if it is a progress update. An unterminated trailing line
/// yields nothing (it stays buffered).
pub open spec fn offsets_from(s: Seq<char>, line: Seq<char>) -> Seq<u64>
    decreases s.len(),
{
    if s.len() == 0 {
        Seq::empty()
    } else if is_line_end(s[0]) {
        (match line_offset(line) {
            Some(v) => seq![v],
            None => Seq::empty(),
        }) + offsets_from(s.drop_first(), Seq::empty())
    } else {
        offsets_from(s.drop_first(), line.push(s[0]))
    }
}

/// What remains buffered after consuming `s` with `line` already buffered.
pub open spec fn buffer_after(s: Seq<char>, line: Seq<char>) -> Seq<char>
    decreases s.len(),
{
    if s.len() == 0 {
        line
    } else if is_line_end(s[0]) {
        buffer_after(s.drop_first(), Seq::empty())
    } else {
        buffer_after(s.drop_first(), line.push(s[0]))
    }
}

/// The offsets reported by a whole stream read from its start.
pub open spec fn stream_offsets(s: Seq<char>) -> Seq<u64> {
    offsets_from(s, Seq::empty())
}

/// Decoding composes over chunking: consuming `a` and then `b` reports
/// exactly the offsets of `a + b`, and leaves the same line buffered. So
/// a stream may be fed to the scanner in pieces of any size — byte by
/// byte from a pipe, or all at once — with the same result.
pub proof fn lemma_feed_composes(a: Seq<char>, b: Seq<char>, line: Seq<char>)
    ensures
        offsets_from(a + b, line) == offsets_from(a, line) + offsets_from(b, buffer_after(a, line)),
        buffer_after(a + b, line) == buffer_after(b, buffer_after(a, line)),
    decreases a.len(),
{
    if a.len() == 0 {
        assert(a + b =~= b);
        assert(Seq::<u64>::empty() + offsets_from(b, line) =~= offsets_from(b, line));
    } else {
        assert((a + b).drop_first() =~= a.drop_first() + b);
        assert((a + b)[0] == a[0]);
        if is_line_end(a[0]) {
            lemma_feed_composes(a.drop_first(), b, Seq::empty());
            let h = match line_offset(line) {
                Some(v) => seq![v],
                None => Seq::<u64>::empty(),
            };
            assert(h + (offsets_from(a.drop_first(), Seq::empty()) + offsets_from(
                b,
                buffer_after(a.drop_first(), Seq::empty()),
            )) =~= (h + offsets_from(a.drop_first(), Seq::empty())) + offsets_from(
                b,
                buffer_after(a.drop_first(), Seq::empty()),
            ));
        } else {
            lemma_feed_composes(a.drop_first(), b, line.push(a[0]));
        }
    }
}

/// Incremental decoder for the progress stream. Feed it the stream text
/// as it arrives, in chunks of any size; it hands back each byte offset
/// the stream reports, in order.
pub struct ProgressScanner {
    line: String,
}

impl ProgressScanner {
    /// The partial line buffered so far.
    pub closed spec fn buffered(&self) -> Seq<char> {
        self.line@
    }

    pub fn new() -> (s: Self)
        ensures
            s.buffered() == Seq::<char>::empty(),
    {
        ProgressScanner { line: String::new() }
    }

    /// Consume the next piece of the stream; return the offsets it
    /// completes, in order of appearance.
    pub fn feed(&mut self, chunk: &str) -> (r: Vec<u64>)
        ensures
            r@ == offsets_from(chunk@, old(self).buffered()),
            final(self).buffered() == buffer_after(chunk@, old(self).buffered()),
    {
        let ghost orig: Seq<char> = self.line@;
        let n = chunk.unicode_len();
        let mut out: Vec<u64> = Vec::new();
        let mut i: usize = 0;
        proof {
            assert(chunk@.subrange(0, n as int) =~= chunk@);
        }
        while i < n
            invariant
                n == chunk@.len(),
                0 <= i <= n,
                out@ + offsets_from(chunk@.subrange(i as int, n as int), self.line@)
                    == offsets_from(chunk@, orig),
                buffer_after(chunk@.subrange(i as int, n as int), self.line@) == buffer_after(
                    chunk@,
                    orig,
                ),
            decreases n - i,
        {
            let ghost rest = chunk@.subrange(i as int, n as int);
            proof {
                assert(rest[0] == chunk@[i as int]);
                assert(rest.drop_first() =~= chunk@.subrange(i + 1, n as int));
            }
            let c = chunk.get_char(i);
            if c == '\r' || c == '\n' {
                let finished = parse_progress_line(self.line.as_str());
                match finished {
                    Some(v) => {
                        out.push(v);
                        proof {
                            assert(out@ =~= out@.drop_last() + seq![v]);
                            assert(out@.drop_last() + (seq![v] + offsets_from(
                                rest.drop_first(),
                                Seq::empty(),
                            )) =~= out@ + offsets_from(rest.drop_first(), Seq::empty()));
                        }
                    },
                    None => {
                        proof {
                            assert(Seq::<u64>::empty() + offsets_from(
                                rest.drop_first(),
                                Seq::empty(),
                            ) =~= offsets_from(rest.drop_first(), Seq::empty()));
                        }
                    },
                }
                self.line = String::new();
            } else {
                let piece = chunk.substring_char(i, i + 1);
                proof {
                    assert(self.line@ + piece@ =~= self.line@.push(chunk@[i as int]));
                }
                self.line.append(piece);
            }
            i = i + 1;
        }
        proof {
            assert(chunk@.subrange(n as int, n as int) =~= Seq::<char>::empty());
            assert(out@ + Seq::<u64>::empty() =~= out@);
        }
        out
    }
}

/// Decode a complete progress stream in one call.
pub fn scan_stream(s: &str) -> (r: Vec<u64>)
    ensures
        r@ == stream_offsets(s@),
{
    let mut scanner = ProgressScanner::new();
    scanner.feed(s)
}

/// Monotonically non-decreasing byte offset of a running operation, never
/// exceeding the operation's known total size. The single producer records
/// offsets observed in the progress stream; a display layer reads them.
pub struct ProgressState {
    offset: u64,
    total: u64,
}

impl ProgressState {
    pub closed spec fn spec_offset(&self) -> u64 {
        self.offset
    }

    pub closed spec fn spec_total(&self) -> u64 {
        self.total
    }

    /// The reported offset never exceeds the total.
    pub open spec fn wf(&self) -> bool {
        self.spec_offset() <= self.spec_total()
    }

    pub fn new(total: u64) -> (s: Self)
        ensures
            s.wf(),
            s.spec_offset() == 0,
            s.spec_total() == total,
    {
        ProgressState { offset: 0, total }
    }

    pub fn offset(&self) -> (r: u64)
        ensures
            r == self.spec_offset(),
    {
        self.offset
    }

    pub fn total(&self) -> (r: u64)
        ensures
            r == self.spec_total(),
    {
        self.total
    }

    /// Record an offset observed in the progress stream: the stored offset
    /// is clamped to the total and never decreases.
    pub fn record(&mut self, observed: u64)
        requires
            old(self).wf(),
        ensures
            final(self).wf(),
            final(self).spec_total() == old(self).spec_total(),
            final(self).spec_offset() == if observed > old(self).spec_total() {
                old(self).spec_total()
            } else if observed > old(self).spec_offset() {
                observed
            } else {
                old(self).spec_offset()
            },
            final(self).spec_offset() >= old(self).spec_offset(),
    {
        let capped = if observed > self.total {
            self.total
        } else {
            observed
        };
        if capped > self.offset {
            self.offset = capped;
        }
    }
}

} // verus!
