//! The byte budget of a terminal-output reply.
//!
//! An output read is bounded twice — by line count and by total bytes — so a busy process can never
//! return an unbounded payload. This module holds the byte bound: a reply's lines, each counted with
//! its newline, are trimmed to the budget from the end that the read does not anchor.

use vstd::prelude::*;
use vstd::utf8::encode_utf8;

verus! {

/// Rendered output lines returned when the caller names no `lines`.
pub const DEFAULT_OUTPUT_LINES: usize = 1000;

/// The most rendered lines any one output read returns, regardless of the request.
pub const MAX_OUTPUT_LINES: usize = 5000;

/// Search matches returned when the caller names no `limit`.
pub const DEFAULT_SEARCH_MATCHES: usize = 100;

/// The most matches any one search returns.
pub const MAX_SEARCH_MATCHES: usize = 1000;

/// The most bytes a rendered output or search reply may total, each line counted with its newline.
pub const MAX_REPLY_BYTES: usize = 1048576;

/// Which end of a line list survives a [`within_reply_budget`] trim.
#[derive(Clone, Copy, Debug, PartialEq, Eq, Structural)]
pub enum Keep {
    /// Keep the most recent lines — a rendered tail's natural anchor.
    Newest,
    /// Keep the earliest lines — an ordered match list reads from its start.
    Earliest,
}

/// The bytes a line occupies in a reply: its UTF-8 encoding plus a newline.
pub open spec fn line_cost(line: Seq<char>) -> int {
    line_bytes_spec(line) + 1
}

/// A line's UTF-8 byte length, as `str::len` reports it.
pub open spec fn line_bytes_spec(line: Seq<char>) -> int {
    (encode_utf8(line).len() as usize) as int
}

/// The bytes a list of lines occupies in a reply.
pub open spec fn reply_cost(lines: Seq<Seq<char>>) -> int
    decreases lines.len(),
{
    if lines.len() == 0 {
        0
    } else {
        line_cost(lines[0]) + reply_cost(lines.drop_first())
    }
}

/// The views of a list of lines.
pub open spec fn line_views(lines: Seq<String>) -> Seq<Seq<char>> {
    lines.map_values(|l: String| l@)
}

/// What [`within_reply_budget`] keeps: the longest run of lines, anchored at the `keep` end, whose
/// total size stays within [`MAX_REPLY_BYTES`].
pub open spec fn kept_within_budget(lines: Seq<Seq<char>>, keep: Keep, kept: Seq<Seq<char>>) -> bool {
    let n = lines.len() as int;
    let m = kept.len() as int;
    &&& m <= n
    &&& reply_cost(kept) <= MAX_REPLY_BYTES
    &&& match keep {
        Keep::Earliest => {
            &&& kept == lines.take(m)
            &&& m < n ==> reply_cost(lines.take(m + 1)) > MAX_REPLY_BYTES
        },
        Keep::Newest => {
            &&& kept == lines.skip(n - m)
            &&& m < n ==> reply_cost(lines.skip(n - m - 1)) > MAX_REPLY_BYTES
        },
    }
}

proof fn lemma_cost_push(lines: Seq<Seq<char>>, line: Seq<char>)
    ensures
        reply_cost(lines.push(line)) == reply_cost(lines) + line_cost(line),
    decreases lines.len(),
{
    if lines.len() > 0 {
        assert(lines.push(line).drop_first() == lines.drop_first().push(line));
        assert(lines.push(line)[0] == lines[0]);
        lemma_cost_push(lines.drop_first(), line);
        assert(reply_cost(lines.push(line)) == line_cost(lines[0]) + reply_cost(
            lines.drop_first().push(line),
        ));
    } else {
        assert(lines.push(line).drop_first() == Seq::<Seq<char>>::empty());
        assert(lines.push(line)[0] == line);
        assert(reply_cost(lines.push(line)) == line_cost(line) + reply_cost(
            Seq::<Seq<char>>::empty(),
        ));
    }
}

proof fn lemma_cost_nonneg(lines: Seq<Seq<char>>)
    ensures
        reply_cost(lines) >= 0,
    decreases lines.len(),
{
    if lines.len() > 0 {
        lemma_cost_nonneg(lines.drop_first());
    }
}

/// A line's size in a reply: its UTF-8 bytes.
fn line_bytes(line: &String) -> (n: usize)
    ensures
        n == line_bytes_spec(line@),
{
    line.as_str().len()
}

/// Trims `lines` so their total size (each line plus a newline) stays within [`MAX_REPLY_BYTES`],
/// dropping from the end `keep` does not anchor. Everything is kept when it already fits.
pub fn within_reply_budget(lines: Vec<String>, keep: Keep) -> (kept: Vec<String>)
    ensures
        kept_within_budget(line_views(lines@), keep, line_views(kept@)),
{
    let ghost ls = line_views(lines@);
    let n = lines.len();
    let mut lines = lines;
    match keep {
        Keep::Earliest => {
            let mut total: usize = 0;
            let mut m: usize = 0;
            let mut full = false;
            while m < n && !full
                invariant
                    n == lines@.len(),
                    ls == line_views(lines@),
                    m <= n,
                    total == reply_cost(ls.take(m as int)),
                    total <= MAX_REPLY_BYTES,
                    full ==> m < n && reply_cost(ls.take(m + 1)) > MAX_REPLY_BYTES,
                decreases n - m + if full { 0int } else { 1int },
            {
                let len = line_bytes(&lines[m]);
                proof {
                    assert(ls.take(m + 1) == ls.take(m as int).push(ls[m as int]));
                    lemma_cost_push(ls.take(m as int), ls[m as int]);
                }
                if len >= MAX_REPLY_BYTES - total {
                    full = true;
                } else {
                    total = total + len + 1;
                    m += 1;
                }
            }
            lines.truncate(m);
            assert(line_views(lines@) == ls.take(m as int));
            lines
        },
        Keep::Newest => {
            let mut total: usize = 0;
            let mut start: usize = n;
            proof {
                assert(ls.skip(n as int) == Seq::<Seq<char>>::empty());
            }
            let mut full = false;
            while start > 0 && !full
                invariant
                    n == lines@.len(),
                    ls == line_views(lines@),
                    start <= n,
                    total == reply_cost(ls.skip(start as int)),
                    total <= MAX_REPLY_BYTES,
                    full ==> start > 0 && reply_cost(ls.skip(start - 1)) > MAX_REPLY_BYTES,
                decreases start + if full { 0int } else { 1int },
            {
                let len = line_bytes(&lines[start - 1]);
                proof {
                    assert(ls.skip(start - 1).drop_first() == ls.skip(start as int));
                    assert(ls.skip(start - 1)[0] == ls[start - 1]);
                }
                if len >= MAX_REPLY_BYTES - total {
                    full = true;
                } else {
                    total = total + len + 1;
                    start -= 1;
                }
            }
            let kept = lines.split_off(start);
            assert(line_views(kept@) == ls.skip(start as int));
            assert(n - line_views(kept@).len() == start);
            kept
        },
    }
}

/// Whatever the lines, the kept reply fits the byte budget, and it is the lines themselves — a
/// run taken whole from the anchored end, never reordered or altered.
pub proof fn law_budget_keeps_an_anchored_run(lines: Seq<Seq<char>>, keep: Keep, kept: Seq<Seq<char>>)
    requires
        kept_within_budget(lines, keep, kept),
    ensures
        reply_cost(kept) <= MAX_REPLY_BYTES,
        kept.len() <= lines.len(),
        forall|i: int|
            0 <= i < kept.len() ==> kept[i] == match keep {
                Keep::Earliest => lines[i],
                Keep::Newest => lines[lines.len() - kept.len() + i],
            },
{
}

/// A reply that already fits is returned whole.
pub proof fn law_budget_keeps_a_reply_that_fits(lines: Seq<Seq<char>>, keep: Keep, kept: Seq<Seq<char>>)
    requires
        kept_within_budget(lines, keep, kept),
        reply_cost(lines) <= MAX_REPLY_BYTES,
    ensures
        kept == lines,
{
    let n = lines.len() as int;
    let m = kept.len() as int;
    if m < n {
        match keep {
            Keep::Earliest => {
                lemma_prefix_cost_le(lines, m + 1);
            },
            Keep::Newest => {
                lemma_suffix_cost_le(lines, n - m - 1);
            },
        }
    } else {
        assert(lines.take(n) == lines);
        assert(lines.skip(0) == lines);
    }
}

proof fn lemma_suffix_cost_le(lines: Seq<Seq<char>>, j: int)
    requires
        0 <= j <= lines.len(),
    ensures
        reply_cost(lines.skip(j)) <= reply_cost(lines),
    decreases j,
{
    if j > 0 {
        lemma_suffix_cost_le(lines, j - 1);
        assert(lines.skip(j - 1).drop_first() == lines.skip(j));
    } else {
        assert(lines.skip(0) == lines);
    }
}

proof fn lemma_prefix_cost_le(lines: Seq<Seq<char>>, m: int)
    requires
        0 <= m <= lines.len(),
    ensures
        reply_cost(lines.take(m)) <= reply_cost(lines),
    decreases lines.len() - m,
{
    if m < lines.len() {
        lemma_prefix_cost_le(lines, m + 1);
        assert(lines.take(m + 1) == lines.take(m).push(lines[m]));
        lemma_cost_push(lines.take(m), lines[m]);
    } else {
        assert(lines.take(m) == lines);
    }
}

} // verus!
