//! The placeholder tokenizer: the one scan of a template body, shared by every reader of it.
//!
//! A body is literal text interleaved with `{{name}}` markers. Naming the placeholders a body
//! declares and substituting values into it are two views of the *same* token stream, so a name
//! that is reported can never be one that substitution misses, and an escaped marker is invisible
//! to both.
//!
//! The grammar is stated once, over the body's characters, by [`spec_scan`]; [`scan`] is proved to
//! produce exactly that token stream.

use vstd::prelude::*;

use crate::text::{chars_of, is_whitespace, is_ws, text_of};

verus! {

/// One piece of a scanned body, as the grammar states it.
pub ghost enum SpecToken {
    Literal(Seq<char>),
    Placeholder { name: Seq<char>, raw: Seq<char> },
    EscapedOpen,
}

/// One piece of a scanned body.
#[derive(Clone, Debug, PartialEq, Eq)]
pub enum Token {
    /// Text to emit unchanged.
    Literal(String),
    /// A well-formed marker: `name` is the trimmed inner text and `raw` the whole `{{…}}` span, so
    /// a reader with no value for the name can emit the marker untouched.
    Placeholder { name: String, raw: String },
    /// An escaped marker: the backslash is consumed and the `{{` that followed it is literal text.
    EscapedOpen,
}

impl View for Token {
    type V = SpecToken;

    open spec fn view(&self) -> SpecToken {
        match self {
            Token::Literal(t) => SpecToken::Literal(t@),
            Token::Placeholder { name, raw } => SpecToken::Placeholder { name: name@, raw: raw@ },
            Token::EscapedOpen => SpecToken::EscapedOpen,
        }
    }
}

/// The two characters that open a marker.
pub open spec fn open_marker() -> Seq<char> {
    seq!['{', '{']
}

/// The text a token stands for when nothing is substituted into it.
pub open spec fn spec_verbatim(t: SpecToken) -> Seq<char> {
    match t {
        SpecToken::Literal(text) => text,
        SpecToken::Placeholder { raw, .. } => raw,
        SpecToken::EscapedOpen => open_marker(),
    }
}

/// The views of a token list.
pub open spec fn token_views(ts: Seq<Token>) -> Seq<SpecToken> {
    ts.map_values(|t: Token| t@)
}

/// `c` doubled starts at `i`.
pub open spec fn pair_at(s: Seq<char>, i: int, c: char) -> bool {
    0 <= i && i + 1 < s.len() && s[i] == c && s[i + 1] == c
}

/// The first `i >= from` where `c` doubled starts, or `-1` when there is none.
pub open spec fn first_pair(s: Seq<char>, c: char, from: int) -> int
    decreases s.len() - from,
{
    if from < 0 || from + 1 >= s.len() {
        -1
    } else if pair_at(s, from, c) {
        from
    } else {
        first_pair(s, c, from + 1)
    }
}

/// How many backslashes run back from `end` without crossing `lo`.
pub open spec fn run_before(s: Seq<char>, end: int, lo: int) -> int
    decreases end - lo,
{
    if end > lo && 0 < end <= s.len() && s[end - 1] == '\\' {
        1 + run_before(s, end - 1, lo)
    } else {
        0
    }
}

/// The first index in `lo..hi` whose character is not whitespace, or `hi`.
pub open spec fn trim_lo(s: Seq<char>, lo: int, hi: int) -> int
    decreases hi - lo,
{
    if lo < hi && 0 <= lo < s.len() && is_ws(s[lo]) {
        trim_lo(s, lo + 1, hi)
    } else {
        lo
    }
}

/// One past the last index in `lo..hi` whose character is not whitespace, or `lo`.
pub open spec fn trim_hi(s: Seq<char>, lo: int, hi: int) -> int
    decreases hi - lo,
{
    if lo < hi && 0 < hi <= s.len() && is_ws(s[hi - 1]) {
        trim_hi(s, lo, hi - 1)
    } else {
        hi
    }
}

/// A brace or a newline — what a placeholder name may not hold.
pub open spec fn is_name_breaker(c: char) -> bool {
    c == '{' || c == '}' || c == '\n'
}

/// Some character in `lo..hi` is a name breaker.
pub open spec fn has_breaker(s: Seq<char>, lo: int, hi: int) -> bool {
    exists|i: int| lo <= i < hi && is_name_breaker(#[trigger] s[i])
}

/// One step of the scan from `pos`: the end of the literal prefix it emits first (the prefix is
/// `s[pos..prefix_end]`), the token it produces, and where the scan resumes.
///
/// The first `{{` at or after `pos` is the candidate. The backslashes right before it pair off:
/// each pair stays as one literal backslash, and an odd one out escapes the marker and is consumed.
/// An unescaped candidate closes at the first `}}` after it; its inner text trimmed is the name,
/// unless that is empty or holds a brace or a newline, when the whole span is literal and is not
/// rescanned. A candidate with no `}}` after it is literal to the end of the body.
pub open spec fn spec_step(s: Seq<char>, pos: int) -> (int, SpecToken, int) {
    let open = first_pair(s, '{', pos);
    if open < 0 {
        (pos, SpecToken::Literal(s.subrange(pos, s.len() as int)), s.len() as int)
    } else {
        let k = run_before(s, open, pos);
        let prefix_end = open - k + k / 2;
        if k % 2 == 1 {
            (prefix_end, SpecToken::EscapedOpen, open + 2)
        } else {
            let close = first_pair(s, '}', open + 2);
            if close < 0 {
                (prefix_end, SpecToken::Literal(s.subrange(open, s.len() as int)), s.len() as int)
            } else {
                let raw = s.subrange(open, close + 2);
                let lo = trim_lo(s, open + 2, close);
                let hi = trim_hi(s, lo, close);
                if lo == hi || has_breaker(s, lo, hi) {
                    (prefix_end, SpecToken::Literal(raw), close + 2)
                } else {
                    (prefix_end, SpecToken::Placeholder { name: s.subrange(lo, hi), raw }, close + 2)
                }
            }
        }
    }
}

/// The tokens of `s` from `pos` on, left to right.
pub open spec fn spec_scan_from(s: Seq<char>, pos: int) -> Seq<SpecToken>
    decreases s.len() - pos,
{
    if pos < 0 || pos >= s.len() {
        Seq::empty()
    } else {
        let (prefix_end, token, next) = spec_step(s, pos);
        if next <= pos || next > s.len() {
            Seq::empty()
        } else {
            let head = if prefix_end == pos {
                seq![token]
            } else {
                seq![SpecToken::Literal(s.subrange(pos, prefix_end)), token]
            };
            head + spec_scan_from(s, next)
        }
    }
}

/// The token stream of a whole body.
pub open spec fn spec_scan(s: Seq<char>) -> Seq<SpecToken> {
    spec_scan_from(s, 0)
}

/// The text every token stands for, concatenated.
pub open spec fn spec_written(ts: Seq<SpecToken>) -> Seq<char>
    decreases ts.len(),
{
    if ts.len() == 0 {
        Seq::empty()
    } else {
        spec_verbatim(ts[0]) + spec_written(ts.drop_first())
    }
}

proof fn lemma_first_pair(s: Seq<char>, c: char, from: int)
    requires
        0 <= from,
    ensures
        ({
            let r = first_pair(s, c, from);
            &&& r == -1 || (from <= r && pair_at(s, r, c))
            &&& forall|j: int| from <= j && (r == -1 || j < r) ==> !pair_at(s, j, c)
        }),
    decreases s.len() - from,
{
    if from + 1 < s.len() && !pair_at(s, from, c) {
        lemma_first_pair(s, c, from + 1);
    }
}

proof fn lemma_run_before(s: Seq<char>, end: int, lo: int)
    requires
        0 <= lo <= end <= s.len(),
    ensures
        0 <= run_before(s, end, lo) <= end - lo,
        forall|j: int| end - run_before(s, end, lo) <= j < end ==> s[j] == '\\',
    decreases end - lo,
{
    if end > lo && s[end - 1] == '\\' {
        lemma_run_before(s, end - 1, lo);
    }
}

proof fn lemma_trim_lo(s: Seq<char>, lo: int, hi: int)
    requires
        0 <= lo <= hi <= s.len(),
    ensures
        lo <= trim_lo(s, lo, hi) <= hi,
        forall|j: int| lo <= j < trim_lo(s, lo, hi) ==> is_ws(#[trigger] s[j]),
        trim_lo(s, lo, hi) < hi ==> !is_ws(s[trim_lo(s, lo, hi)]),
    decreases hi - lo,
{
    if lo < hi && is_ws(s[lo]) {
        lemma_trim_lo(s, lo + 1, hi);
    }
}

proof fn lemma_trim_hi(s: Seq<char>, lo: int, hi: int)
    requires
        0 <= lo <= hi <= s.len(),
    ensures
        lo <= trim_hi(s, lo, hi) <= hi,
        forall|j: int| trim_hi(s, lo, hi) <= j < hi ==> is_ws(#[trigger] s[j]),
        trim_hi(s, lo, hi) > lo ==> !is_ws(s[trim_hi(s, lo, hi) - 1]),
    decreases hi - lo,
{
    if lo < hi && is_ws(s[hi - 1]) {
        lemma_trim_hi(s, lo, hi - 1);
    }
}

/// Each step moves forward and stays inside the body.
proof fn lemma_step_bounds(s: Seq<char>, pos: int)
    requires
        0 <= pos < s.len(),
    ensures
        ({
            let (prefix_end, token, next) = spec_step(s, pos);
            &&& pos <= prefix_end <= next <= s.len()
            &&& pos < next
        }),
{
    lemma_first_pair(s, '{', pos);
    let open = first_pair(s, '{', pos);
    if open >= 0 {
        lemma_run_before(s, open, pos);
        lemma_first_pair(s, '}', open + 2);
    }
}


/// A placeholder name as the grammar admits it: not empty, no brace or newline, and no whitespace
/// at either end.
pub open spec fn well_formed_name(name: Seq<char>) -> bool {
    &&& name.len() > 0
    &&& forall|i: int| 0 <= i < name.len() ==> !is_name_breaker(#[trigger] name[i])
    &&& !is_ws(name[0])
    &&& !is_ws(name[name.len() - 1])
}

/// Every placeholder token carries a well-formed name, and its raw span is the marker `{{…}}`.
pub open spec fn placeholders_well_formed(ts: Seq<SpecToken>) -> bool {
    forall|i: int|
        0 <= i < ts.len() ==> match #[trigger] ts[i] {
            SpecToken::Placeholder { name, raw } => {
                &&& well_formed_name(name)
                &&& raw.len() >= name.len() + 4
                &&& raw.take(2) == open_marker()
                &&& raw.skip(raw.len() - 2) == seq!['}', '}']
            },
            _ => true,
        }
}

proof fn lemma_written_append(a: Seq<SpecToken>, b: Seq<SpecToken>)
    ensures
        spec_written(a + b) == spec_written(a) + spec_written(b),
    decreases a.len(),
{
    if a.len() == 0 {
        assert(a + b == b);
    } else {
        assert((a + b).drop_first() == a.drop_first() + b);
        lemma_written_append(a.drop_first(), b);
        assert(spec_verbatim(a[0]) + (spec_written(a.drop_first()) + spec_written(b)) == (
        spec_verbatim(a[0]) + spec_written(a.drop_first())) + spec_written(b));
    }
}

proof fn lemma_written_from_without_backslash(s: Seq<char>, pos: int)
    requires
        0 <= pos <= s.len(),
        no_escape(s),
    ensures
        spec_written(spec_scan_from(s, pos)) == s.subrange(pos, s.len() as int),
    decreases s.len() - pos,
{
    if pos < s.len() {
        lemma_step_bounds(s, pos);
        lemma_first_pair(s, '{', pos);
        let (prefix_end, token, next) = spec_step(s, pos);
        let open = first_pair(s, '{', pos);
        if open >= 0 {
            if open > 0 {
                assert(s[open - 1] != '\\');
            }
            assert(run_before(s, open, pos) == 0);
            lemma_first_pair(s, '}', open + 2);
        }
        assert(spec_verbatim(token) == s.subrange(prefix_end, next));
        let head = if prefix_end == pos {
            seq![token]
        } else {
            seq![SpecToken::Literal(s.subrange(pos, prefix_end)), token]
        };
        lemma_written_from_without_backslash(s, next);
        lemma_written_append(head, spec_scan_from(s, next));
        if prefix_end == pos {
            assert(spec_written(head) == spec_verbatim(token) + spec_written(head.drop_first()));
            assert(head.drop_first().len() == 0);
        } else {
            assert(spec_written(head) == s.subrange(pos, prefix_end) + spec_written(
                head.drop_first(),
            ));
            assert(head.drop_first() =~= seq![token]);
            assert(spec_written(seq![token]) == spec_verbatim(token) + spec_written(
                seq![token].drop_first(),
            ));
            assert(seq![token].drop_first().len() == 0);
        }
        assert(s.subrange(pos, prefix_end) + s.subrange(prefix_end, next) =~= s.subrange(
            pos,
            next,
        ));
        assert(s.subrange(pos, next) + s.subrange(next, s.len() as int) =~= s.subrange(
            pos,
            s.len() as int,
        ));
    } else {
        assert(s.subrange(pos, s.len() as int) =~= Seq::<char>::empty());
    }
}

/// No backslash stands directly before a `{{` in `s`, so nothing in it is escaped.
pub open spec fn no_escape(s: Seq<char>) -> bool {
    forall|i: int| 0 < i && #[trigger] pair_at(s, i, '{') ==> s[i - 1] != '\\'
}

/// A body in which no backslash directly precedes a `{{` reads back whole: the text every token
/// stands for, concatenated, is the body itself — the scan neither loses nor duplicates a
/// character.
pub proof fn law_scan_round_trips(s: Seq<char>)
    requires
        no_escape(s),
    ensures
        spec_written(spec_scan(s)) == s,
{
    lemma_written_from_without_backslash(s, 0);
    assert(s.subrange(0, s.len() as int) =~= s);
}

proof fn lemma_well_formed_from(s: Seq<char>, pos: int)
    requires
        0 <= pos <= s.len(),
    ensures
        placeholders_well_formed(spec_scan_from(s, pos)),
    decreases s.len() - pos,
{
    if pos < s.len() {
        lemma_step_bounds(s, pos);
        lemma_first_pair(s, '{', pos);
        let (prefix_end, token, next) = spec_step(s, pos);
        let open = first_pair(s, '{', pos);
        if open >= 0 {
            lemma_run_before(s, open, pos);
            let close = first_pair(s, '}', open + 2);
            lemma_first_pair(s, '}', open + 2);
            if close >= 0 {
                lemma_trim_lo(s, open + 2, close);
                let lo = trim_lo(s, open + 2, close);
                lemma_trim_hi(s, lo, close);
                let hi = trim_hi(s, lo, close);
                if let SpecToken::Placeholder { name, raw } = token {
                    assert(name == s.subrange(lo, hi));
                    assert forall|i: int| 0 <= i < name.len() implies !is_name_breaker(
                        #[trigger] name[i],
                    ) by {
                        if is_name_breaker(name[i]) {
                            assert(s[lo + i] == name[i]);
                            assert(has_breaker(s, lo, hi));
                        }
                    }
                    assert(raw.take(2) =~= open_marker());
                    assert(raw.skip(raw.len() - 2) =~= seq!['}', '}']);
                }
            }
        }
        let head = if prefix_end == pos {
            seq![token]
        } else {
            seq![SpecToken::Literal(s.subrange(pos, prefix_end)), token]
        };
        lemma_well_formed_from(s, next);
        let all = head + spec_scan_from(s, next);
        assert forall|i: int| 0 <= i < all.len() implies match #[trigger] all[i] {
            SpecToken::Placeholder { name, raw } => {
                &&& well_formed_name(name)
                &&& raw.len() >= name.len() + 4
                &&& raw.take(2) == open_marker()
                &&& raw.skip(raw.len() - 2) == seq!['}', '}']
            },
            _ => true,
        } by {
            if i >= head.len() {
                assert(all[i] == spec_scan_from(s, next)[i - head.len()]);
            }
        }
    }
}

/// Every placeholder the scan reports has a well-formed name — trimmed, non-empty, free of
/// braces and newlines — and spans a whole `{{…}}` marker.
pub proof fn law_placeholders_are_well_formed(s: Seq<char>)
    ensures
        placeholders_well_formed(spec_scan(s)),
{
    lemma_well_formed_from(s, 0);
}

/// The first `i >= from` where `c` doubled starts.
fn find_pair(chars: &Vec<char>, c: char, from: usize) -> (r: Option<usize>)
    ensures
        match r {
            Some(i) => i as int == first_pair(chars@, c, from as int),
            None => first_pair(chars@, c, from as int) == -1,
        },
{
    let n = chars.len();
    let mut i = from;
    while i < n && n - i > 1
        invariant
            n == chars@.len(),
            from <= i,
            first_pair(chars@, c, from as int) == first_pair(chars@, c, i as int),
        decreases n - i,
    {
        if chars[i] == c && chars[i + 1] == c {
            return Some(i);
        }
        i += 1;
    }
    None
}

/// How many backslashes run back from `end` without crossing `lo`.
fn count_run_before(chars: &Vec<char>, end: usize, lo: usize) -> (k: usize)
    requires
        lo <= end <= chars@.len(),
    ensures
        k as int == run_before(chars@, end as int, lo as int),
{
    let mut j = end;
    let mut k: usize = 0;
    while j > lo && chars[j - 1] == '\\'
        invariant
            lo <= j <= end <= chars@.len(),
            k == end - j,
            run_before(chars@, end as int, lo as int) == k + run_before(
                chars@,
                j as int,
                lo as int,
            ),
        decreases j - lo,
    {
        j -= 1;
        k += 1;
    }
    k
}

/// A closed, unescaped marker whose inner text, trimmed of whitespace, is a non-empty name free of
/// `{`, `}` and newlines scans as one placeholder: its name is that trimmed text (inner spaces and
/// all) and its raw text the whole marker.
pub proof fn law_a_marker_with_a_plain_name_is_a_placeholder(
    lead: Seq<char>,
    name: Seq<char>,
    trail: Seq<char>,
)
    requires
        name.len() > 0,
        !is_ws(name[0]),
        !is_ws(name[name.len() - 1]),
        forall|i: int|
            0 <= i < name.len() ==> #[trigger] name[i] != '{' && name[i] != '}' && name[i] != '\n',
        forall|i: int| 0 <= i < lead.len() ==> is_ws(#[trigger] lead[i]),
        forall|i: int| 0 <= i < trail.len() ==> is_ws(#[trigger] trail[i]),
    ensures
        spec_scan(seq!['{', '{'] + lead + name + trail + seq!['}', '}']) == seq![
            SpecToken::Placeholder {
                name,
                raw: seq!['{', '{'] + lead + name + trail + seq!['}', '}'],
            },
        ],
{
    let s = seq!['{', '{'] + lead + name + trail + seq!['}', '}'];
    let a: int = 2 + lead.len() as int;
    let b: int = a + name.len();
    let close: int = b + trail.len();
    assert(s.len() == close + 2);
    assert(s[0] == '{' && s[1] == '{');
    assert(s[close] == '}' && s[close + 1] == '}');
    assert forall|j: int| 0 <= j < lead.len() implies s[2 + j] == lead[j] by {}
    assert forall|j: int| 0 <= j < name.len() implies s[a + j] == name[j] by {}
    assert forall|j: int| 0 <= j < trail.len() implies s[b + j] == trail[j] by {}
    // The marker opens at once, with no backslash before it.
    assert(pair_at(s, 0, '{'));
    assert(first_pair(s, '{', 0) == 0);
    assert(run_before(s, 0, 0) == 0);
    // It closes at the first `}}` after it, past the name and its padding.
    assert forall|j: int| 2 <= j < close implies s[j] != '}' by {
        if j < a {
            assert(s[j] == lead[j - 2]);
            assert(is_ws(lead[j - 2]));
        } else if j < b {
            assert(s[j] == name[j - a]);
        } else {
            assert(s[j] == trail[j - b]);
            assert(is_ws(trail[j - b]));
        }
    }
    lemma_first_pair(s, '}', 2);
    let c0 = first_pair(s, '}', 2);
    assert(pair_at(s, close, '}'));
    if c0 != close {
        if c0 == -1 || c0 > close {
            assert(!pair_at(s, close, '}'));
        } else {
            assert(s[c0] == '}');
        }
    }
    // Trimming finds exactly the name.
    lemma_trim_lo(s, 2, close);
    let lo = trim_lo(s, 2, close);
    if lo < a {
        assert(s[lo] == lead[lo - 2]);
    } else if lo > a {
        assert(is_ws(s[a]));
    }
    assert(lo == a);
    lemma_trim_hi(s, a, close);
    let hi = trim_hi(s, a, close);
    if hi > b {
        assert(s[hi - 1] == trail[hi - 1 - b]);
    } else if hi < b {
        assert(is_ws(s[b - 1]));
        assert(s[b - 1] == name[name.len() - 1]);
    }
    assert(hi == b);
    assert(s.subrange(lo, hi) =~= name);
    assert(!has_breaker(s, lo, hi)) by {
        if has_breaker(s, lo, hi) {
            let i = choose|i: int| lo <= i < hi && is_name_breaker(#[trigger] s[i]);
            assert(s[i] == name[i - a]);
        }
    }
    assert(s.subrange(0, close + 2) =~= s);
    assert(spec_scan_from(s, close + 2) == Seq::<SpecToken>::empty());
    assert(seq![SpecToken::Placeholder { name, raw: s }] + Seq::<SpecToken>::empty() =~= seq![
        SpecToken::Placeholder { name, raw: s },
    ]);
}

/// A closed, unescaped marker whose inner text, trimmed of whitespace, is empty or holds a `{` or
/// a newline declares nothing: the whole marker stays literal text.
pub proof fn law_a_marker_without_a_plain_name_stays_literal(
    lead: Seq<char>,
    core: Seq<char>,
    trail: Seq<char>,
)
    requires
        forall|i: int| 0 <= i < lead.len() ==> is_ws(#[trigger] lead[i]),
        forall|i: int| 0 <= i < trail.len() ==> is_ws(#[trigger] trail[i]),
        forall|i: int| 0 <= i < core.len() ==> #[trigger] core[i] != '}',
        core.len() > 0 ==> !is_ws(core[0]) && !is_ws(core[core.len() - 1]) && exists|i: int|
            0 <= i < core.len() && (#[trigger] core[i] == '{' || core[i] == '\n'),
    ensures
        spec_scan(seq!['{', '{'] + lead + core + trail + seq!['}', '}']) == seq![
            SpecToken::Literal(seq!['{', '{'] + lead + core + trail + seq!['}', '}']),
        ],
{
    let s = seq!['{', '{'] + lead + core + trail + seq!['}', '}'];
    let a: int = 2 + lead.len() as int;
    let b: int = a + core.len();
    let close: int = b + trail.len();
    assert(s.len() == close + 2);
    assert(s[0] == '{' && s[1] == '{');
    assert(s[close] == '}' && s[close + 1] == '}');
    assert forall|j: int| 0 <= j < lead.len() implies s[2 + j] == lead[j] by {}
    assert forall|j: int| 0 <= j < core.len() implies s[a + j] == core[j] by {}
    assert forall|j: int| 0 <= j < trail.len() implies s[b + j] == trail[j] by {}
    assert(pair_at(s, 0, '{'));
    assert(first_pair(s, '{', 0) == 0);
    assert(run_before(s, 0, 0) == 0);
    assert forall|j: int| 2 <= j < close implies s[j] != '}' by {
        if j < a {
            assert(s[j] == lead[j - 2]);
            assert(is_ws(lead[j - 2]));
        } else if j < b {
            assert(s[j] == core[j - a]);
        } else {
            assert(s[j] == trail[j - b]);
            assert(is_ws(trail[j - b]));
        }
    }
    lemma_first_pair(s, '}', 2);
    let c0 = first_pair(s, '}', 2);
    assert(pair_at(s, close, '}'));
    if c0 != close {
        if c0 == -1 || c0 > close {
            assert(!pair_at(s, close, '}'));
        } else {
            assert(s[c0] == '}');
        }
    }
    lemma_trim_lo(s, 2, close);
    let lo = trim_lo(s, 2, close);
    if core.len() > 0 {
        if lo < a {
            assert(s[lo] == lead[lo - 2]);
        } else if lo > a {
            assert(is_ws(s[a]));
        }
        assert(lo == a);
        lemma_trim_hi(s, a, close);
        let hi = trim_hi(s, a, close);
        if hi > b {
            assert(s[hi - 1] == trail[hi - 1 - b]);
        } else if hi < b {
            assert(is_ws(s[b - 1]));
            assert(s[b - 1] == core[core.len() - 1]);
        }
        assert(hi == b);
        let i = choose|i: int| 0 <= i < core.len() && (#[trigger] core[i] == '{' || core[i] == '\n');
        assert(s[a + i] == core[i]);
        assert(is_name_breaker(s[a + i]));
        assert(has_breaker(s, lo, hi));
    } else {
        assert forall|j: int| 2 <= j < close implies is_ws(#[trigger] s[j]) by {
            if j < a {
                assert(s[j] == lead[j - 2]);
            } else {
                assert(s[j] == trail[j - b]);
            }
        }
        if lo < close {
            assert(is_ws(s[lo]));
        }
        assert(lo == close);
        lemma_trim_hi(s, lo, close);
    }
    assert(s.subrange(0, close + 2) =~= s);
    assert(spec_scan_from(s, close + 2) == Seq::<SpecToken>::empty());
    assert(seq![SpecToken::Literal(s)] + Seq::<SpecToken>::empty() =~= seq![SpecToken::Literal(s)]);
}

/// Whether any character in `lo..hi` is a name breaker.
fn find_breaker(chars: &Vec<char>, lo: usize, hi: usize) -> (r: bool)
    requires
        lo <= hi <= chars@.len(),
    ensures
        r == has_breaker(chars@, lo as int, hi as int),
{
    let mut i = lo;
    while i < hi
        invariant
            lo <= i <= hi <= chars@.len(),
            forall|j: int| lo <= j < i ==> !is_name_breaker(#[trigger] chars@[j]),
        decreases hi - i,
    {
        let c = chars[i];
        if c == '{' || c == '}' || c == '\n' {
            assert(is_name_breaker(chars@[i as int]));
            return true;
        }
        i += 1;
    }
    false
}

/// Executable [`trim_lo`].
fn skip_ws_forward(chars: &Vec<char>, lo: usize, hi: usize) -> (r: usize)
    requires
        lo <= hi <= chars@.len(),
    ensures
        r as int == trim_lo(chars@, lo as int, hi as int),
{
    let mut i = lo;
    while i < hi && is_whitespace(chars[i])
        invariant
            lo <= i <= hi <= chars@.len(),
            trim_lo(chars@, lo as int, hi as int) == trim_lo(chars@, i as int, hi as int),
        decreases hi - i,
    {
        i += 1;
    }
    i
}

/// Executable [`trim_hi`].
fn skip_ws_backward(chars: &Vec<char>, lo: usize, hi: usize) -> (r: usize)
    requires
        lo <= hi <= chars@.len(),
    ensures
        r as int == trim_hi(chars@, lo as int, hi as int),
{
    let mut j = hi;
    while j > lo && is_whitespace(chars[j - 1])
        invariant
            lo <= j <= hi <= chars@.len(),
            trim_hi(chars@, lo as int, hi as int) == trim_hi(chars@, lo as int, j as int),
        decreases j - lo,
    {
        j -= 1;
    }
    j
}

/// Reads one marker out of the body from `pos`, returning the end of the literal prefix before
/// it, the token it produced, and where the scan resumes.
fn step(chars: &Vec<char>, pos: usize) -> (r: (usize, Token, usize))
    requires
        pos < chars@.len(),
    ensures
        (r.0 as int, r.1@, r.2 as int) == spec_step(chars@, pos as int),
{
    let n = chars.len();
    let open = match find_pair(chars, '{', pos) {
        None => {
            return (pos, Token::Literal(text_of(chars, pos, n)), n);
        },
        Some(open) => open,
    };
    proof {
        lemma_first_pair(chars@, '{', pos as int);
        lemma_run_before(chars@, open as int, pos as int);
    }
    let k = count_run_before(chars, open, pos);
    let prefix_end = open - k + k / 2;
    if k % 2 == 1 {
        return (prefix_end, Token::EscapedOpen, open + 2);
    }
    let close = match find_pair(chars, '}', open + 2) {
        None => {
            return (prefix_end, Token::Literal(text_of(chars, open, n)), n);
        },
        Some(close) => close,
    };
    proof {
        lemma_first_pair(chars@, '}', (open + 2) as int);
    }
    let raw = text_of(chars, open, close + 2);
    let lo = skip_ws_forward(chars, open + 2, close);
    proof {
        lemma_trim_lo(chars@, (open + 2) as int, close as int);
    }
    let hi = skip_ws_backward(chars, lo, close);
    proof {
        lemma_trim_hi(chars@, lo as int, close as int);
    }
    if lo == hi || find_breaker(chars, lo, hi) {
        (prefix_end, Token::Literal(raw), close + 2)
    } else {
        (prefix_end, Token::Placeholder { name: text_of(chars, lo, hi), raw }, close + 2)
    }
}

/// Scans `body` left to right into its tokens.
///
/// The first `}}` closes a candidate and inner text is trimmed, so `{{ name }}` names `name`. A
/// candidate that trims to empty or still contains a brace or a newline is not a placeholder — its
/// whole span is literal text and is not rescanned. A `{{` with no `}}` after it is literal to the
/// end of the body.
///
/// A single escaping backslash immediately before `{{` suppresses the marker and is consumed; a
/// pair of them is one literal backslash and suppresses nothing, so `\{{x}}` is the literal text
/// `{{x}}` while `\\{{x}}` is a backslash followed by a real placeholder. Backslashes anywhere else
/// are untouched.
pub fn scan(body: &str) -> (tokens: Vec<Token>)
    ensures
        token_views(tokens@) == spec_scan(body@),
{
    let chars = chars_of(body);
    let n = chars.len();
    let mut tokens: Vec<Token> = Vec::new();
    let mut pos: usize = 0;
    while pos < n
        invariant
            n == chars@.len(),
            chars@ == body@,
            pos <= n,
            token_views(tokens@) + spec_scan_from(chars@, pos as int) == spec_scan(chars@),
        decreases n - pos,
    {
        proof {
            lemma_step_bounds(chars@, pos as int);
        }
        let ghost before = token_views(tokens@);
        let (prefix_end, token, next) = step(&chars, pos);
        if prefix_end != pos {
            tokens.push(Token::Literal(text_of(&chars, pos, prefix_end)));
        }
        tokens.push(token);
        proof {
            let head = if prefix_end == pos {
                seq![token@]
            } else {
                seq![SpecToken::Literal(chars@.subrange(pos as int, prefix_end as int)), token@]
            };
            assert(token_views(tokens@) == before + head);
            assert(spec_scan_from(chars@, pos as int) == head + spec_scan_from(
                chars@,
                next as int,
            ));
            assert(before + (head + spec_scan_from(chars@, next as int)) == (before + head)
                + spec_scan_from(chars@, next as int));
        }
        pos = next;
    }
    assert(spec_scan_from(chars@, n as int) == Seq::<SpecToken>::empty());
    assert(token_views(tokens@) + Seq::<SpecToken>::empty() == token_views(tokens@));
    tokens
}

impl Token {
    /// The text this token stands for when nothing is substituted into it: a literal's own text, a
    /// placeholder's whole `{{…}}` span, and the marker an escape suppressed.
    pub fn verbatim(&self) -> (r: &str)
        ensures
            r@ == spec_verbatim(self@),
    {
        match self {
            Token::Literal(text) => text.as_str(),
            Token::Placeholder { raw, .. } => raw.as_str(),
            Token::EscapedOpen => {
                proof {
                    reveal_strlit("{{");
                }
                "{{"
            },
        }
    }
}

} // verus!
