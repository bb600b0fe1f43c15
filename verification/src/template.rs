//! What a template body declares: its placeholder names, read from the one token stream
//! [`scan`](crate::template_scan::scan) produces.

use vstd::prelude::*;

use crate::template_scan::{scan, spec_scan, SpecToken, Token, token_views};

verus! {

/// The placeholder names in `ts`, in order, repeats kept.
pub open spec fn spec_names(ts: Seq<SpecToken>) -> Seq<Seq<char>>
    decreases ts.len(),
{
    if ts.len() == 0 {
        Seq::empty()
    } else {
        let rest = spec_names(ts.drop_last());
        match ts.last() {
            SpecToken::Placeholder { name, .. } => rest.push(name),
            _ => rest,
        }
    }
}

/// `ss` with every repeat after a first occurrence dropped, keeping first-occurrence order.
pub open spec fn first_occurrences(ss: Seq<Seq<char>>) -> Seq<Seq<char>>
    decreases ss.len(),
{
    if ss.len() == 0 {
        Seq::empty()
    } else {
        let rest = first_occurrences(ss.drop_last());
        if rest.contains(ss.last()) {
            rest
        } else {
            rest.push(ss.last())
        }
    }
}

/// The distinct placeholder names a body declares, in first-occurrence order.
pub open spec fn spec_placeholders(body: Seq<char>) -> Seq<Seq<char>> {
    first_occurrences(spec_names(spec_scan(body)))
}

/// The views of a list of strings.
pub open spec fn string_views(v: Seq<String>) -> Seq<Seq<char>> {
    v.map_values(|s: String| s@)
}

/// Whether `name` is already among `names`.
fn contains_name(names: &Vec<String>, name: &String) -> (r: bool)
    ensures
        r == string_views(names@).contains(name@),
{
    let mut i: usize = 0;
    while i < names.len()
        invariant
            i <= names@.len(),
            forall|j: int| 0 <= j < i ==> names@[j]@ != name@,
        decreases names@.len() - i,
    {
        if names[i] == *name {
            assert(string_views(names@)[i as int] == name@);
            return true;
        }
        i += 1;
    }
    proof {
        if string_views(names@).contains(name@) {
            let j = choose|j: int|
                0 <= j < string_views(names@).len() && string_views(names@)[j] == name@;
            assert(names@[j]@ == name@);
        }
    }
    false
}

/// The distinct placeholder names `body` declares, trimmed, in the order each first appears.
/// Escaped markers, empty or unclosed candidates, and candidates holding a brace or a newline
/// declare nothing.
pub fn placeholders(body: &str) -> (names: Vec<String>)
    ensures
        string_views(names@) == spec_placeholders(body@),
{
    let tokens = scan(body);
    let mut names: Vec<String> = Vec::new();
    let mut i: usize = 0;
    while i < tokens.len()
        invariant
            i <= tokens@.len(),
            token_views(tokens@) == spec_scan(body@),
            string_views(names@) == first_occurrences(
                spec_names(token_views(tokens@).take(i as int)),
            ),
        decreases tokens@.len() - i,
    {
        let ghost prev = token_views(tokens@).take(i as int);
        let ghost next = token_views(tokens@).take(i + 1);
        assert(next.drop_last() == prev);
        assert(next.last() == tokens@[i as int]@);
        match &tokens[i] {
            Token::Placeholder { name, .. } => {
                assert(spec_names(next) == spec_names(prev).push(name@));
                assert(spec_names(next).drop_last() == spec_names(prev));
                if !contains_name(&names, name) {
                    names.push(name.clone());
                    assert(string_views(names@) == first_occurrences(spec_names(prev)).push(
                        name@,
                    ));
                }
            },
            _ => {
                assert(spec_names(next) == spec_names(prev));
            },
        }
        i += 1;
    }
    assert(token_views(tokens@).take(tokens@.len() as int) == token_views(tokens@));
    names
}

proof fn lemma_first_occurrences(ss: Seq<Seq<char>>)
    ensures
        first_occurrences(ss).no_duplicates(),
        forall|x: Seq<char>| first_occurrences(ss).contains(x) <==> ss.contains(x),
    decreases ss.len(),
{
    if ss.len() > 0 {
        let init = ss.drop_last();
        lemma_first_occurrences(init);
        let rest = first_occurrences(init);
        assert forall|x: Seq<char>| ss.contains(x) <==> (init.contains(x) || x == ss.last()) by {
            if ss.contains(x) {
                let j = choose|j: int| 0 <= j < ss.len() && ss[j] == x;
                if j < ss.len() - 1 {
                    assert(init[j] == x);
                }
            }
            if init.contains(x) {
                let j = choose|j: int| 0 <= j < init.len() && init[j] == x;
                assert(ss[j] == x);
            }
            if x == ss.last() {
                assert(ss[ss.len() - 1] == x);
            }
        }
        if !rest.contains(ss.last()) {
            let pushed = rest.push(ss.last());
            assert forall|x: Seq<char>| pushed.contains(x) <==> (rest.contains(x) || x == ss.last()) by {
                if pushed.contains(x) {
                    let j = choose|j: int| 0 <= j < pushed.len() && pushed[j] == x;
                    if j < rest.len() {
                        assert(rest[j] == x);
                    }
                }
                if rest.contains(x) {
                    let j = choose|j: int| 0 <= j < rest.len() && rest[j] == x;
                    assert(pushed[j] == x);
                }
                if x == ss.last() {
                    assert(pushed[pushed.len() - 1] == x);
                }
            }
            assert forall|i: int, j: int|
                0 <= i < pushed.len() && 0 <= j < pushed.len() && i != j implies pushed[i]
                != pushed[j] by {
                if i == pushed.len() - 1 && j < rest.len() {
                    assert(rest[j] == pushed[j]);
                } else if j == pushed.len() - 1 && i < rest.len() {
                    assert(rest[i] == pushed[i]);
                }
            }
        }
    }
}

/// The declared names are distinct, and they are exactly the names the scan reports: none lost,
/// none invented.
pub proof fn law_placeholders_are_the_distinct_scanned_names(body: Seq<char>)
    ensures
        spec_placeholders(body).no_duplicates(),
        forall|x: Seq<char>|
            spec_placeholders(body).contains(x) <==> spec_names(spec_scan(body)).contains(x),
{
    lemma_first_occurrences(spec_names(spec_scan(body)));
}

} // verus!
