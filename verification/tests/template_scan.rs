use soloist_core::template_scan::{scan, Token};

fn lit(text: &str) -> Token {
    Token::Literal(text.to_string())
}

fn ph(name: &str, raw: &str) -> Token {
    Token::Placeholder {
        name: name.to_string(),
        raw: raw.to_string(),
    }
}

/// The text every token stands for, concatenated — a scan that loses or duplicates a byte of the
/// body shows up here even when no placeholder is affected.
fn as_written(body: &str) -> String {
    scan(body).iter().map(|t| t.verbatim()).collect()
}

/// The placeholder names in the order the scan meets them, duplicates kept.
fn scanned_names(body: &str) -> Vec<String> {
    scan(body)
        .into_iter()
        .filter_map(|token| match token {
            Token::Placeholder { name, .. } => Some(name),
            _ => None,
        })
        .collect()
}

#[test]
fn a_body_without_markers_is_one_literal() {
    assert_eq!(scan("no markers at all"), vec![lit("no markers at all")]);
    assert_eq!(scan("").first(), None);
}

#[test]
fn a_marker_splits_the_body_into_literal_placeholder_literal() {
    assert_eq!(
        scan("Fix {{ bug }} now"),
        vec![lit("Fix "), ph("bug", "{{ bug }}"), lit(" now")]
    );
}

#[test]
fn an_escaped_marker_is_literal_text_and_names_nothing() {
    assert_eq!(scan(r"\{{x}}"), vec![Token::EscapedOpen, lit("x}}")]);
    assert_eq!(as_written(r"\{{x}}"), "{{x}}");
    assert_eq!(scanned_names(r"\{{x}}"), Vec::<String>::new());
}

#[test]
fn a_doubled_backslash_is_a_literal_backslash_before_a_real_placeholder() {
    assert_eq!(scan(r"\\{{x}}"), vec![lit(r"\"), ph("x", "{{x}}")]);
    assert_eq!(scanned_names(r"\\{{x}}"), vec!["x"]);
}

#[test]
fn a_backslash_that_does_not_precede_a_marker_is_untouched() {
    assert_eq!(
        as_written(r"C:\path\to {{file}} \ end"),
        r"C:\path\to {{file}} \ end"
    );
    assert_eq!(scanned_names(r"C:\path\to {{file}} \ end"), vec!["file"]);
    // A backslash after the marker opens nothing and is not consumed.
    assert_eq!(as_written(r"{{a}}\"), r"{{a}}\");
}

#[test]
fn backslash_runs_pair_off_before_a_marker() {
    // Three: one pair collapses to a literal backslash, the odd one escapes the marker.
    assert_eq!(
        scan(r"\\\{{x}}"),
        vec![lit(r"\"), Token::EscapedOpen, lit("x}}")]
    );
    // Four: two pairs, no escape, a real placeholder.
    assert_eq!(scan(r"\\\\{{x}}"), vec![lit(r"\\"), ph("x", "{{x}}")]);
}

#[test]
fn adjacent_markers_are_two_placeholders_with_no_literal_between_them() {
    assert_eq!(scan("{{a}}{{b}}"), vec![ph("a", "{{a}}"), ph("b", "{{b}}")]);
}

#[test]
fn a_single_brace_pair_is_not_a_marker() {
    assert_eq!(scan("{x} and {a}{b}"), vec![lit("{x} and {a}{b}")]);
}

#[test]
fn a_tripled_brace_keeps_the_extra_brace_out_of_the_name() {
    // `{{{a}}` closes at the first `}}`, and its inner text `{a` still holds a brace, so the span
    // is literal; the trailing `}` after it is literal too.
    assert_eq!(scan("{{{a}}}"), vec![lit("{{{a}}"), lit("}")]);
    assert_eq!(as_written("{{{a}}}"), "{{{a}}}");
}

#[test]
fn a_trailing_close_marker_stays_outside_the_placeholder() {
    assert_eq!(scan("{{a}}}"), vec![ph("a", "{{a}}"), lit("}")]);
}

#[test]
fn an_unclosed_marker_is_literal_to_the_end_of_the_body() {
    assert_eq!(scan("unclosed {{oops"), vec![lit("unclosed "), lit("{{oops")]);
    assert_eq!(as_written("unclosed {{oops"), "unclosed {{oops");
    // The escape still applies when nothing closes the marker.
    assert_eq!(as_written(r"a \\{{oops"), r"a \{{oops");
}

#[test]
fn an_empty_or_multiline_candidate_is_literal_and_its_span_is_not_rescanned() {
    assert_eq!(
        scan("{{}} {{  }}"),
        vec![lit("{{}}"), lit(" "), lit("{{  }}")]
    );
    assert_eq!(scanned_names("spans {{a\nb}} lines"), Vec::<String>::new());
    // The rejected span swallows the inner `{{b`, which is never rescanned.
    assert_eq!(scanned_names("{{a{{b}} c}}"), Vec::<String>::new());
    assert_eq!(scanned_names("{{a{{b}} then {{ok}}"), vec!["ok"]);
}

#[test]
fn a_non_ascii_name_survives_the_scan_intact() {
    let body = "Проверь {{ файл }} и {{файл}} — «{{résumé}}» 🌍 {{名前}}";
    assert_eq!(scanned_names(body), vec!["файл", "файл", "résumé", "名前"]);
    assert_eq!(as_written(body), body);
}

#[test]
fn a_non_ascii_literal_around_an_escaped_marker_survives_the_scan() {
    let body = "日本語 \\{{名前}} ✅";
    assert_eq!(scanned_names(body), Vec::<String>::new());
    assert_eq!(as_written(body), "日本語 {{名前}} ✅");
}

#[test]
fn the_scan_reproduces_every_body_it_reads_apart_from_consumed_escapes() {
    for body in [
        "plain text",
        "{{a}}",
        "a {{b}} c {{d}}",
        "{{a}}{{b}}",
        "{{{a}}}",
        "{{a}}}",
        "{{a{{b}} c}}",
        "unclosed {{oops",
        "{{}}",
        "spans {{a\nb}} lines",
        "非ASCII {{名前}} テキスト",
        r"C:\path {{a}}",
    ] {
        assert_eq!(as_written(body), body, "round trip of {body:?}");
    }
}

#[test]
fn scanned_order_matches_the_order_of_appearance() {
    assert_eq!(
        scanned_names("{{z}} then {{a}} then {{z}} then {{m}}"),
        vec!["z", "a", "z", "m"],
        "the stream keeps appearance order and repeats, so its readers cannot reorder"
    );
}

#[test]
fn whitespace_around_a_name_is_every_unicode_space() {
    // Tabs, no-break spaces and ideographic spaces trim like ASCII spaces.
    assert_eq!(
        scanned_names("{{\t\u{a0}name\u{3000} }}"),
        vec!["name"]
    );
    // A name of spaces alone is no name.
    assert_eq!(scan("{{\u{2003}}}"), vec![lit("{{\u{2003}}}")]);
}

#[test]
fn a_backslash_away_from_a_marker_reads_back_whole() {
    let body = r"C:\path\to {{file}} and a \ alone }} {{";
    assert_eq!(as_written(body), body);
}
