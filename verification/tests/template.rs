use soloist_core::template::placeholders;

#[test]
fn placeholders_are_trimmed_deduped_and_in_first_occurrence_order() {
    assert_eq!(
        placeholders("Fix {{ bug }} in {{file}}, then verify {{bug}} again"),
        vec!["bug".to_owned(), "file".to_owned()]
    );
}

#[test]
fn placeholders_ignore_empty_unclosed_and_multiline_candidates() {
    assert_eq!(
        placeholders("empty {{}} blank {{  }} unclosed {{oops"),
        Vec::<String>::new()
    );
    assert_eq!(placeholders("spans {{a\nb}} lines"), Vec::<String>::new());
    assert_eq!(placeholders("no markers at all"), Vec::<String>::new());
}

#[test]
fn a_malformed_candidate_consumes_its_span_without_rescanning() {
    // The first `}}` closes `a{{b`, which still contains a brace, so nothing is a
    // placeholder — including the `{{b` inside the rejected span.
    assert_eq!(placeholders("{{a{{b}} c}}"), Vec::<String>::new());
    // Text after the rejected span scans normally.
    assert_eq!(placeholders("{{a{{b}} then {{ok}}"), vec!["ok".to_owned()]);
}

#[test]
fn an_escaped_marker_declares_no_placeholder_but_a_doubled_backslash_still_does() {
    assert_eq!(placeholders(r"literal \{{x}} only"), Vec::<String>::new());
    assert_eq!(
        placeholders(r"a backslash \\{{x}} then a name"),
        vec!["x".to_owned()]
    );
    assert_eq!(
        placeholders(r"{{first}} then \{{skipped}} then {{second}}"),
        vec!["first".to_owned(), "second".to_owned()]
    );
}

#[test]
fn a_non_ascii_placeholder_name_is_declared_whole() {
    assert_eq!(
        placeholders("Проверь {{ файл }} и «{{résumé}}» 🌍 {{файл}}"),
        vec!["файл".to_owned(), "résumé".to_owned()]
    );
}

#[test]
fn every_declared_name_is_distinct() {
    let names = placeholders("{{a}} {{b}} {{ a }} {{c}} {{b}} {{a}}");
    assert_eq!(names, vec!["a".to_owned(), "b".to_owned(), "c".to_owned()]);
}
