use mini_grep::{Arguments, CaseMode, MatchMode, OutputMode, Query};

fn arguments(case: CaseMode) -> Arguments {
    Arguments { case, invert: MatchMode::Default, count: OutputMode::Default }
}

#[test]
fn sensitive_query_keeps_the_pattern_as_given() {
    let query = Query::new("HeLLo", arguments(CaseMode::Sensitive), &[]);
    assert_eq!(query.needle(), "HeLLo");
}

#[test]
fn insensitive_query_lowercases_the_pattern() {
    let query = Query::new("HeLLo", arguments(CaseMode::Insensitive), &[]);
    assert_eq!(query.needle(), "hello");
}

#[test]
fn insensitive_query_lowercases_beyond_ascii() {
    let query = Query::new("ÄRGER", arguments(CaseMode::Insensitive), &[]);
    assert_eq!(query.needle(), "ärger");
}

#[test]
fn query_remembers_its_switches() {
    let given = Arguments {
        case: CaseMode::Insensitive,
        invert: MatchMode::Invert,
        count: OutputMode::Count,
    };
    let query = Query::new("x", given, &[]);
    assert_eq!(query.options(), given);
}

#[test]
fn query_remembers_its_paths_in_order() {
    let paths = vec!["b.txt".to_string(), "a.txt".to_string(), "-".to_string()];
    let query = Query::new("x", arguments(CaseMode::Sensitive), &paths);
    assert_eq!(query.path(), &paths);
}

#[test]
fn query_without_paths_has_none() {
    let query = Query::new("x", arguments(CaseMode::Sensitive), &[]);
    assert!(query.path().is_empty());
}

#[test]
fn match_lines_finds_the_pattern_anywhere_in_the_line() {
    let query = Query::new("err", arguments(CaseMode::Sensitive), &[]);
    assert!(query.match_lines("error: x"));
    assert!(query.match_lines("an error"));
    assert!(query.match_lines("stderr"));
    assert!(query.match_lines("err"));
}

#[test]
fn match_lines_rejects_lines_without_the_pattern() {
    let query = Query::new("err", arguments(CaseMode::Sensitive), &[]);
    assert!(!query.match_lines("OK"));
    assert!(!query.match_lines("er r"));
    assert!(!query.match_lines("er"));
    assert!(!query.match_lines(""));
}

#[test]
fn match_lines_is_exact_about_case_when_case_matters() {
    let query = Query::new("err", arguments(CaseMode::Sensitive), &[]);
    assert!(!query.match_lines("Error: y"));
    assert!(!query.match_lines("ERR"));
    let upper = Query::new("Err", arguments(CaseMode::Sensitive), &[]);
    assert!(upper.match_lines("Error: y"));
    assert!(!upper.match_lines("error: x"));
}

#[test]
fn match_lines_ignores_case_of_the_line() {
    let query = Query::new("Hello", arguments(CaseMode::Insensitive), &[]);
    assert!(query.match_lines("say hello"));
    assert!(query.match_lines("HELLO world"));
    assert!(!query.match_lines("help"));
}

#[test]
fn match_lines_ignores_case_of_the_pattern() {
    let lower = Query::new("hello", arguments(CaseMode::Insensitive), &[]);
    let upper = Query::new("HELLO", arguments(CaseMode::Insensitive), &[]);
    let mixed = Query::new("hElLo", arguments(CaseMode::Insensitive), &[]);
    for line in ["say hello", "HELLO world", "Hello", "hell", "", "h e l l o"] {
        assert_eq!(lower.match_lines(line), upper.match_lines(line));
        assert_eq!(lower.match_lines(line), mixed.match_lines(line));
        assert_eq!(lower.match_lines(line), lower.match_lines(&line.to_uppercase()));
    }
}

#[test]
fn empty_pattern_occurs_in_every_line() {
    let query = Query::new("", arguments(CaseMode::Sensitive), &[]);
    assert!(query.match_lines(""));
    assert!(query.match_lines("anything"));
}

#[test]
fn pattern_longer_than_the_line_does_not_match() {
    let query = Query::new("error: x and more", arguments(CaseMode::Sensitive), &[]);
    assert!(!query.match_lines("error: x"));
}

#[test]
fn match_lines_works_on_text_beyond_ascii() {
    let query = Query::new("é", arguments(CaseMode::Sensitive), &[]);
    assert!(query.match_lines("café au lait"));
    assert!(!query.match_lines("cafe au lait"));
    assert!(!query.match_lines("CAFÉ"));
    let folded = Query::new("é", arguments(CaseMode::Insensitive), &[]);
    assert!(folded.match_lines("CAFÉ"));
}
