use journal_gateway::patterns::{build_exp_msgs, is_comment_line, pattern_lines, PatternError, PatternSet};

fn strings(v: &[&str]) -> Vec<String> {
    v.iter().map(|s| s.to_string()).collect()
}

#[test]
fn comment_lines_are_skipped() {
    let lines = strings(&["# a comment", "ERROR", "#(", "WARN.*"]);
    assert_eq!(pattern_lines(&lines), strings(&["ERROR", "WARN.*"]));
    assert!(is_comment_line("#x"));
    assert!(!is_comment_line(" #x"));
    assert!(!is_comment_line(""));
}

#[test]
fn invalid_pattern_line_fails_construction() {
    let r = build_exp_msgs("ok\n(unclosed\n");
    assert!(matches!(r, Err(PatternError::Invalid(_))));
}

#[test]
fn invalid_regex_in_comment_is_ignored() {
    let set = build_exp_msgs("# (unclosed\nERROR: disk full\n").unwrap();
    assert!(set.matches("ERROR: disk full"));
    assert!(!set.matches("# (unclosed"));
}

#[test]
fn matches_any_pattern_anywhere_in_line() {
    let set = PatternSet::new(&strings(&["disk full", "^INFO"])).unwrap();
    assert!(set.matches("ERROR: disk full on /dev/sda"));
    assert!(set.matches("INFO: ok"));
    assert!(!set.matches("note: INFO later"));
    assert!(!set.matches("WARN: retrying"));
}

#[test]
fn empty_set_matches_nothing() {
    let set = build_exp_msgs("# only a comment\n").unwrap();
    assert!(!set.matches(""));
    assert!(!set.matches("anything"));
}

#[test]
fn crlf_config_lines_are_patterns_without_terminator() {
    let set = build_exp_msgs("^a$\r\n^b$\r\n").unwrap();
    assert!(set.matches("a"));
    assert!(set.matches("b"));
    assert!(!set.matches("c"));
}

#[test]
fn relay_line_appends_newline_or_drops() {
    let set = build_exp_msgs("ERROR: disk full").unwrap();
    assert_eq!(set.relay_line(true, "INFO: ok".to_string()), Some("INFO: ok\n".to_string()));
    assert_eq!(set.relay_line(true, "ERROR: disk full".to_string()), None);
    assert_eq!(
        set.relay_line(false, "ERROR: disk full".to_string()),
        Some("ERROR: disk full\n".to_string())
    );
}

#[test]
fn relay_filtered_scenario() {
    let set = build_exp_msgs("ERROR: disk full").unwrap();
    let lines = strings(&["INFO: ok", "ERROR: disk full", "ERROR: disk full", "WARN: retrying"]);
    assert_eq!(set.relay_body(true, &lines), "INFO: ok\nWARN: retrying\n");
}

#[test]
fn relay_unfiltered_keeps_every_line_in_order() {
    let set = build_exp_msgs("ERROR: disk full").unwrap();
    let lines = strings(&["INFO: ok", "ERROR: disk full", "ERROR: disk full", "WARN: retrying"]);
    assert_eq!(
        set.relay_body(false, &lines),
        "INFO: ok\nERROR: disk full\nERROR: disk full\nWARN: retrying\n"
    );
    assert_eq!(set.relay_body(false, &Vec::new()), "");
}
