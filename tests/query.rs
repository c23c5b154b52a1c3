use journal_gateway::query::{follow_args, pair_arg, query_from_pairs, run_journalctl};

fn strings(v: &[&str]) -> Vec<String> {
    v.iter().map(|s| s.to_string()).collect()
}

#[test]
fn empty_query_is_bounded_by_default() {
    let q = run_journalctl("");
    assert_eq!(q.args, strings(&["--merge", "--reverse", "--lines"]));
    assert!(!q.unexpected);
}

#[test]
fn explicit_lines_replaces_default_bound() {
    let q = run_journalctl("lines=50");
    assert_eq!(q.args, strings(&["--merge", "--reverse", "--lines=50"]));
}

#[test]
fn recognized_keys_keep_their_order() {
    let q = run_journalctl("until=today&unit=sshd&grep=fail&since=yesterday&hostname=web1");
    assert_eq!(
        q.args,
        strings(&[
            "--merge",
            "--reverse",
            "--until=today",
            "--unit=sshd",
            "--grep=fail",
            "--since=yesterday",
            "_HOSTNAME=web1",
            "--lines",
        ])
    );
}

#[test]
fn unrecognized_keys_add_nothing() {
    let q = run_journalctl("foo=bar&unit=cron&baz");
    assert_eq!(q.args, strings(&["--merge", "--reverse", "--unit=cron", "--lines"]));
}

#[test]
fn unexpected_presence_only() {
    let q = run_journalctl("unexpected&lines=5");
    assert!(q.unexpected);
    assert_eq!(q.args, strings(&["--merge", "--reverse", "--lines=5"]));
    let q = run_journalctl("unexpected=no");
    assert!(q.unexpected);
}

#[test]
fn values_are_percent_decoded() {
    let q = run_journalctl("unit=my%20service&grep=a+b");
    assert_eq!(q.args, strings(&["--merge", "--reverse", "--unit=my service", "--grep=a b", "--lines"]));
}

#[test]
fn matches_key_is_passed_verbatim() {
    let a = pair_arg(&"matches".to_string(), &"_SYSTEMD_UNIT=a.service".to_string());
    assert_eq!(a, Some("_SYSTEMD_UNIT=a.service".to_string()));
    assert_eq!(pair_arg(&"other".to_string(), &"x".to_string()), None);
}

#[test]
fn pairs_map_to_arguments() {
    let pairs = vec![
        ("hostname".to_string(), "db".to_string()),
        ("lines".to_string(), "10".to_string()),
    ];
    let q = query_from_pairs(&pairs);
    assert_eq!(q.args, strings(&["--merge", "--reverse", "_HOSTNAME=db", "--lines=10"]));
    assert!(!q.unexpected);
}

#[test]
fn follow_mode_arguments() {
    assert_eq!(follow_args(), strings(&["--merge", "--follow"]));
}
