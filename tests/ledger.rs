use fco_backup::ledger::{commit_message, ledger_message, marker_stamp, recover_ledger, split_lines};
use fco_backup::timestamp::{format_timestamp, parse_timestamp, Timestamp, LAST_STAMP_SECS};

#[test]
fn parses_rfc3339_with_offset() {
    let t = parse_timestamp("2023-01-05T10:23:11+01:00").unwrap();
    assert_eq!(t, Timestamp::new(1672910591, 0));
    let z = parse_timestamp("1970-01-01T00:00:01.5Z").unwrap();
    assert_eq!(z, Timestamp::new(1, 500_000_000));
    assert!(parse_timestamp("yesterday").is_none());
}

#[test]
fn formats_to_the_second_in_utc() {
    assert_eq!(format_timestamp(0).unwrap(), "1970-01-01T00:00:00Z");
    assert_eq!(format_timestamp(1672906991).unwrap(), "2023-01-05T08:23:11Z");
}

#[test]
fn later_than_compares_instants() {
    let a = Timestamp::new(10, 0);
    let b = Timestamp::new(10, 1);
    assert!(b.is_after(&a));
    assert!(!a.is_after(&b));
    assert!(!a.is_after(&a));
}

#[test]
fn ledger_round_trip() {
    let t: i64 = 1672906991;
    let message = commit_message("France: new advice", t).unwrap();
    assert_eq!(message, "France: new advice\n\nFetched at: 2023-01-05T08:23:11Z");
    assert_eq!(recover_ledger(&vec![message]), Some(Timestamp::new(t, 0)));
}

#[test]
fn ledger_round_trip_with_git_trailing_newline() {
    let mut message = commit_message("Initial import", 86400).unwrap();
    message.push('\n');
    assert_eq!(recover_ledger(&vec![message]), Some(Timestamp::new(86400, 0)));
}

#[test]
fn ledger_message_layout() {
    assert_eq!(ledger_message("m", "S"), "m\n\nFetched at: S");
}

#[test]
fn split_lines_keeps_empty_lines() {
    assert_eq!(split_lines(""), vec![String::new()]);
    assert_eq!(split_lines("a\n\nb\n"), vec!["a", "", "b", ""]);
}

#[test]
fn marker_needs_prefix_and_timestamp() {
    assert_eq!(marker_stamp("Fetched at: 1970-01-01T00:00:05Z"), Some(Timestamp::new(5, 0)));
    assert_eq!(marker_stamp("fetched at: 1970-01-01T00:00:05Z"), None);
    assert_eq!(marker_stamp("Fetched at: soon"), None);
    assert_eq!(marker_stamp("Fetched"), None);
}

#[test]
fn last_readable_marker_wins() {
    let m = "x\n\nFetched at: 1970-01-01T00:00:05Z\nFetched at: 1970-01-01T00:00:07Z\nFetched at: bad\n";
    assert_eq!(recover_ledger(&vec![m.to_string()]), Some(Timestamp::new(7, 0)));
}

#[test]
fn newest_message_with_marker_wins() {
    let history = vec![
        "no marker here".to_string(),
        "b\n\nFetched at: 1970-01-01T00:00:09Z".to_string(),
        "a\n\nFetched at: 1970-01-01T00:00:03Z".to_string(),
    ];
    assert_eq!(recover_ledger(&history), Some(Timestamp::new(9, 0)));
}

#[test]
fn no_marker_means_unknown() {
    assert_eq!(recover_ledger(&vec![]), None);
    assert_eq!(recover_ledger(&vec!["Initial import".to_string()]), None);
}

#[test]
fn ledger_round_trip_at_the_edges() {
    for t in [0, 951782400, LAST_STAMP_SECS] {
        let message = commit_message("m", t).unwrap();
        assert_eq!(recover_ledger(&vec![message]), Some(Timestamp::new(t, 0)));
    }
    assert_eq!(format_timestamp(LAST_STAMP_SECS).unwrap(), "9999-12-31T23:59:59Z");
}
