use fco_backup::archive::{replace_unit_ops, FileOp};
use fco_backup::engine::{
    discovery_message, discovery_plan, full_resync_plan, incremental_plan, reconcile, Step,
    CATCH_UP_MESSAGE,
};
use fco_backup::error::EngineError;
use fco_backup::feed::{
    changes_since, detect_changes, has_duplicates, ChangeEntry, FeedLink, Reconciliation,
    ResyncReason,
};
use fco_backup::retry::RetryBudget;
use fco_backup::summary::{parse_summary, summary_from_extraction};
use fco_backup::timestamp::Timestamp;
use fco_backup::unit::{Country, TitleAndContent};
use std::collections::BTreeMap;

fn link(href: &str, mime: Option<&str>) -> FeedLink {
    FeedLink { href: href.to_string(), mime_type: mime.map(|m| m.to_string()) }
}

fn entry(title: &str, secs: i64, page: &str) -> ChangeEntry {
    ChangeEntry {
        id: format!("id-{}", title),
        title: title.to_string(),
        links: vec![link(&format!("{}.atom", page), Some("application/atom+xml")), link(page, Some("text/html"))],
        updated: Timestamp::new(secs, 0),
        summary: Some(format!("<div><p>{} changed</p></div>", title)),
    }
}

fn titles(es: &[ChangeEntry]) -> Vec<String> {
    es.iter().map(|e| e.title.clone()).collect()
}

const BASE: &str = "https://www.gov.uk/foreign-travel-advice/";

/// A feed of five entries, newest first.
fn feed5() -> Vec<ChangeEntry> {
    vec![
        entry("Spain", 50, &format!("{}spain", BASE)),
        entry("France", 40, &format!("{}france", BASE)),
        entry("Italy", 30, &format!("{}italy", BASE)),
        entry("Chad", 20, &format!("{}chad", BASE)),
        entry("Peru", 10, &format!("{}peru", BASE)),
    ]
}

#[test]
fn html_url_takes_first_html_link() {
    let mut e = entry("A", 1, "https://x/a");
    e.links.push(link("https://x/other", Some("text/html")));
    assert_eq!(e.html_url(), Some("https://x/a".to_string()));
    e.links = vec![link("https://x/feed", None), link("https://x/p", Some("text/plain"))];
    assert_eq!(e.html_url(), None);
}

#[test]
fn changes_since_keeps_newer_oldest_first() {
    let fresh = changes_since(feed5(), Timestamp::new(30, 0));
    assert_eq!(titles(&fresh), vec!["France", "Spain"]);
    let same_second = changes_since(feed5(), Timestamp::new(40, 0));
    assert_eq!(titles(&same_second), vec!["Spain"]);
    let just_before = changes_since(feed5(), Timestamp::new(39, 999));
    assert_eq!(titles(&just_before), vec!["France", "Spain"]);
}

#[test]
fn all_entries_new_means_full_resync() {
    match detect_changes(feed5(), Timestamp::new(5, 0)) {
        Reconciliation::FullResync(r) => {
            assert_eq!(r, ResyncReason::AllEntriesNew);
            assert_eq!(r.text(), "all entries new");
        }
        _ => panic!("expected a full resync"),
    }
}

#[test]
fn empty_feed_counts_as_all_new() {
    match detect_changes(vec![], Timestamp::new(5, 0)) {
        Reconciliation::FullResync(ResyncReason::AllEntriesNew) => {}
        _ => panic!("expected a full resync"),
    }
}

#[test]
fn duplicate_pages_mean_full_resync() {
    let mut feed = feed5();
    feed[1].links = vec![link(&format!("{}spain", BASE), Some("text/html"))];
    match detect_changes(feed, Timestamp::new(15, 0)) {
        Reconciliation::FullResync(r) => {
            assert_eq!(r, ResyncReason::DuplicateEntries);
            assert_eq!(r.text(), "duplicate entries");
        }
        _ => panic!("expected a full resync"),
    }
}

#[test]
fn entry_without_page_counts_as_duplicate() {
    let mut one = vec![entry("Nowhere", 5, "https://x/nowhere")];
    assert!(!has_duplicates(&one));
    one[0].links = vec![];
    assert!(has_duplicates(&one));
    assert!(!has_duplicates(&vec![]));
    assert!(!has_duplicates(&feed5()));
    let mut feed = feed5();
    feed[2].links = vec![link(&format!("{}chad", BASE), Some("text/plain"))];
    assert!(has_duplicates(&feed));
}

#[test]
fn new_entry_without_page_means_full_resync() {
    let mut feed = feed5();
    feed[0].links = vec![];
    match detect_changes(feed, Timestamp::new(30, 0)) {
        Reconciliation::FullResync(ResyncReason::DuplicateEntries) => {}
        _ => panic!("expected a full resync"),
    }
}

#[test]
fn nothing_new_is_empty_incremental() {
    match detect_changes(feed5(), Timestamp::new(50, 0)) {
        Reconciliation::Incremental(es) => assert!(es.is_empty()),
        _ => panic!("expected an incremental update"),
    }
    let plan = incremental_plan(&vec![]);
    assert!(plan.steps.is_empty());
    assert!(plan.stopped.is_none());
}

#[test]
fn five_entries_two_new_replays_two() {
    let history = vec!["France: x\n\nFetched at: 1970-01-01T00:00:30Z\n".to_string()];
    let es = match reconcile(feed5(), &history).unwrap() {
        Reconciliation::Incremental(es) => es,
        _ => panic!("expected an incremental update"),
    };
    assert_eq!(titles(&es), vec!["France", "Spain"]);
    let plan = incremental_plan(&es);
    assert!(plan.stopped.is_none());
    let steps = plan.steps;
    assert_eq!(steps.len(), 7);
    let commits = steps.iter().filter(|s| matches!(s, Step::Commit { .. })).count();
    let pushes = steps.iter().filter(|s| matches!(s, Step::Push)).count();
    assert_eq!(commits, 2);
    assert_eq!(pushes, 1);
    match (&steps[0], &steps[1], &steps[2]) {
        (Step::RemoveUnit { slug: a }, Step::FetchUnit { unit, slug: b }, Step::Commit { message }) => {
            assert_eq!(a, "france");
            assert_eq!(b, "france");
            assert_eq!(unit.name, "France");
            assert_eq!(unit.url, format!("{}france", BASE));
            assert_eq!(message, "France: France changed");
        }
        _ => panic!("unexpected steps"),
    }
    match &steps[3] {
        Step::RemoveUnit { slug } => assert_eq!(slug, "spain"),
        _ => panic!("unexpected step"),
    }
    assert!(matches!(steps[6], Step::Push));
}

#[test]
fn reconcile_without_ledger_fails() {
    match reconcile(feed5(), &vec!["Initial import".to_string()]) {
        Err(EngineError::UnknownLedger) => {}
        _ => panic!("expected an unknown ledger"),
    }
}

#[test]
fn incremental_plan_needs_page_links() {
    let mut e = entry("Nowhere", 5, "https://x/nowhere");
    e.links = vec![];
    let plan = incremental_plan(&vec![e]);
    assert!(plan.steps.is_empty());
    match plan.stopped {
        Some(EngineError::MissingPageLink(t)) => assert_eq!(t, "Nowhere"),
        _ => panic!("expected a missing page link"),
    }
}

#[test]
fn incremental_plan_replays_entries_before_a_bad_one() {
    let good = entry("France", 5, "https://x/france");
    let bad = entry("Up", 6, "https://x/..");
    let later = entry("Peru", 7, "https://x/peru");
    let plan = incremental_plan(&vec![good, bad, later]);
    match &plan.stopped {
        Some(EngineError::BadPath(p)) => assert_eq!(p, ".."),
        _ => panic!("expected a bad path"),
    }
    assert_eq!(plan.steps.len(), 3);
    assert!(matches!(plan.steps[0], Step::RemoveUnit { .. }));
    match &plan.steps[2] {
        Step::Commit { message } => assert_eq!(message, "France: France changed"),
        _ => panic!("unexpected step"),
    }
    assert!(!plan.steps.iter().any(|s| matches!(s, Step::Push)));
}

#[test]
fn summary_takes_first_paragraph() {
    let mut e = entry("A", 1, "https://x/a");
    e.summary = Some("<div xmlns=\"http://www.w3.org/1999/xhtml\"><p>Latest update: new rules.</p><p>More</p></div>".to_string());
    assert_eq!(parse_summary(&e), "Latest update: new rules.");
    e.summary = Some("not <xml".to_string());
    assert_eq!(parse_summary(&e), "not <xml");
    e.summary = Some("<span>Hi</span>".to_string());
    assert_eq!(parse_summary(&e), "<span>Hi</span>");
    e.summary = None;
    assert_eq!(parse_summary(&e), "[No summary]");
}

fn unit(name: &str, url: &str) -> Country {
    Country { name: name.to_string(), url: url.to_string() }
}

#[test]
fn full_resync_plan_fetches_every_unit() {
    let units = vec![unit("France", "https://x/france"), unit("Peru", "https://x/peru")];
    let steps = full_resync_plan(&units, CATCH_UP_MESSAGE).unwrap();
    assert_eq!(steps.len(), 5);
    assert!(matches!(steps[0], Step::RemoveRoot));
    match &steps[2] {
        Step::FetchUnit { unit, slug } => {
            assert_eq!(unit.name, "Peru");
            assert_eq!(slug, "peru");
        }
        _ => panic!("unexpected step"),
    }
    match &steps[3] {
        Step::Commit { message } => assert_eq!(message, "Missed some updates as they happened, catching up"),
        _ => panic!("unexpected step"),
    }
    assert!(matches!(steps[4], Step::Push));
    assert!(full_resync_plan(&vec![unit("Bad", "https://x/.")], "m").is_err());
}

#[test]
fn discovery_plan_commits_once() {
    let steps = discovery_plan(&vec![unit("Chad", "https://x/chad")]).unwrap();
    assert_eq!(steps.len(), 4);
    assert!(matches!(steps[2], Step::CommitDiscovery));
    assert!(matches!(steps[3], Step::Push));
    assert_eq!(discovery_message(0), "No unannounced changes discovered");
    assert_eq!(discovery_message(12), "Changes discovered which weren't announced on the atom feed");
}

type Tree = BTreeMap<String, BTreeMap<String, String>>;

fn apply(tree: &mut Tree, ops: &[FileOp]) {
    for op in ops {
        match op {
            FileOp::RemoveDir { slug } => {
                tree.remove(slug);
            }
            FileOp::CreateDir { slug } => {
                tree.entry(slug.clone()).or_default();
            }
            FileOp::WriteFile { slug, name, content } => {
                tree.entry(slug.clone()).or_default().insert(name.clone(), content.clone());
            }
        }
    }
}

fn pages() -> Vec<TitleAndContent> {
    vec![
        TitleAndContent { title: "Summary".to_string(), content: "one\n".to_string() },
        TitleAndContent { title: "Entry requirements".to_string(), content: "two\n".to_string() },
        TitleAndContent { title: "SUMMARY".to_string(), content: "three\n".to_string() },
    ]
}

#[test]
fn replace_unit_writes_fresh_directory() {
    let ops = replace_unit_ops("france", &pages());
    assert_eq!(ops.len(), 5);
    let mut tree = Tree::new();
    tree.entry("france".to_string()).or_default().insert("stale".to_string(), "old".to_string());
    tree.entry("peru".to_string()).or_default().insert("summary".to_string(), "p".to_string());
    apply(&mut tree, &ops);
    let france = &tree["france"];
    assert_eq!(france.len(), 2);
    assert_eq!(france["summary"], "three\n");
    assert_eq!(france["entry-requirements"], "two\n");
    assert_eq!(tree["peru"]["summary"], "p");
}

#[test]
fn replace_unit_twice_is_replace_once() {
    let mut once = Tree::new();
    once.entry("france".to_string()).or_default().insert("stale".to_string(), "old".to_string());
    apply(&mut once, &replace_unit_ops("france", &pages()));
    let mut twice = once.clone();
    apply(&mut twice, &replace_unit_ops("france", &pages()));
    assert_eq!(once, twice);
}

#[test]
fn retry_succeeds_on_third_attempt() {
    let outcomes: Vec<Result<u32, String>> = vec![Err("e1".to_string()), Err("e2".to_string()), Ok(7)];
    let mut budget = RetryBudget::new();
    let mut result = None;
    for o in outcomes {
        match o {
            Ok(v) => {
                result = Some(v);
                break;
            }
            Err(e) => match budget.after_failure(e) {
                Ok(b) => budget = b,
                Err(_) => panic!("gave up too early"),
            },
        }
    }
    assert_eq!(result, Some(7));
}

#[test]
fn retry_gives_up_with_three_errors() {
    let mut budget = RetryBudget::new();
    budget = budget.after_failure("e1".to_string()).ok().unwrap();
    assert_eq!(budget.failures(), 1);
    budget = budget.after_failure("e2".to_string()).ok().unwrap();
    match budget.after_failure("e3".to_string()) {
        Err(agg) => assert_eq!(agg.errors, vec!["e1", "e2", "e3"]),
        Ok(_) => panic!("expected to give up"),
    }
}

#[test]
fn empty_extraction_falls_back_to_raw() {
    assert_eq!(summary_from_extraction("<span>Hi</span>", Some(String::new())), "<span>Hi</span>");
    assert_eq!(summary_from_extraction("raw", Some("text".to_string())), "text");
    assert_eq!(summary_from_extraction("raw", None), "raw");
}
