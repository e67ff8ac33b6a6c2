use fco_backup::error::EngineError;
use fco_backup::pages::{page_body, plan_pages, TocEntry};
use fco_backup::text::is_whitespace;
use fco_backup::unit::{file_name_from_lowered, validate_slug, Country, TitleAndContent};

fn country(url: &str) -> Country {
    Country { name: "X".to_string(), url: url.to_string() }
}

fn page(title: &str) -> TitleAndContent {
    TitleAndContent { title: title.to_string(), content: String::new() }
}

#[test]
fn dir_name_is_last_segment() {
    let c = country("https://www.gov.uk/foreign-travel-advice/france");
    assert_eq!(c.dir_name().unwrap(), "france");
}

#[test]
fn dir_name_of_address_without_slash() {
    assert_eq!(country("hong-kong").dir_name().unwrap(), "hong-kong");
}

#[test]
fn dir_name_after_trailing_slash_is_empty() {
    assert_eq!(country("https://www.gov.uk/foreign-travel-advice/").dir_name().unwrap(), "");
}

#[test]
fn dir_name_rejects_dot_segments() {
    match country("https://example.org/a/..").dir_name() {
        Err(EngineError::BadPath(p)) => assert_eq!(p, ".."),
        other => panic!("unexpected {:?}", other),
    }
    assert!(country("https://example.org/a/.").dir_name().is_err());
}

#[test]
fn slug_validation_rejects_unsafe_names() {
    assert!(validate_slug(".").is_err());
    assert!(validate_slug("..").is_err());
    assert!(validate_slug("a/b").is_err());
    assert!(validate_slug("/").is_err());
    match validate_slug("x/y") {
        Err(EngineError::BadPath(p)) => assert_eq!(p, "x/y"),
        other => panic!("unexpected {:?}", other),
    }
}

#[test]
fn slug_validation_accepts_plain_names() {
    assert!(validate_slug("france").is_ok());
    assert!(validate_slug("hong-kong").is_ok());
    assert!(validate_slug("...").is_ok());
    assert!(validate_slug(".hidden").is_ok());
}

#[test]
fn file_name_lowercases_and_joins_words() {
    assert_eq!(page("Entry Requirements").file_name(), "entry-requirements");
    assert_eq!(page("  Safety and\tsecurity. ").file_name(), "safety-and-security_");
    assert_eq!(page("COVID/19 rules").file_name(), "covid_19-rules");
    assert_eq!(page("").file_name(), "");
    assert_eq!(page(" \n ").file_name(), "");
    assert_eq!(page("Warnings\u{a0}and insurance").file_name(), "warnings-and-insurance");
}

#[test]
fn file_name_from_lowered_keeps_case() {
    assert_eq!(file_name_from_lowered("Already Mixed"), "Already-Mixed");
    assert_eq!(file_name_from_lowered("a.b/c  d"), "a_b_c-d");
}

#[test]
fn page_body_joins_blocks() {
    assert_eq!(page_body(&vec![]), "\n");
    assert_eq!(page_body(&vec!["a".to_string()]), "a\n");
    assert_eq!(page_body(&vec!["a".to_string(), "b".to_string()]), "a\n\nb\n");
}

fn toc(count: usize, href: Option<&str>) -> TocEntry {
    TocEntry { link_count: count, first_href: href.map(|h| h.to_string()) }
}

#[test]
fn toc_plan_classifies_entries() {
    let plan = plan_pages(&vec![
        toc(0, None),
        toc(1, Some("https://x/a")),
        toc(3, Some("https://x/b")),
        toc(0, None),
    ])
    .unwrap();
    assert_eq!(plan.current_pages, 2);
    assert_eq!(plan.links, vec!["https://x/a".to_string(), "https://x/b".to_string()]);
    assert_eq!(plan.ambiguous, 1);
}

#[test]
fn toc_plan_of_empty_contents() {
    let plan = plan_pages(&vec![]).unwrap();
    assert_eq!(plan.current_pages, 0);
    assert!(plan.links.is_empty());
    assert_eq!(plan.ambiguous, 0);
}

#[test]
fn toc_plan_fails_without_href() {
    match plan_pages(&vec![toc(0, None), toc(2, None)]) {
        Err(EngineError::MissingHref) => {}
        _ => panic!("expected a missing address"),
    }
}

#[test]
fn whitespace_agrees_with_std() {
    for c in (0u32..0x3100).filter_map(char::from_u32) {
        assert_eq!(is_whitespace(c), c.is_whitespace(), "{:?}", c);
    }
}

#[test]
fn file_name_is_stable_under_renaming() {
    for title in ["Entry requirements", " a.b / c ", "", "\t\n", "Health"] {
        let once = file_name_from_lowered(title);
        assert_eq!(file_name_from_lowered(&once), once);
        assert_eq!(once.is_empty(), title.chars().all(char::is_whitespace));
    }
}
