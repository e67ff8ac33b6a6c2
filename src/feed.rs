//! Entries of the change-notification feed, and the decision between a full
//! resynchronisation and an incremental replay of the new entries.
use crate::text::str_equals;
use crate::timestamp::Timestamp;
use vstd::prelude::*;

verus! {

/// A typed link of a feed entry.
pub struct FeedLink {
    pub href: String,
    pub mime_type: Option<String>,
}

/// One entry of the change-notification feed.
pub struct ChangeEntry {
    pub id: String,
    pub title: String,
    pub links: Vec<FeedLink>,
    pub updated: Timestamp,
    /// The entry's summary, an HTML fragment, if it has one.
    pub summary: Option<String>,
}

/// Why every content unit has to be fetched again.
#[derive(Clone, Copy, Debug, PartialEq, Eq, Structural)]
pub enum ResyncReason {
    /// Every entry of the feed is newer than the ledger: the feed cannot
    /// show what changed in between.
    AllEntriesNew,
    /// The new entries do not name one distinct content page each: two point
    /// at the same page, or one has no HTML link.
    DuplicateEntries,
}

impl ResyncReason {
    /// The reason in words.
    pub fn text(&self) -> (r: String)
        ensures
            *self == ResyncReason::AllEntriesNew ==> r@ == "all entries new"@,
            *self == ResyncReason::DuplicateEntries ==> r@ == "duplicate entries"@,
    {
        match self {
            ResyncReason::AllEntriesNew => String::from_str("all entries new"),
            ResyncReason::DuplicateEntries => String::from_str("duplicate entries"),
        }
    }
}

/// What the feed says has to be done.
pub enum Reconciliation {
    FullResync(ResyncReason),
    /// Replay these entries, oldest first; none means there is nothing to do.
    Incremental(Vec<ChangeEntry>),
}

/// The view of an optional string.
pub open spec fn opt_view(o: Option<String>) -> Option<Seq<char>> {
    match o {
        Some(s) => Some(s@),
        None => None,
    }
}

/// The MIME type that marks an entry's HTML page.
pub const HTML_MIME: &'static str = "text/html";

pub open spec fn is_html_link(l: FeedLink) -> bool {
    opt_view(l.mime_type) == Some(HTML_MIME@)
}

/// The address of the first link typed as HTML.
pub open spec fn first_html_href(links: Seq<FeedLink>) -> Option<Seq<char>>
    decreases links.len(),
{
    if links.len() == 0 {
        None
    } else if is_html_link(links[0]) {
        Some(links[0].href@)
    } else {
        first_html_href(links.drop_first())
    }
}

/// The canonical page of an entry: the address of its HTML link.
pub open spec fn page_of(e: ChangeEntry) -> Option<Seq<char>> {
    first_html_href(e.links@)
}

impl ChangeEntry {
    /// The address of the entry's first HTML-typed link, if it has one.
    pub fn html_url(&self) -> (r: Option<String>)
        ensures
            opt_view(r) == page_of(*self),
    {
        let n = self.links.len();
        let mut i: usize = 0;
        assert(self.links@.skip(0) =~= self.links@);
        while i < n
            invariant
                n == self.links@.len(),
                i <= n,
                first_html_href(self.links@) == first_html_href(self.links@.skip(i as int)),
            decreases n - i,
        {
            let link = &self.links[i];
            assert(self.links@.skip(i as int).drop_first() =~= self.links@.skip(i + 1));
            let html = match &link.mime_type {
                Some(m) => str_equals(m.as_str(), HTML_MIME),
                None => false,
            };
            if html {
                return Some(link.href.clone());
            }
            i = i + 1;
        }
        None
    }
}

/// The entries of `feed` (newest first) that are newer than `since`, in
/// reverse feed order, so oldest first.
pub open spec fn new_entries(feed: Seq<ChangeEntry>, since: Timestamp) -> Seq<ChangeEntry>
    decreases feed.len(),
{
    if feed.len() == 0 {
        seq![]
    } else {
        let rest = new_entries(feed.drop_first(), since);
        if feed[0].updated.after(since) {
            rest.push(feed[0])
        } else {
            rest
        }
    }
}

/// Every entry of the feed is new.
pub open spec fn all_new(feed: Seq<ChangeEntry>, since: Timestamp) -> bool {
    new_entries(feed, since).len() == feed.len()
}

/// Two entries point at the same HTML page.
pub open spec fn has_duplicate_pages(entries: Seq<ChangeEntry>) -> bool {
    exists|i: int, j: int|
        0 <= i < j < entries.len() && #[trigger] page_of(entries[i]) is Some && page_of(entries[i])
            == #[trigger] page_of(entries[j])
}

/// No entry of `feed` is newer than one before it.
pub open spec fn newest_first(feed: Seq<ChangeEntry>) -> bool {
    forall|i: int, j: int| 0 <= i < j < feed.len() ==> !#[trigger] feed[j].updated.after(#[trigger] feed[i].updated)
}

/// No entry of `es` is newer than one after it.
pub open spec fn oldest_first(es: Seq<ChangeEntry>) -> bool {
    forall|i: int, j: int| 0 <= i < j < es.len() ==> !#[trigger] es[i].updated.after(#[trigger] es[j].updated)
}

/// Each new entry is taken from the feed and is newer than `since`.
pub proof fn lemma_new_entries_from_feed(feed: Seq<ChangeEntry>, since: Timestamp)
    ensures
        new_entries(feed, since).len() <= feed.len(),
        forall|m: int| 0 <= m < new_entries(feed, since).len() ==> #[trigger] new_entries(feed, since)[m].updated.after(since),
        forall|m: int| 0 <= m < new_entries(feed, since).len() ==> exists|k: int| 0 <= k < feed.len() && #[trigger] new_entries(feed, since)[m] == feed[k],
    decreases feed.len(),
{
    if feed.len() > 0 {
        let tail = feed.drop_first();
        lemma_new_entries_from_feed(tail, since);
        let rest = new_entries(tail, since);
        assert forall|m: int| 0 <= m < rest.len() implies exists|k: int| 0 <= k < feed.len() && #[trigger] rest[m] == feed[k] by {
            let k = choose|k: int| 0 <= k < tail.len() && rest[m] == tail[k];
            assert(rest[m] == feed[k + 1]);
        }
        if feed[0].updated.after(since) {
            let r = rest.push(feed[0]);
            assert forall|m: int| 0 <= m < r.len() implies exists|k: int| 0 <= k < feed.len() && #[trigger] r[m] == feed[k] by {
                if m < rest.len() {
                    assert(r[m] == rest[m]);
                } else {
                    assert(r[m] == feed[0]);
                }
            }
        }
    }
}

/// Replayed in reverse, a feed that lists its entries newest first gives its
/// new entries oldest first, each of them newer than the ledger.
pub proof fn lemma_new_entries_oldest_first(feed: Seq<ChangeEntry>, since: Timestamp)
    requires
        newest_first(feed),
    ensures
        oldest_first(new_entries(feed, since)),
        forall|m: int| 0 <= m < new_entries(feed, since).len() ==> #[trigger] new_entries(feed, since)[m].updated.after(since),
    decreases feed.len(),
{
    lemma_new_entries_from_feed(feed, since);
    if feed.len() > 0 {
        let tail = feed.drop_first();
        assert(newest_first(tail)) by {
            assert forall|i: int, j: int| 0 <= i < j < tail.len() implies !#[trigger] tail[j].updated.after(#[trigger] tail[i].updated) by {
                assert(tail[i] == feed[i + 1] && tail[j] == feed[j + 1]);
            }
        }
        lemma_new_entries_oldest_first(tail, since);
        lemma_new_entries_from_feed(tail, since);
        let rest = new_entries(tail, since);
        if feed[0].updated.after(since) {
            let r = rest.push(feed[0]);
            assert forall|i: int, j: int| 0 <= i < j < r.len() implies !#[trigger] r[i].updated.after(#[trigger] r[j].updated) by {
                if j == rest.len() {
                    let k = choose|k: int| 0 <= k < tail.len() && #[trigger] rest[i] == tail[k];
                    assert(rest[i] == feed[k + 1]);
                    assert(!feed[k + 1].updated.after(feed[0].updated));
                } else {
                    assert(r[i] == rest[i] && r[j] == rest[j]);
                }
            }
        }
    }
}

/// Some entry has no HTML link.
pub open spec fn has_pageless(entries: Seq<ChangeEntry>) -> bool {
    exists|i: int| 0 <= i < entries.len() && #[trigger] page_of(entries[i]) is None
}

/// The entries do not name distinct pages, one each: an entry has no HTML
/// link, or two point at the same page.  Either way, fewer distinct pages
/// are found than there are entries.
pub open spec fn pages_not_distinct(entries: Seq<ChangeEntry>) -> bool {
    has_pageless(entries) || has_duplicate_pages(entries)
}

/// Keeps the entries of `feed` (newest first) that were updated after
/// `since`, and returns them oldest first.
pub fn changes_since(feed: Vec<ChangeEntry>, since: Timestamp) -> (r: Vec<ChangeEntry>)
    ensures
        r@ == new_entries(feed@, since),
{
    let ghost all = feed@;
    let mut rest = feed;
    let mut out: Vec<ChangeEntry> = Vec::new();
    while rest.len() > 0
        invariant
            rest@ == all.take(rest@.len() as int),
            rest@.len() <= all.len(),
            out@ == new_entries(all.skip(rest@.len() as int), since),
        decreases rest@.len(),
    {
        let ghost k = rest@.len() as int;
        let e = rest.pop().unwrap();
        assert(all.skip(k - 1).drop_first() =~= all.skip(k));
        assert(all.skip(k - 1)[0] == all[k - 1]);
        assert(rest@ =~= all.take(k - 1));
        if e.updated.is_after(&since) {
            out.push(e);
        }
    }
    assert(all.skip(0) =~= all);
    out
}

/// Entries `i` and `j` point at the same HTML page.
pub open spec fn same_page(entries: Seq<ChangeEntry>, i: int, j: int) -> bool {
    page_of(entries[i]) is Some && page_of(entries[i]) == page_of(entries[j])
}

/// Whether the entries fail to name one distinct HTML page each: an entry
/// has no HTML link, or two point at the same page.  The pages are compared
/// pairwise: a std set of strings would give no size that can be reasoned
/// about.
pub fn has_duplicates(entries: &Vec<ChangeEntry>) -> (r: bool)
    ensures
        r == pages_not_distinct(entries@),
{
    let n = entries.len();
    let mut urls: Vec<Option<String>> = Vec::new();
    let mut k: usize = 0;
    while k < n
        invariant
            n == entries@.len(),
            k <= n,
            urls@.len() == k,
            forall|m: int| 0 <= m < k ==> opt_view(#[trigger] urls@[m]) == page_of(entries@[m]),
            forall|m: int| 0 <= m < k ==> (#[trigger] urls@[m]) is Some,
        decreases n - k,
    {
        let u = entries[k].html_url();
        if u.is_none() {
            assert(page_of(entries@[k as int]) is None);
            return true;
        }
        urls.push(u);
        k = k + 1;
    }
    assert(!has_pageless(entries@)) by {
        assert forall|m: int| 0 <= m < n implies !(#[trigger] page_of(entries@[m]) is None) by {
            assert(opt_view(urls@[m]) == page_of(entries@[m]));
        }
    }
    let mut i: usize = 0;
    while i < n
        invariant
            n == entries@.len(),
            urls@.len() == n,
            i <= n,
            forall|m: int| 0 <= m < n ==> opt_view(#[trigger] urls@[m]) == page_of(entries@[m]),
            forall|a: int, b: int| 0 <= a < i && a < b < n ==> !same_page(entries@, a, b),
        decreases n - i,
    {
        let mut j: usize = i + 1;
        while j < n
            invariant
                n == entries@.len(),
                urls@.len() == n,
                i < n,
                i < j <= n,
                forall|m: int| 0 <= m < n ==> opt_view(#[trigger] urls@[m]) == page_of(entries@[m]),
                forall|a: int, b: int| 0 <= a < i && a < b < n ==> !same_page(entries@, a, b),
                forall|b: int| i < b < j ==> !same_page(entries@, i as int, b),
            decreases n - j,
        {
            let same = match (&urls[i], &urls[j]) {
                (Some(a), Some(b)) => *a == *b,
                _ => false,
            };
            assert(opt_view(urls@[i as int]) == page_of(entries@[i as int]));
            assert(opt_view(urls@[j as int]) == page_of(entries@[j as int]));
            if same {
                assert(same_page(entries@, i as int, j as int));
                return true;
            }
            j = j + 1;
        }
        i = i + 1;
    }
    assert forall|a: int, b: int| 0 <= a < b < entries@.len() implies !(
    #[trigger] page_of(entries@[a]) is Some && page_of(entries@[a]) == #[trigger] page_of(
        entries@[b],
    )) by {
        assert(!same_page(entries@, a, b));
    }
    false
}

/// Decides what the feed asks for, given the feed (newest first) and the
/// ledger's timestamp.  All entries new comes first; then new entries that
/// do not name distinct pages (one without an HTML link, or two with the
/// same page); otherwise the new entries are replayed, oldest first.
pub fn detect_changes(feed: Vec<ChangeEntry>, since: Timestamp) -> (r: Reconciliation)
    ensures
        all_new(feed@, since) ==> r == Reconciliation::FullResync(ResyncReason::AllEntriesNew),
        !all_new(feed@, since) && pages_not_distinct(new_entries(feed@, since)) ==> r
            == Reconciliation::FullResync(ResyncReason::DuplicateEntries),
        !all_new(feed@, since) && !pages_not_distinct(new_entries(feed@, since)) ==> (
        r matches Reconciliation::Incremental(es) && es@ == new_entries(feed@, since)),
{
    let total = feed.len();
    let fresh = changes_since(feed, since);
    if fresh.len() == total {
        Reconciliation::FullResync(ResyncReason::AllEntriesNew)
    } else if has_duplicates(&fresh) {
        Reconciliation::FullResync(ResyncReason::DuplicateEntries)
    } else {
        Reconciliation::Incremental(fresh)
    }
}

} // verus!
