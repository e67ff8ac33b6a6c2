//! The engine's plans: the steps of a full resynchronisation, of an
//! incremental replay of feed entries, and of a search for unannounced
//! changes.  The caller performs the steps in order and stops at the first
//! that fails.
use crate::error::EngineError;
use crate::feed::{
    all_new, detect_changes, new_entries, pages_not_distinct, opt_view, page_of, ChangeEntry,
    Reconciliation, ResyncReason,
};
use crate::ledger::{recover_ledger, recovered_stamp};
use crate::summary::{parse_summary, summary_of};
use crate::text::views;
use crate::unit::{is_safe_slug, is_unsafe_slug, last_segment, Country};
use vstd::prelude::*;

verus! {

/// One step of a plan.
pub enum Step {
    /// Stage the removal of the whole content root, if it exists.
    RemoveRoot,
    /// Stage the removal of a unit's directory, if it exists.
    RemoveUnit { slug: String },
    /// Fetch the unit's pages (within a retry budget), replace its directory
    /// by them (see `replace_unit_ops`) and stage the directory.
    FetchUnit { unit: Country, slug: String },
    /// Commit what is staged with `message`, the ledger marker appended (see
    /// `commit_message`).
    Commit { message: String },
    /// Commit what is staged with the message that `discovery_message`
    /// gives for the staged changes.
    CommitDiscovery,
    /// Push the archive.
    Push,
}

/// The commit message of a full resynchronisation that the feed asked for.
pub const CATCH_UP_MESSAGE: &'static str = "Missed some updates as they happened, catching up";

/// The commit message of the first import.
pub const INITIAL_IMPORT_MESSAGE: &'static str = "Initial import";

/// The unit's directory name where its address gives a usable one.
pub open spec fn unit_slug_ok(url: Seq<char>) -> bool {
    is_safe_slug(last_segment(url))
}

/// Step `k` of `steps` fetches `unit` into the directory its address names.
pub open spec fn fetches(steps: Seq<Step>, k: int, name: Seq<char>, url: Seq<char>) -> bool {
    steps[k] matches Step::FetchUnit { unit, slug } && unit.name@ == name && unit.url@ == url
        && slug@ == last_segment(url)
}

/// Appends a fetch step for each unit, in order; fails, having appended
/// some, where a unit's address does not give a usable directory name.
pub fn push_fetch_steps(units: &Vec<Country>, steps: &mut Vec<Step>) -> (r: Result<(), EngineError>)
    ensures
        (exists|k: int| 0 <= k < units@.len() && is_unsafe_slug(last_segment(#[trigger] units@[k].url@))) ==> r is Err,
        (forall|k: int| 0 <= k < units@.len() ==> unit_slug_ok(#[trigger] units@[k].url@)) ==> r is Ok,
        r matches Err(e) ==> e is BadPath,
        r is Ok ==> final(steps)@.len() == old(steps)@.len() + units@.len()
            && final(steps)@.take(old(steps)@.len() as int) == old(steps)@
            && forall|k: int| 0 <= k < units@.len() ==> #[trigger] fetches(final(steps)@, old(steps)@.len() + k, units@[k].name@, units@[k].url@),
{
    let n = units.len();
    let ghost start = steps@;
    let mut i: usize = 0;
    while i < n
        invariant
            n == units@.len(),
            i <= n,
            steps@.len() == start.len() + i,
            steps@.take(start.len() as int) == start,
            forall|k: int| 0 <= k < i ==> #[trigger] fetches(steps@, start.len() + k, units@[k].name@, units@[k].url@),
            forall|k: int| 0 <= k < i ==> !is_unsafe_slug(last_segment(#[trigger] units@[k].url@)),
        decreases n - i,
    {
        let u = &units[i];
        match u.dir_name() {
            Ok(slug) => {
                let ghost before = steps@;
                let name = u.name.clone();
                let url = u.url.clone();
                assert(name@ == units@[i as int].name@ && url@ == units@[i as int].url@);
                assert(slug@ == last_segment(units@[i as int].url@));
                steps.push(Step::FetchUnit { unit: Country { name, url }, slug });
                assert(fetches(steps@, start.len() + i, units@[i as int].name@, units@[i as int].url@));
                assert(steps@.take(start.len() as int) =~= before.take(start.len() as int));
                assert forall|k: int| 0 <= k < i + 1 implies #[trigger] fetches(steps@, start.len() + k, units@[k].name@, units@[k].url@) by {
                    if k < i {
                        assert(fetches(before, start.len() + k, units@[k].name@, units@[k].url@));
                        assert(steps@[start.len() + k] == before[start.len() + k]);
                    }
                }
            },
            Err(e) => {
                return Err(e);
            },
        }
        i = i + 1;
    }
    Ok(())
}

/// The steps of a full resynchronisation over `units`: clear the content
/// root, fetch every unit, commit once with `message`, push once.
pub fn full_resync_plan(units: &Vec<Country>, message: &str) -> (r: Result<Vec<Step>, EngineError>)
    ensures
        (exists|k: int| 0 <= k < units@.len() && is_unsafe_slug(last_segment(#[trigger] units@[k].url@))) ==> r is Err,
        (forall|k: int| 0 <= k < units@.len() ==> unit_slug_ok(#[trigger] units@[k].url@)) ==> r is Ok,
        r matches Err(e) ==> e is BadPath,
        r matches Ok(steps) ==> {
            let n = units@.len() as int;
            &&& steps@.len() == n + 3
            &&& steps@[0] is RemoveRoot
            &&& forall|k: int| 0 <= k < n ==> #[trigger] fetches(steps@, 1 + k, units@[k].name@, units@[k].url@)
            &&& steps@[n + 1] matches Step::Commit { message: m } && m@ == message@
            &&& steps@[n + 2] is Push
        },
{
    let mut steps: Vec<Step> = Vec::new();
    steps.push(Step::RemoveRoot);
    match push_fetch_steps(units, &mut steps) {
        Ok(()) => {},
        Err(e) => {
            return Err(e);
        },
    }
    let ghost mid = steps@;
    steps.push(Step::Commit { message: String::from_str(message) });
    steps.push(Step::Push);
    assert forall|k: int| 0 <= k < units@.len() implies #[trigger] fetches(steps@, 1 + k, units@[k].name@, units@[k].url@) by {
        assert(fetches(mid, 1 + k, units@[k].name@, units@[k].url@));
        assert(steps@[1 + k] == mid[1 + k]);
    }
    assert(mid.take(1)[0] == steps@[0]);
    Ok(steps)
}

/// The steps of a search for changes that the feed did not announce: clear
/// the content root, fetch every unit, commit once with the message that
/// the staged changes call for, push once.
pub fn discovery_plan(units: &Vec<Country>) -> (r: Result<Vec<Step>, EngineError>)
    ensures
        (exists|k: int| 0 <= k < units@.len() && is_unsafe_slug(last_segment(#[trigger] units@[k].url@))) ==> r is Err,
        (forall|k: int| 0 <= k < units@.len() ==> unit_slug_ok(#[trigger] units@[k].url@)) ==> r is Ok,
        r matches Err(e) ==> e is BadPath,
        r matches Ok(steps) ==> {
            let n = units@.len() as int;
            &&& steps@.len() == n + 3
            &&& steps@[0] is RemoveRoot
            &&& forall|k: int| 0 <= k < n ==> #[trigger] fetches(steps@, 1 + k, units@[k].name@, units@[k].url@)
            &&& steps@[n + 1] is CommitDiscovery
            &&& steps@[n + 2] is Push
        },
{
    let mut steps: Vec<Step> = Vec::new();
    steps.push(Step::RemoveRoot);
    match push_fetch_steps(units, &mut steps) {
        Ok(()) => {},
        Err(e) => {
            return Err(e);
        },
    }
    let ghost mid = steps@;
    steps.push(Step::CommitDiscovery);
    steps.push(Step::Push);
    assert forall|k: int| 0 <= k < units@.len() implies #[trigger] fetches(steps@, 1 + k, units@[k].name@, units@[k].url@) by {
        assert(fetches(mid, 1 + k, units@[k].name@, units@[k].url@));
        assert(steps@[1 + k] == mid[1 + k]);
    }
    assert(mid.take(1)[0] == steps@[0]);
    Ok(steps)
}

/// The commit message for a replayed entry: its title and its summary.
pub open spec fn entry_message(e: ChangeEntry) -> Seq<char> {
    e.title@ + ": "@ + summary_of(opt_view(e.summary))
}

/// Steps `at` to `at + 2` replay the entry `e`: remove its unit's
/// directory, fetch the unit (named by the entry's title, at the entry's HTML
/// page), and commit with the entry's message.
pub open spec fn replays(steps: Seq<Step>, at: int, e: ChangeEntry) -> bool {
    &&& page_of(e) is Some
    &&& steps[at] matches Step::RemoveUnit { slug } && slug@ == last_segment(page_of(e).unwrap())
    &&& fetches(steps, at + 1, e.title@, page_of(e).unwrap())
    &&& steps[at + 2] matches Step::Commit { message } && message@ == entry_message(e)
}

/// The entry can be replayed: it has an HTML page whose address gives a
/// usable directory name.
pub open spec fn replayable(e: ChangeEntry) -> bool {
    page_of(e) matches Some(u) && unit_slug_ok(u)
}

/// The entry cannot be replayed on any platform.
pub open spec fn unreplayable(e: ChangeEntry) -> bool {
    page_of(e) is None || (page_of(e) matches Some(u) && is_unsafe_slug(last_segment(u)))
}

/// Entry `e` cannot be replayed, and `err` says why: it has no HTML page,
/// or its page gives no usable directory name.
pub open spec fn refuses(e: ChangeEntry, err: EngineError) -> bool {
    match page_of(e) {
        None => err matches EngineError::MissingPageLink(t) && t@ == e.title@,
        Some(u) => !unit_slug_ok(u) && (err matches EngineError::BadPath(p) && p@ == last_segment(u)),
    }
}

/// The steps of an incremental replay, and why it stopped short, if it did.
pub struct ReplayPlan {
    pub steps: Vec<Step>,
    /// The error of the first entry that cannot be replayed; the steps then
    /// replay the entries before it and do not push.
    pub stopped: Option<EngineError>,
}

/// The steps that replay `entries` (oldest first) one by one: for each,
/// remove its unit, fetch the unit again and commit on its own; then push
/// once.  No entry means no step at all.  At the first entry that has no
/// HTML page, or whose page gives no usable directory name, the plan stops:
/// the entries before it are still replayed and committed, nothing is
/// pushed, and that entry's error is handed back.
pub fn incremental_plan(entries: &Vec<ChangeEntry>) -> (r: ReplayPlan)
    ensures
        (exists|k: int| 0 <= k < entries@.len() && unreplayable(#[trigger] entries@[k])) ==> r.stopped is Some,
        (forall|k: int| 0 <= k < entries@.len() ==> replayable(#[trigger] entries@[k])) ==> r.stopped is None,
        r.stopped is None ==> {
            let n = entries@.len() as int;
            &&& n == 0 ==> r.steps@.len() == 0
            &&& n > 0 ==> r.steps@.len() == 3 * n + 1 && r.steps@[3 * n] is Push
            &&& forall|k: int| 0 <= k < n ==> #[trigger] replays(r.steps@, 3 * k, entries@[k])
        },
        r.stopped matches Some(err) ==> exists|k: int|
            0 <= k < entries@.len() && r.steps@.len() == 3 * k && refuses(#[trigger] entries@[k], err)
                && forall|j: int| 0 <= j < k ==> #[trigger] replays(r.steps@, 3 * j, entries@[j]),
{
    let n = entries.len();
    let mut steps: Vec<Step> = Vec::new();
    let mut i: usize = 0;
    while i < n
        invariant
            n == entries@.len(),
            i <= n,
            steps@.len() == 3 * i,
            forall|k: int| 0 <= k < i ==> #[trigger] replays(steps@, 3 * k, entries@[k]),
            forall|k: int| 0 <= k < i ==> !unreplayable(#[trigger] entries@[k]),
        decreases n - i,
    {
        let e = &entries[i];
        let url = match e.html_url() {
            Some(u) => u,
            None => {
                let err = EngineError::MissingPageLink(e.title.clone());
                assert(refuses(entries@[i as int], err));
                return ReplayPlan { steps, stopped: Some(err) };
            },
        };
        let unit = Country { name: e.title.clone(), url };
        let slug = match unit.dir_name() {
            Ok(d) => d,
            Err(err) => {
                assert(page_of(entries@[i as int]) is Some);
                assert(refuses(entries@[i as int], err));
                return ReplayPlan { steps, stopped: Some(err) };
            },
        };
        let mut message = e.title.clone();
        message.append(": ");
        let summary = parse_summary(e);
        message.append(summary.as_str());
        let ghost before = steps@;
        steps.push(Step::RemoveUnit { slug: slug.clone() });
        steps.push(Step::FetchUnit { unit, slug });
        steps.push(Step::Commit { message });
        assert(replays(steps@, 3 * i, entries@[i as int]));
        assert forall|k: int| 0 <= k < i + 1 implies #[trigger] replays(steps@, 3 * k, entries@[k]) by {
            if k < i {
                assert(replays(before, 3 * k, entries@[k]));
                assert(steps@[3 * k] == before[3 * k]);
                assert(steps@[3 * k + 1] == before[3 * k + 1]);
                assert(steps@[3 * k + 2] == before[3 * k + 2]);
            }
        }
        i = i + 1;
    }
    if n > 0 {
        let ghost before = steps@;
        steps.push(Step::Push);
        assert forall|k: int| 0 <= k < n implies #[trigger] replays(steps@, 3 * k, entries@[k]) by {
            assert(replays(before, 3 * k, entries@[k]));
            assert(steps@[3 * k] == before[3 * k]);
            assert(steps@[3 * k + 1] == before[3 * k + 1]);
            assert(steps@[3 * k + 2] == before[3 * k + 2]);
        }
    }
    ReplayPlan { steps, stopped: None }
}

/// Recovers the ledger from `history` (commit messages, newest first) and
/// decides what the feed asks for since then.  Without a ledger nothing can
/// be decided.
pub fn reconcile(feed: Vec<ChangeEntry>, history: &Vec<String>) -> (r: Result<Reconciliation, EngineError>)
    ensures
        match recovered_stamp(views(history@)) {
            None => r matches Err(EngineError::UnknownLedger),
            Some(since) => r is Ok && {
                let rec = r.unwrap();
                &&& all_new(feed@, since) ==> rec == Reconciliation::FullResync(ResyncReason::AllEntriesNew)
                &&& !all_new(feed@, since) && pages_not_distinct(new_entries(feed@, since)) ==> rec
                    == Reconciliation::FullResync(ResyncReason::DuplicateEntries)
                &&& !all_new(feed@, since) && !pages_not_distinct(new_entries(feed@, since)) ==> (
                rec matches Reconciliation::Incremental(es) && es@ == new_entries(feed@, since))
            },
        },
{
    match recover_ledger(history) {
        Some(since) => Ok(detect_changes(feed, since)),
        None => Err(EngineError::UnknownLedger),
    }
}

/// The commit message of a search for unannounced changes, given the size
/// of the listing of staged paths, which is zero when nothing is staged.
pub fn discovery_message(staged_len: usize) -> (r: &'static str)
    ensures
        staged_len == 0 ==> r@ == "No unannounced changes discovered"@,
        staged_len > 0 ==> r@ == "Changes discovered which weren't announced on the atom feed"@,
{
    if staged_len == 0 {
        "No unannounced changes discovered"
    } else {
        "Changes discovered which weren't announced on the atom feed"
    }
}

} // verus!
