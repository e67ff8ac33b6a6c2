//! The synchronisation ledger: a marker line at the end of each commit
//! message, recovered from the archive's history.
use crate::text::{push_char, views};
use crate::timestamp::{
    format_timestamp, parse_timestamp, parsed_instant, utc_text, Timestamp, LAST_STAMP_SECS,
    STAMP_PATTERN,
};
use vstd::prelude::*;

verus! {

/// The start of the ledger's marker line; the timestamp follows it.
pub const FETCHED_AT_PREFIX: &'static str = "Fetched at: ";

/// A commit message: the summary, an empty line, and the marker line with
/// the timestamp text `stamp`.
pub open spec fn ledger_text(message: Seq<char>, stamp: Seq<char>) -> Seq<char> {
    message + "\n\n"@ + FETCHED_AT_PREFIX@ + stamp
}

/// The lines of `s`: the texts between its newlines (one more than there are
/// newlines).
pub open spec fn lines(s: Seq<char>) -> Seq<Seq<char>>
    decreases s.len(),
{
    if s.len() == 0 {
        seq![seq![]]
    } else {
        let p = lines(s.drop_last());
        if s.last() == '\n' {
            p.push(seq![])
        } else {
            p.update(p.len() - 1, p.last().push(s.last()))
        }
    }
}

/// The timestamp of a marker line: the instant of the text after the prefix,
/// where the line starts with the prefix and that text is RFC 3339.
pub open spec fn line_stamp(line: Seq<char>) -> Option<Timestamp> {
    let n = FETCHED_AT_PREFIX@.len();
    if line.len() >= n && line.take(n as int) == FETCHED_AT_PREFIX@ {
        parsed_instant(line.skip(n as int))
    } else {
        None
    }
}

/// The timestamp of the last line of `ls` that is a readable marker line.
pub open spec fn last_stamp(ls: Seq<Seq<char>>) -> Option<Timestamp>
    decreases ls.len(),
{
    if ls.len() == 0 {
        None
    } else {
        match line_stamp(ls.last()) {
            Some(t) => Some(t),
            None => last_stamp(ls.drop_last()),
        }
    }
}

/// The timestamp recorded in one commit message.
pub open spec fn message_stamp(message: Seq<char>) -> Option<Timestamp> {
    last_stamp(lines(message))
}

/// The timestamp recorded in the newest commit message (of `history`, newest
/// first) that records one.
pub open spec fn recovered_stamp(history: Seq<Seq<char>>) -> Option<Timestamp>
    decreases history.len(),
{
    if history.len() == 0 {
        None
    } else {
        match message_stamp(history[0]) {
            Some(t) => Some(t),
            None => recovered_stamp(history.drop_first()),
        }
    }
}

pub proof fn lemma_lines_nonempty(s: Seq<char>)
    ensures
        lines(s).len() >= 1,
    decreases s.len(),
{
    if s.len() > 0 {
        lemma_lines_nonempty(s.drop_last());
    }
}

/// Text without a newline extends the last line.
pub proof fn lemma_lines_append(x: Seq<char>, b: Seq<char>)
    requires
        forall|i: int| 0 <= i < b.len() ==> b[i] != '\n',
    ensures
        lines(x).len() >= 1,
        lines(x + b) == lines(x).update(lines(x).len() - 1, lines(x).last() + b),
    decreases b.len(),
{
    lemma_lines_nonempty(x);
    if b.len() == 0 {
        assert(x + b =~= x);
        assert(lines(x).last() + b =~= lines(x).last());
        assert(lines(x).update(lines(x).len() - 1, lines(x).last()) =~= lines(x));
    } else {
        let b0 = b.drop_last();
        lemma_lines_append(x, b0);
        assert((x + b).drop_last() =~= x + b0);
        assert((x + b).last() == b.last());
        assert((lines(x).last() + b0).push(b.last()) =~= lines(x).last() + b);
        assert(lines(x + b) =~= lines(x).update(lines(x).len() - 1, lines(x).last() + b));
    }
}

/// Writing the ledger with the timestamp text `stamp`, and recovering it
/// from a history that holds only that commit, gives back the instant that
/// `stamp` denotes, whatever the summary above the marker says.
pub proof fn lemma_ledger_round_trip(message: Seq<char>, stamp: Seq<char>)
    requires
        forall|i: int| 0 <= i < stamp.len() ==> stamp[i] != '\n',
        parsed_instant(stamp) is Some,
    ensures
        recovered_stamp(seq![ledger_text(message, stamp)]) == parsed_instant(stamp),
{
    reveal_strlit("\n\n");
    reveal_strlit("\n");
    reveal_strlit("Fetched at: ");
    let p = FETCHED_AT_PREFIX@;
    let head = message + "\n\n"@;
    let line = p + stamp;
    assert(ledger_text(message, stamp) =~= head + line);
    assert(head.drop_last() =~= message + "\n"@);
    assert(head.last() == '\n');
    lemma_lines_nonempty(message + "\n"@);
    assert(lines(head).last() =~= Seq::<char>::empty());
    assert forall|i: int| 0 <= i < line.len() implies line[i] != '\n' by {
        if i >= p.len() {
            assert(line[i] == stamp[i - p.len()]);
        }
    }
    lemma_lines_append(head, line);
    assert(lines(head).last() + line =~= line);
    assert(lines(head + line).last() == line);
    assert(line.take(p.len() as int) =~= p);
    assert(line.skip(p.len() as int) =~= stamp);
    assert(line_stamp(line) == parsed_instant(stamp));
    let h = seq![ledger_text(message, stamp)];
    assert(h[0] == head + line);
}

/// The commit message for `message` with the timestamp text `stamp`.
pub fn ledger_message(message: &str, stamp: &str) -> (r: String)
    ensures
        r@ == ledger_text(message@, stamp@),
{
    let mut out = String::from_str(message);
    out.append("\n\n");
    out.append(FETCHED_AT_PREFIX);
    out.append(stamp);
    out
}

/// The commit message for `message`, recording the instant `now_secs`
/// seconds after the epoch; `None` where that instant has no text.  From
/// 1970 to the end of year 9999, recovering the ledger from this message
/// gives back that instant, to the second.
pub fn commit_message(message: &str, now_secs: i64) -> (r: Option<String>)
    ensures
        match utc_text(now_secs as int, STAMP_PATTERN@) {
            Some(t) => r matches Some(m) && m@ == ledger_text(message@, t),
            None => r is None,
        },
        0 <= now_secs <= LAST_STAMP_SECS ==> (r matches Some(m) && recovered_stamp(seq![m@])
            == Some(Timestamp { secs: now_secs, nanos: 0 })),
{
    match format_timestamp(now_secs) {
        Some(t) => {
            proof {
                if 0 <= now_secs <= LAST_STAMP_SECS {
                    lemma_ledger_round_trip(message@, t@);
                }
            }
            Some(ledger_message(message, t.as_str()))
        },
        None => None,
    }
}

/// Splits `s` at its newlines.
pub fn split_lines(s: &str) -> (r: Vec<String>)
    ensures
        views(r@) == lines(s@),
{
    let n = s.unicode_len();
    let mut done: Vec<String> = Vec::new();
    let mut cur = String::new();
    let mut i: usize = 0;
    assert(s@.take(0) =~= Seq::<char>::empty());
    assert(views(done@).push(cur@) =~= lines(s@.take(0)));
    while i < n
        invariant
            n == s@.len(),
            i <= n,
            views(done@).push(cur@) == lines(s@.take(i as int)),
        decreases n - i,
    {
        let c = s.get_char(i);
        let ghost t = s@.take(i + 1);
        assert(t.drop_last() =~= s@.take(i as int));
        assert(t.last() == c);
        let ghost before = views(done@);
        if c == '\n' {
            let line = cur;
            done.push(line);
            cur = String::new();
            assert(views(done@).push(cur@) =~= before.push(line@).push(seq![]));
        } else {
            let ghost old_cur = cur@;
            push_char(&mut cur, c);
            assert(views(done@).push(cur@) =~= before.push(old_cur).update(before.len() as int, old_cur.push(c)));
        }
        i = i + 1;
    }
    assert(s@.take(n as int) =~= s@);
    done.push(cur);
    assert(views(done@) =~= lines(s@));
    done
}

/// The timestamp of a marker line, if `line` is one and its timestamp reads.
pub fn marker_stamp(line: &str) -> (r: Option<Timestamp>)
    ensures
        r == line_stamp(line@),
{
    let p = FETCHED_AT_PREFIX;
    let pn = p.unicode_len();
    let n = line.unicode_len();
    if n < pn {
        return None;
    }
    let mut i: usize = 0;
    while i < pn
        invariant
            pn == p@.len(),
            p@ == FETCHED_AT_PREFIX@,
            pn <= n,
            n == line@.len(),
            i <= pn,
            forall|k: int| 0 <= k < i ==> line@[k] == p@[k],
        decreases pn - i,
    {
        if line.get_char(i) != p.get_char(i) {
            assert(line@.take(pn as int)[i as int] != p@[i as int]);
            return None;
        }
        i = i + 1;
    }
    assert(line@.take(pn as int) =~= p@);
    parse_timestamp(line.substring_char(pn, n))
}

/// The timestamp recorded in a commit message: that of its last readable
/// marker line.
pub fn stamp_of_message(message: &str) -> (r: Option<Timestamp>)
    ensures
        r == message_stamp(message@),
{
    let ls = split_lines(message);
    let mut k: usize = ls.len();
    assert(views(ls@).take(k as int) =~= views(ls@));
    while k > 0
        invariant
            k <= ls@.len(),
            views(ls@) == lines(message@),
            last_stamp(lines(message@)) == last_stamp(views(ls@).take(k as int)),
        decreases k,
    {
        let ghost pre = views(ls@).take(k as int);
        assert(pre.drop_last() =~= views(ls@).take(k - 1));
        assert(pre.last() == ls@[k - 1]@);
        match marker_stamp(ls[k - 1].as_str()) {
            Some(t) => {
                return Some(t);
            },
            None => {},
        }
        k = k - 1;
    }
    None
}

/// Recovers the ledger from the archive's history, given as commit messages
/// newest first: the timestamp of the newest message that records one.
/// `None` means the archive's synchronisation state is unknown.
pub fn recover_ledger(history: &Vec<String>) -> (r: Option<Timestamp>)
    ensures
        r == recovered_stamp(views(history@)),
{
    let n = history.len();
    let mut i: usize = 0;
    assert(views(history@).skip(0) =~= views(history@));
    while i < n
        invariant
            n == history@.len(),
            i <= n,
            recovered_stamp(views(history@)) == recovered_stamp(views(history@).skip(i as int)),
        decreases n - i,
    {
        let ghost rest = views(history@).skip(i as int);
        assert(rest.drop_first() =~= views(history@).skip(i + 1));
        assert(rest[0] == history@[i as int]@);
        match stamp_of_message(history[i].as_str()) {
            Some(t) => {
                return Some(t);
            },
            None => {},
        }
        i = i + 1;
    }
    None
}

} // verus!
