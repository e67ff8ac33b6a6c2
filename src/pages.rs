//! The pages of a content unit: which to extract where, and how a page's
//! text is put together.
use crate::error::EngineError;
use crate::text::{join, views};
use vstd::prelude::*;

verus! {

/// One entry of a unit's table of contents: how many links it holds, and the
/// address of the first, where it has one and the address could be read.
pub struct TocEntry {
    pub link_count: usize,
    pub first_href: Option<String>,
}

/// What to extract for a unit.
pub struct PagePlan {
    /// How many times to extract the unit's own page, before any link is
    /// followed: once for each table-of-contents entry without a link.
    pub current_pages: usize,
    /// The pages to open and extract next, in table-of-contents order.
    pub links: Vec<String>,
    /// How many entries held more than one link; only their first was taken.
    pub ambiguous: usize,
}

/// The number of entries of `toc` that hold no link.
pub open spec fn count_linkless(toc: Seq<TocEntry>) -> nat
    decreases toc.len(),
{
    if toc.len() == 0 {
        0
    } else {
        count_linkless(toc.drop_last()) + if toc.last().link_count == 0 {
            1nat
        } else {
            0nat
        }
    }
}

/// The number of entries of `toc` that hold more than one link.
pub open spec fn count_ambiguous(toc: Seq<TocEntry>) -> nat
    decreases toc.len(),
{
    if toc.len() == 0 {
        0
    } else {
        count_ambiguous(toc.drop_last()) + if toc.last().link_count > 1 {
            1nat
        } else {
            0nat
        }
    }
}

/// The address of an entry's first link.
pub open spec fn first_href_of(e: TocEntry) -> Seq<char> {
    match e.first_href {
        Some(h) => h@,
        None => seq![],
    }
}

/// The first link of each entry that holds one, in order.
pub open spec fn links_to_follow(toc: Seq<TocEntry>) -> Seq<Seq<char>>
    decreases toc.len(),
{
    if toc.len() == 0 {
        seq![]
    } else if toc.last().link_count > 0 {
        links_to_follow(toc.drop_last()).push(first_href_of(toc.last()))
    } else {
        links_to_follow(toc.drop_last())
    }
}

/// Every entry with a link has the address of its first one.
pub open spec fn hrefs_known(toc: Seq<TocEntry>) -> bool {
    forall|i: int| 0 <= i < toc.len() && #[trigger] toc[i].link_count > 0 ==> toc[i].first_href is Some
}

/// Classifies the entries of a unit's table of contents.  An entry without a
/// link stands for the page already open; one with a link is followed
/// (where it holds several, the first is taken and the entry counted as
/// ambiguous).  Fails where a link has no address.
pub fn plan_pages(toc: &Vec<TocEntry>) -> (r: Result<PagePlan, EngineError>)
    ensures
        r is Ok <==> hrefs_known(toc@),
        r matches Ok(p) ==> p.current_pages == count_linkless(toc@) && views(p.links@)
            == links_to_follow(toc@) && p.ambiguous == count_ambiguous(toc@),
        r matches Err(e) ==> e == EngineError::MissingHref,
{
    let n = toc.len();
    let mut current_pages: usize = 0;
    let mut ambiguous: usize = 0;
    let mut links: Vec<String> = Vec::new();
    let mut i: usize = 0;
    while i < n
        invariant
            n == toc@.len(),
            i <= n,
            current_pages <= i,
            ambiguous <= i,
            current_pages == count_linkless(toc@.take(i as int)),
            ambiguous == count_ambiguous(toc@.take(i as int)),
            views(links@) == links_to_follow(toc@.take(i as int)),
            forall|k: int| 0 <= k < i && #[trigger] toc@[k].link_count > 0 ==> toc@[k].first_href is Some,
        decreases n - i,
    {
        let e = &toc[i];
        assert(toc@.take(i + 1).drop_last() =~= toc@.take(i as int));
        assert(toc@.take(i + 1).last() == toc@[i as int]);
        if e.link_count == 0 {
            current_pages = current_pages + 1;
        } else {
            if e.link_count > 1 {
                ambiguous = ambiguous + 1;
            }
            match &e.first_href {
                Some(h) => {
                    links.push(h.clone());
                    assert(views(links@) =~= links_to_follow(toc@.take(i + 1)));
                },
                None => {
                    return Err(EngineError::MissingHref);
                },
            }
        }
        i = i + 1;
    }
    assert(toc@.take(n as int) =~= toc@);
    Ok(PagePlan { current_pages, links, ambiguous })
}

/// The text of a page: its content blocks in document order, separated by an
/// empty line, and a final newline.
pub fn page_body(blocks: &Vec<String>) -> (r: String)
    ensures
        r@ == join(views(blocks@), "\n\n"@) + "\n"@,
{
    let mut out = String::new();
    let n = blocks.len();
    let mut i: usize = 0;
    while i < n
        invariant
            n == blocks@.len(),
            i <= n,
            out@ == join(views(blocks@.take(i as int)), "\n\n"@),
        decreases n - i,
    {
        let ghost before = views(blocks@.take(i as int));
        assert(views(blocks@.take(i + 1)) =~= before.push(blocks@[i as int]@));
        proof {
            crate::text::lemma_join_push(before, "\n\n"@, blocks@[i as int]@);
        }
        if i > 0 {
            out.append("\n\n");
        }
        out.append(blocks[i].as_str());
        i = i + 1;
    }
    assert(blocks@.take(n as int) =~= blocks@);
    out.append("\n");
    out
}

} // verus!
