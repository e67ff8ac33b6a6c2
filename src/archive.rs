//! Writing a content unit into the archive: the directory of the unit is
//! removed and written afresh, so no file of an earlier fetch survives.
use crate::text::lower_of;
use crate::unit::{file_name_of, TitleAndContent};
use vstd::prelude::*;

verus! {

/// One change to the archive's working tree, relative to its content root.
pub enum FileOp {
    /// Remove the unit's directory with all it holds, if it exists.
    RemoveDir { slug: String },
    /// Create the unit's directory, if it does not exist.
    CreateDir { slug: String },
    /// Create or truncate a file in the unit's directory and write `content`.
    WriteFile { slug: String, name: String, content: String },
}

/// The content root as the archive holds it: each unit's directory name
/// mapped to its files, each file name mapped to its text.
pub type ArchiveModel = Map<Seq<char>, Map<Seq<char>, Seq<char>>>;

/// The files of a unit's directory; none where it does not exist.
pub open spec fn dir_files(a: ArchiveModel, slug: Seq<char>) -> Map<Seq<char>, Seq<char>> {
    if a.contains_key(slug) {
        a[slug]
    } else {
        Map::empty()
    }
}

/// The archive after one change.
pub open spec fn apply_op(a: ArchiveModel, op: FileOp) -> ArchiveModel {
    match op {
        FileOp::RemoveDir { slug } => a.remove(slug@),
        FileOp::CreateDir { slug } => if a.contains_key(slug@) {
            a
        } else {
            a.insert(slug@, Map::empty())
        },
        FileOp::WriteFile { slug, name, content } => a.insert(
            slug@,
            dir_files(a, slug@).insert(name@, content@),
        ),
    }
}

/// The archive after the changes `ops`, in order.
pub open spec fn apply_ops(a: ArchiveModel, ops: Seq<FileOp>) -> ArchiveModel
    decreases ops.len(),
{
    if ops.len() == 0 {
        a
    } else {
        apply_op(apply_ops(a, ops.drop_last()), ops.last())
    }
}

/// The files that hold `pages`: one per page, named after its title; where
/// two titles give one name, the later page's text is kept.
pub open spec fn page_files(pages: Seq<TitleAndContent>) -> Map<Seq<char>, Seq<char>>
    decreases pages.len(),
{
    if pages.len() == 0 {
        Map::empty()
    } else {
        page_files(pages.drop_last()).insert(
            file_name_of(lower_of(pages.last().title@)),
            pages.last().content@,
        )
    }
}

/// The archive once the unit `slug` has been replaced by `pages`.
pub open spec fn replaced(a: ArchiveModel, slug: Seq<char>, pages: Seq<TitleAndContent>) -> ArchiveModel {
    a.insert(slug, page_files(pages))
}

/// The changes that replace the unit `slug` by `pages`: remove its
/// directory, create it again, and write one file per page.  Whatever the
/// archive held before, it then holds exactly those files for the unit and
/// is unchanged elsewhere.
pub fn replace_unit_ops(slug: &str, pages: &Vec<TitleAndContent>) -> (r: Vec<FileOp>)
    ensures
        forall|a: ArchiveModel| #[trigger] apply_ops(a, r@) == replaced(a, slug@, pages@),
{
    let mut ops: Vec<FileOp> = Vec::new();
    ops.push(FileOp::RemoveDir { slug: String::from_str(slug) });
    ops.push(FileOp::CreateDir { slug: String::from_str(slug) });
    assert forall|a: ArchiveModel| #[trigger] apply_ops(a, ops@) == replaced(a, slug@, pages@.take(0)) by {
        let first = ops@.drop_last();
        assert(first.drop_last() =~= Seq::<FileOp>::empty());
        assert(apply_ops(a, first.drop_last()) == a);
        assert(apply_ops(a, first) == a.remove(slug@));
        assert(!a.remove(slug@).contains_key(slug@));
        assert(page_files(pages@.take(0)) == Map::<Seq<char>, Seq<char>>::empty());
        assert(a.remove(slug@).insert(slug@, Map::empty()) =~= a.insert(slug@, Map::empty()));
    }
    let n = pages.len();
    let mut i: usize = 0;
    while i < n
        invariant
            n == pages@.len(),
            i <= n,
            forall|a: ArchiveModel| #[trigger] apply_ops(a, ops@) == replaced(a, slug@, pages@.take(i as int)),
        decreases n - i,
    {
        let page = &pages[i];
        let name = page.file_name();
        let ghost before = ops@;
        ops.push(
            FileOp::WriteFile {
                slug: String::from_str(slug),
                name,
                content: page.content.clone(),
            },
        );
        assert(pages@.take(i + 1).drop_last() =~= pages@.take(i as int));
        assert forall|a: ArchiveModel| #[trigger] apply_ops(a, ops@) == replaced(a, slug@, pages@.take(i + 1)) by {
            assert(ops@.drop_last() =~= before);
            let prev = apply_ops(a, before);
            assert(prev == replaced(a, slug@, pages@.take(i as int)));
            assert(dir_files(prev, slug@) == page_files(pages@.take(i as int)));
            assert(prev.insert(slug@, page_files(pages@.take(i + 1))) =~= a.insert(slug@, page_files(pages@.take(i + 1))));
        }
        i = i + 1;
    }
    assert(pages@.take(n as int) =~= pages@);
    ops
}

/// Replacing a unit twice in succession with the same pages leaves the
/// archive as replacing it once does.
pub proof fn lemma_replace_idempotent(a: ArchiveModel, slug: Seq<char>, pages: Seq<TitleAndContent>)
    ensures
        replaced(replaced(a, slug, pages), slug, pages) == replaced(a, slug, pages),
{
    assert(replaced(replaced(a, slug, pages), slug, pages) =~= replaced(a, slug, pages));
}

} // verus!
