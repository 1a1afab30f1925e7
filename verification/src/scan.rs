//! Discovery: from the entries that a walk of the source tree yields to the
//! records of a batch.

use crate::error::IoCause;
use crate::image::{batch_view, Image, ImageView};
use crate::path::{is_within, within};
use vstd::prelude::*;

verus! {

/// What a walk found at a path.
#[derive(Clone, Copy, Debug, PartialEq, Eq, Structural)]
pub enum EntryKind {
    /// A file.
    File,
    /// A directory that the walk went into.
    Directory,
    /// A directory that the walk could not read; the walk went on with its
    /// siblings.
    Unreadable(IoCause),
}

/// One entry of a walk, in the order of the walk.
#[derive(Debug, PartialEq, Eq)]
pub struct WalkEntry {
    pub path: String,
    pub kind: EntryKind,
}

/// A directory that was passed over, and why it could not be read.
#[derive(Debug, PartialEq, Eq)]
pub struct Skipped {
    pub path: String,
    pub cause: IoCause,
}

/// What discovery gives: the batch, and the directories that were passed over
/// because they could not be read.
#[derive(Debug, PartialEq, Eq)]
pub struct Discovery {
    pub files: Vec<Image>,
    pub skipped: Vec<Skipped>,
}

/// Whether discovery leaves `path` out: it lies below the target directory,
/// and the target directory is not to be scanned.
pub open spec fn left_out(path: Seq<char>, target_dir: Seq<char>, include_target: bool) -> bool {
    !include_target && is_within(path, target_dir)
}

/// Whether an entry becomes a record: it is a file that is not left out.
pub open spec fn is_found(entry: WalkEntry, target_dir: Seq<char>, include_target: bool) -> bool {
    entry.kind is File && !left_out(entry.path@, target_dir, include_target)
}

/// Whether an entry becomes a notice: it is a directory that could not be
/// read and that is not left out.
pub open spec fn is_skipped(entry: WalkEntry, target_dir: Seq<char>, include_target: bool) -> bool {
    entry.kind is Unreadable && !left_out(entry.path@, target_dir, include_target)
}

/// The batch that discovery makes of the entries of a walk: one pending
/// record for each file that is not left out, in the order of the walk.
pub open spec fn discovered(entries: Seq<WalkEntry>, target_dir: Seq<char>, include_target: bool)
    -> Seq<ImageView>
    decreases entries.len(),
{
    if entries.len() == 0 {
        Seq::empty()
    } else {
        let before = discovered(entries.drop_last(), target_dir, include_target);
        if is_found(entries.last(), target_dir, include_target) {
            before.push(ImageView::discovered(entries.last().path@))
        } else {
            before
        }
    }
}

/// Why an entry could not be read, where it could not.
pub open spec fn cause_of(kind: EntryKind) -> IoCause {
    match kind {
        EntryKind::Unreadable(cause) => cause,
        _ => IoCause::Other,
    }
}

/// The directories that discovery passes over, each with the reason, in the
/// order of the walk.
pub open spec fn passed_over(entries: Seq<WalkEntry>, target_dir: Seq<char>, include_target: bool)
    -> Seq<(Seq<char>, IoCause)>
    decreases entries.len(),
{
    if entries.len() == 0 {
        Seq::empty()
    } else {
        let before = passed_over(entries.drop_last(), target_dir, include_target);
        if is_skipped(entries.last(), target_dir, include_target) {
            before.push((entries.last().path@, cause_of(entries.last().kind)))
        } else {
            before
        }
    }
}

/// The notices of a list, as mathematics sees them.
pub open spec fn notice_views(notices: Seq<Skipped>) -> Seq<(Seq<char>, IoCause)> {
    Seq::new(notices.len(), |i: int| (notices[i].path@, notices[i].cause))
}

/// The paths of a list of notices.
pub open spec fn paths_of(notices: Seq<(Seq<char>, IoCause)>) -> Seq<Seq<char>> {
    Seq::new(notices.len(), |i: int| notices[i].0)
}

/// The number of entries that `wanted` holds of.
pub open spec fn count_entries(entries: Seq<WalkEntry>, wanted: spec_fn(WalkEntry) -> bool) -> nat
    decreases entries.len(),
{
    if entries.len() == 0 {
        0
    } else if wanted(entries.last()) {
        count_entries(entries.drop_last(), wanted) + 1
    } else {
        count_entries(entries.drop_last(), wanted)
    }
}

/// The texts of a list, as sequences of characters.
pub open spec fn text_views(texts: Seq<String>) -> Seq<Seq<char>> {
    Seq::new(texts.len(), |i: int| texts[i]@)
}

/// A directory that cannot be read costs no record: every file that is not
/// left out becomes a record, every unreadable directory that is not left out
/// becomes a notice, and nothing else comes of a walk.
pub proof fn lemma_scan_is_resilient(
    entries: Seq<WalkEntry>,
    target_dir: Seq<char>,
    include_target: bool,
)
    ensures
        discovered(entries, target_dir, include_target).len() == count_entries(
            entries,
            |e: WalkEntry| is_found(e, target_dir, include_target),
        ),
        passed_over(entries, target_dir, include_target).len() == count_entries(
            entries,
            |e: WalkEntry| is_skipped(e, target_dir, include_target),
        ),
        forall|i: int|
            0 <= i < discovered(entries, target_dir, include_target).len() ==> (
            #[trigger] discovered(entries, target_dir, include_target)[i]).status is Pending,
    decreases entries.len(),
{
    if entries.len() > 0 {
        lemma_scan_is_resilient(entries.drop_last(), target_dir, include_target);
    }
}

/// Builds the batch from the entries of a walk of the source tree. A file
/// becomes a pending record, a directory that could not be read becomes a
/// notice with the reason, and what lies below `target_dir` is left out unless
/// `include_target` is set.
pub fn scan_dir(entries: &Vec<WalkEntry>, target_dir: &str, include_target: bool) -> (r: Discovery)
    ensures
        batch_view(r.files@) == discovered(entries@, target_dir@, include_target),
        notice_views(r.skipped@) == passed_over(entries@, target_dir@, include_target),
{
    let mut files: Vec<Image> = Vec::new();
    let mut skipped: Vec<Skipped> = Vec::new();
    let mut i: usize = 0;
    assert(entries@.take(0) =~= Seq::<WalkEntry>::empty());
    while i < entries.len()
        invariant
            i <= entries.len(),
            batch_view(files@) == discovered(entries@.take(i as int), target_dir@, include_target),
            notice_views(skipped@) == passed_over(
                entries@.take(i as int),
                target_dir@,
                include_target,
            ),
        decreases entries.len() - i,
    {
        let entry = &entries[i];
        let ghost seen = entries@.take(i as int);
        let ghost found = batch_view(files@);
        let ghost notices = notice_views(skipped@);
        assert(entries@.take(i as int + 1).drop_last() =~= seen);
        assert(entries@.take(i as int + 1).last() == *entry);
        let out = !include_target && within(entry.path.as_str(), target_dir);
        if !out {
            match entry.kind {
                EntryKind::File => {
                    files.push(Image::new(entry.path.clone()));
                    assert(batch_view(files@) =~= found.push(ImageView::discovered(entry.path@)));
                },
                EntryKind::Unreadable(cause) => {
                    skipped.push(Skipped { path: entry.path.clone(), cause });
                    assert(notice_views(skipped@) =~= notices.push((entry.path@, cause)));
                },
                EntryKind::Directory => {},
            }
        }
        i = i + 1;
    }
    assert(entries@.take(i as int) =~= entries@);
    Discovery { files, skipped }
}

} // verus!
