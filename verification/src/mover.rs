//! The moves of a batch: what is to be moved where, what each move came to,
//! and the report of a run.

use crate::error::{AppError, AppErrorView, MoveCause};
use crate::image::{batch_view, Image, ImageView, Status};
use crate::collision::Key;
use crate::date::{date_text, zero_padded, Ymd};
use crate::path::{
    file_name_from, full_name, has_no, is_plain_directory, is_split, join, join_path,
    lemma_join_injective, lemma_parts_are_split, lemma_split_with_tail,
};
use crate::sorter::{disambiguated, lemma_disambiguated_targets_are_own, lemma_renamed_shape};
use crate::text::{decimal, is_digit, lemma_decimal_digits};
use crate::scan::{notice_views, paths_of, text_views, Skipped};
use vstd::prelude::*;

verus! {

/// One move that the batch asks for.
#[derive(Debug, PartialEq, Eq)]
pub struct PlannedMove {
    /// The place of the record in the batch.
    pub index: usize,
    /// The path of the file.
    pub source: String,
    /// The directory that must exist before the move.
    pub directory: String,
    /// The path that the file gets.
    pub target: String,
}

/// A `PlannedMove` with its texts as sequences of characters.
pub struct MoveView {
    pub index: int,
    pub source: Seq<char>,
    pub directory: Seq<char>,
    pub target: Seq<char>,
}

impl View for PlannedMove {
    type V = MoveView;

    open spec fn view(&self) -> MoveView {
        MoveView {
            index: self.index as int,
            source: self.source@,
            directory: self.directory@,
            target: self.target@,
        }
    }
}

/// What a move came to.
#[derive(Clone, Copy, Debug, PartialEq, Eq, Structural)]
pub enum MoveOutcome {
    /// The file stands at its target.
    Done,
    /// The file stands where it stood.
    Failed(MoveCause),
}

/// The report of a run.
#[derive(Debug, PartialEq, Eq)]
pub struct BatchReport {
    /// The number of files that were moved.
    pub moved: usize,
    /// The files that failed, each with the reason.
    pub failed: Vec<(String, AppError)>,
    /// The directories that were passed over.
    pub skipped: Vec<String>,
}

impl ImageView {
    /// The path that the record's file gets.
    pub open spec fn target_text(self) -> Seq<char> {
        join(self.target_path, full_name(self.target_filename->0, self.target_filetype))
    }

    /// The move that the record asks for, as record `index` of its batch.
    pub open spec fn planned_move(self, index: int) -> MoveView {
        MoveView {
            index,
            source: self.source_path,
            directory: self.target_path,
            target: self.target_text(),
        }
    }

    /// The record after its move. Only a record that takes part is touched,
    /// and none in a dry run: it is moved, or it failed for the cause that
    /// the move gave.
    pub open spec fn moved(self, dry_run: bool, outcome: MoveOutcome) -> ImageView {
        if dry_run || !self.takes_part() {
            self
        } else {
            match outcome {
                MoveOutcome::Done => ImageView { status: Status::Moved, ..self },
                MoveOutcome::Failed(cause) => ImageView {
                    status: Status::Failed,
                    error: Some(AppErrorView::MoveIoError(cause)),
                    ..self
                },
            }
        }
    }
}

/// The moves that a batch asks for: one for each record that takes part, in
/// the order of the batch.
pub open spec fn moves_of(files: Seq<ImageView>) -> Seq<MoveView>
    decreases files.len(),
{
    if files.len() == 0 {
        Seq::empty()
    } else {
        let before = moves_of(files.drop_last());
        if files.last().takes_part() {
            before.push(files.last().planned_move(files.len() - 1))
        } else {
            before
        }
    }
}

/// The batch after its moves, where `outcomes` holds what the move of each
/// record came to.
pub open spec fn moved_batch(files: Seq<ImageView>, dry_run: bool, outcomes: Seq<MoveOutcome>)
    -> Seq<ImageView> {
    Seq::new(files.len(), |i: int| files[i].moved(dry_run, outcomes[i]))
}

/// The number of records that were moved.
pub open spec fn count_moved(files: Seq<ImageView>) -> nat
    decreases files.len(),
{
    if files.len() == 0 {
        0
    } else if files.last().status is Moved {
        count_moved(files.drop_last()) + 1
    } else {
        count_moved(files.drop_last())
    }
}

/// The records that failed, each with its path and the reason, in the order
/// of the batch.
pub open spec fn failures_of(files: Seq<ImageView>) -> Seq<(Seq<char>, AppErrorView)>
    decreases files.len(),
{
    if files.len() == 0 {
        Seq::empty()
    } else {
        let before = failures_of(files.drop_last());
        if files.last().status is Failed && files.last().error is Some {
            before.push((files.last().source_path, files.last().error->0))
        } else {
            before
        }
    }
}

/// The failures of a list, as mathematics sees them.
pub open spec fn failure_views(failed: Seq<(String, AppError)>) -> Seq<(Seq<char>, AppErrorView)> {
    Seq::new(failed.len(), |i: int| (failed[i].0@, failed[i].1@))
}

/// The moves of a list, as mathematics sees them.
pub open spec fn move_views(moves: Seq<PlannedMove>) -> Seq<MoveView> {
    Seq::new(moves.len(), |i: int| moves[i]@)
}

/// A dry run leaves every record as it is, whatever the outcomes say.
pub proof fn lemma_dry_run_changes_nothing(files: Seq<ImageView>, outcomes: Seq<MoveOutcome>)
    ensures
        moved_batch(files, true, outcomes) == files,
{
    assert(moved_batch(files, true, outcomes) =~= files);
}

/// The moves that the batch asks for, in the order of the batch: in a dry
/// run the preview, else what is to be carried out.
pub fn planned_moves(files: &Vec<Image>) -> (r: Vec<PlannedMove>)
    ensures
        move_views(r@) == moves_of(batch_view(files@)),
{
    let ghost all = batch_view(files@);
    let mut moves: Vec<PlannedMove> = Vec::new();
    let mut i: usize = 0;
    assert(all.take(0) =~= Seq::<ImageView>::empty());
    while i < files.len()
        invariant
            i <= files.len(),
            all == batch_view(files@),
            move_views(moves@) == moves_of(all.take(i as int)),
        decreases files.len() - i,
    {
        let image = &files[i];
        let ghost planned = move_views(moves@);
        assert(all.take(i as int + 1).drop_last() =~= all.take(i as int));
        assert(all.take(i as int + 1).last() == image@);
        if image.status == Status::Resolved || image.status == Status::Collided {
            match &image.target_filename {
                Some(stem) => {
                    let name = file_name_from(stem.as_str(), &image.target_filetype);
                    let planned_move = PlannedMove {
                        index: i,
                        source: image.source_path.clone(),
                        directory: image.target_path.clone(),
                        target: join_path(image.target_path.as_str(), name.as_str()),
                    };
                    assert(planned_move@ == image@.planned_move(i as int));
                    moves.push(planned_move);
                    assert(move_views(moves@) =~= planned.push(image@.planned_move(i as int)));
                },
                None => {},
            }
        }
        i = i + 1;
    }
    assert(all.take(i as int) =~= all);
    moves
}

impl Image {
    /// Writes what the move of this record came to into the record.
    pub fn finish_move(&mut self, dry_run: bool, outcome: MoveOutcome)
        ensures
            final(self)@ == old(self)@.moved(dry_run, outcome),
    {
        let takes_part = (self.status == Status::Resolved || self.status == Status::Collided)
            && self.target_filename.is_some();
        if !dry_run && takes_part {
            match outcome {
                MoveOutcome::Done => {
                    self.status = Status::Moved;
                },
                MoveOutcome::Failed(cause) => {
                    self.status = Status::Failed;
                    self.error = Some(AppError::MoveIoError(cause));
                },
            }
        }
    }
}

/// Writes what each move came to into the batch. `outcomes` holds, for each
/// record in order, what its move came to; in a dry run nothing was moved,
/// and nothing is written.
pub fn move_to_target(files: &mut Vec<Image>, dry_run: bool, outcomes: &Vec<MoveOutcome>)
    requires
        dry_run || outcomes.len() == old(files).len(),
    ensures
        batch_view(final(files)@) == moved_batch(batch_view(old(files)@), dry_run, outcomes@),
{
    let ghost before = batch_view(files@);
    if dry_run {
        proof {
            lemma_dry_run_changes_nothing(before, outcomes@);
        }
        return ;
    }
    let mut i: usize = 0;
    while i < files.len()
        invariant
            i <= files.len(),
            !dry_run,
            files.len() == before.len(),
            outcomes.len() == before.len(),
            forall|j: int| 0 <= j < i ==> files@[j]@ == before[j].moved(dry_run, outcomes@[j]),
            forall|j: int| i <= j < files.len() ==> files@[j]@ == before[j],
        decreases files.len() - i,
    {
        files[i].finish_move(dry_run, outcomes[i]);
        i = i + 1;
    }
    assert(batch_view(files@) =~= moved_batch(before, dry_run, outcomes@));
}

/// The report of a run: how many files were moved, which failed and why, and
/// which directories were passed over.
pub fn batch_report(files: &Vec<Image>, skipped: &Vec<Skipped>) -> (r: BatchReport)
    ensures
        r.moved == count_moved(batch_view(files@)),
        failure_views(r.failed@) == failures_of(batch_view(files@)),
        text_views(r.skipped@) == paths_of(notice_views(skipped@)),
{
    let ghost all = batch_view(files@);
    let mut moved: usize = 0;
    let mut failed: Vec<(String, AppError)> = Vec::new();
    let mut i: usize = 0;
    assert(all.take(0) =~= Seq::<ImageView>::empty());
    while i < files.len()
        invariant
            i <= files.len(),
            all == batch_view(files@),
            moved == count_moved(all.take(i as int)),
            moved <= i,
            failure_views(failed@) == failures_of(all.take(i as int)),
        decreases files.len() - i,
    {
        let image = &files[i];
        let ghost listed = failure_views(failed@);
        assert(all.take(i as int + 1).drop_last() =~= all.take(i as int));
        assert(all.take(i as int + 1).last() == image@);
        if image.status == Status::Moved {
            moved = moved + 1;
        }
        if image.status == Status::Failed {
            match &image.error {
                Some(e) => {
                    failed.push((image.source_path.clone(), e.clone()));
                    assert(failure_views(failed@) =~= listed.push((image.source_path@, e@)));
                },
                None => {},
            }
        }
        i = i + 1;
    }
    assert(all.take(i as int) =~= all);
    let mut notices: Vec<String> = Vec::new();
    let mut k: usize = 0;
    while k < skipped.len()
        invariant
            k <= skipped.len(),
            notices.len() == k,
            forall|j: int| 0 <= j < k ==> notices@[j]@ == skipped@[j].path@,
        decreases skipped.len() - k,
    {
        notices.push(skipped[k].path.clone());
        k = k + 1;
    }
    assert(text_views(notices@) =~= paths_of(notice_views(skipped@)));
    BatchReport { moved, failed, skipped: notices }
}

impl ImageView {
    /// Whether the target name of the record is written plainly: stem and
    /// extension hold no separator, and they are what the name parts into.
    pub open spec fn has_plain_target(self) -> bool {
        &&& self.target_filename is Some
        &&& has_no(self.target_filename->0, '/')
        &&& self.target_filetype matches Some(e) ==> has_no(e, '/')
        &&& is_split(self.target_filename->0, self.target_filetype)
    }
}

/// A numeral holds neither a dot nor a separator.
proof fn lemma_counter_is_plain(n: nat)
    ensures
        has_no(seq!['_'] + decimal(n), '.'),
        has_no(seq!['_'] + decimal(n), '/'),
{
    lemma_decimal_digits(n);
    let tail = seq!['_'] + decimal(n);
    assert forall|i: int| 0 <= i < tail.len() implies tail[i] != '.' && tail[i] != '/' by {
        if i > 0 {
            assert(tail[i] == decimal(n)[i - 1]);
            assert(is_digit(decimal(n)[i - 1]));
        }
    }
}

/// Planning gives a record a target name that is written plainly, where the
/// name of its file holds no separator.
pub proof fn lemma_planned_target_is_plain(record: ImageView, target_dir: Seq<char>, sub_dir: bool)
    requires
        record.status is Pending,
        record.resolved_date is Some,
        has_no(record.source_filename, '/'),
    ensures
        record.planned(target_dir, sub_dir).has_plain_target(),
{
    lemma_parts_are_split(record.source_filename);
}

/// A directory named after a date is written without a separator at its end.
pub proof fn lemma_dated_directory_is_plain(target_dir: Seq<char>, date: Ymd)
    ensures
        is_plain_directory(join(target_dir, date_text(date))),
{
    let day = zero_padded(date.day as nat, 2);
    lemma_decimal_digits(date.day as nat);
    let numeral = decimal(date.day as nat);
    assert(day.len() >= 1);
    assert(day.last() == numeral.last());
    assert(is_digit(numeral[numeral.len() - 1]));
    let text = date_text(date);
    assert(text.len() >= 1);
    assert(text.last() == day.last());
    let path = join(target_dir, text);
    assert(path.last() == text.last());
}

/// A counter behind its stem leaves a target name written plainly.
pub proof fn lemma_counter_keeps_target_plain(record: ImageView, n: nat)
    requires
        record.has_plain_target(),
    ensures
        record.with_counter(n).has_plain_target(),
{
    lemma_counter_is_plain(n);
    let stem = record.target_filename->0;
    let tail = seq!['_'] + decimal(n);
    lemma_split_with_tail(stem, record.target_filetype, tail);
    assert(stem + seq!['_'] + decimal(n) =~= stem + tail);
    assert forall|i: int| 0 <= i < (stem + tail).len() implies (stem + tail)[i] != '/' by {
        if i >= stem.len() {
            assert((stem + tail)[i] == tail[i - stem.len()]);
        }
    }
}

/// Two records whose targets differ get different paths, where their target
/// names are written plainly and their directories are the same or both
/// written without a separator at the end.
pub proof fn lemma_different_targets_have_different_paths(a: ImageView, b: ImageView)
    requires
        a.has_plain_target(),
        b.has_plain_target(),
        a.target_path == b.target_path || (is_plain_directory(a.target_path) && is_plain_directory(
            b.target_path,
        )),
        a.target_path != b.target_path || a.target_filename != b.target_filename
            || a.target_filetype != b.target_filetype,
    ensures
        a.target_text() != b.target_text(),
{
    let name_a = full_name(a.target_filename->0, a.target_filetype);
    let name_b = full_name(b.target_filename->0, b.target_filetype);
    assert(has_no(name_a, '/'));
    assert(has_no(name_b, '/'));
    if a.target_text() == b.target_text() {
        lemma_join_injective(a.target_path, name_a, b.target_path, name_b);
    }
}

/// After the collisions are resolved, no two records that are to be moved go
/// to the same path: no move of the batch overwrites what another move of
/// the batch put there. It holds of a batch whose target names are written
/// plainly, as planning writes them.
pub proof fn lemma_moves_have_own_paths(files: Seq<ImageView>, existing: Seq<Key>, i: int, j: int)
    requires
        0 <= i < files.len(),
        0 <= j < files.len(),
        i != j,
        forall|k: int| 0 <= k < files.len() && (#[trigger] files[k]).takes_part() ==> files[k]
            .has_plain_target(),
        files[i].target_path == files[j].target_path || (is_plain_directory(files[i].target_path)
            && is_plain_directory(files[j].target_path)),
        disambiguated(files, existing)[i].takes_part(),
        disambiguated(files, existing)[j].takes_part(),
    ensures
        disambiguated(files, existing)[i].target_text() != disambiguated(
            files,
            existing,
        )[j].target_text(),
{
    let after = disambiguated(files, existing);
    lemma_disambiguated_targets_are_own(files, existing);
    assert(after[i].claim() != after[j].claim());
    assert(files[i].takes_part() && files[j].takes_part());
    if after[i] != files[i] {
        lemma_renamed_shape(files, existing, i);
        let n = choose|n: nat| n >= 1 && after[i] == #[trigger] files[i].with_counter(n);
        lemma_counter_keeps_target_plain(files[i], n);
    }
    if after[j] != files[j] {
        lemma_renamed_shape(files, existing, j);
        let n = choose|n: nat| n >= 1 && after[j] == #[trigger] files[j].with_counter(n);
        lemma_counter_keeps_target_plain(files[j], n);
    }
    lemma_different_targets_have_different_paths(after[i], after[j]);
}

} // verus!
