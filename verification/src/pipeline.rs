//! One batch on its way through the stages, each of which runs over the
//! whole batch before the next begins.

use crate::collision::{target_views, Key, Target};
use crate::image::{batch_view, Image, ImageView};
use crate::mover::{
    batch_report, count_moved, failure_views, failures_of, move_to_target, move_views, moved_batch,
    moves_of, planned_moves, BatchReport, MoveOutcome, PlannedMove,
};
use crate::scan::{
    discovered, notice_views, passed_over, paths_of, scan_dir, text_views, Skipped, WalkEntry,
};
use crate::sorter::{
    dated_batch, disambiguated, planned_batch, read_exif_data, reads, resolve_dates,
    search_for_duplicates, set_target, targets_are_own, FileProbe, SorterConfig,
};
use vstd::prelude::*;

verus! {

/// The stage that a batch is in: what is to happen to it next.
#[derive(Clone, Copy, Debug, PartialEq, Eq, Structural)]
pub enum Stage {
    /// The source tree is to be walked.
    Discovering,
    /// The files are to be read.
    Extracting,
    /// A date is to be chosen for each record.
    Resolving,
    /// A target is to be planned for each record.
    Planning,
    /// Collisions among the targets are to be resolved.
    Colliding,
    /// The files are to be moved.
    Moving,
    /// Nothing is left to do but to report.
    Done,
}

impl Stage {
    /// The stage that follows; `Done` stays.
    pub open spec fn following(self) -> Stage {
        match self {
            Stage::Discovering => Stage::Extracting,
            Stage::Extracting => Stage::Resolving,
            Stage::Resolving => Stage::Planning,
            Stage::Planning => Stage::Colliding,
            Stage::Colliding => Stage::Moving,
            Stage::Moving => Stage::Done,
            Stage::Done => Stage::Done,
        }
    }

    /// The stage that follows; `Done` stays.
    pub fn next(self) -> (r: Stage)
        ensures
            r == self.following(),
    {
        match self {
            Stage::Discovering => Stage::Extracting,
            Stage::Extracting => Stage::Resolving,
            Stage::Resolving => Stage::Planning,
            Stage::Planning => Stage::Colliding,
            Stage::Colliding => Stage::Moving,
            Stage::Moving => Stage::Done,
            Stage::Done => Stage::Done,
        }
    }
}

/// A batch, the directories passed over when it was found, and the stage that
/// it is in.
#[derive(Debug, PartialEq, Eq)]
pub struct Pipeline {
    pub stage: Stage,
    pub config: SorterConfig,
    pub files: Vec<Image>,
    pub skipped: Vec<Skipped>,
}

impl Pipeline {
    /// The records of the batch, as mathematics sees them.
    pub open spec fn batch(self) -> Seq<ImageView> {
        batch_view(self.files@)
    }

    /// The files on disk that count when collisions are resolved: none in a
    /// dry run.
    pub open spec fn disk(self, existing: Seq<Key>) -> Seq<Key> {
        self.config.disk(existing)
    }

    /// A pipeline before its batch is found.
    pub fn new(config: SorterConfig) -> (r: Pipeline)
        ensures
            r.stage == Stage::Discovering,
            r.config == config,
            r.files@.len() == 0,
            r.skipped@.len() == 0,
    {
        Pipeline { stage: Stage::Discovering, config, files: Vec::new(), skipped: Vec::new() }
    }

    /// Builds the batch from the entries of a walk of the source tree. The
    /// batch takes the place of any batch before it.
    pub fn discover(&mut self, entries: &Vec<WalkEntry>)
        requires
            old(self).stage == Stage::Discovering,
        ensures
            final(self).stage == Stage::Extracting,
            final(self).config == old(self).config,
            final(self).batch() == discovered(
                entries@,
                old(self).config.target_dir@,
                old(self).config.include_target,
            ),
            notice_views(final(self).skipped@) == passed_over(
                entries@,
                old(self).config.target_dir@,
                old(self).config.include_target,
            ),
    {
        let found = scan_dir(entries, self.config.target_dir.as_str(), self.config.include_target);
        self.files = found.files;
        self.skipped = found.skipped;
        self.stage = Stage::Extracting;
    }

    /// Reads the dates of every file into its record. `probes` holds, for
    /// each record in order, what reading its file gave.
    pub fn extract(&mut self, probes: &Vec<FileProbe>)
        requires
            old(self).stage == Stage::Extracting,
            probes.len() == old(self).files.len(),
        ensures
            final(self).stage == Stage::Resolving,
            final(self).config == old(self).config,
            final(self).skipped == old(self).skipped,
            reads(old(self).batch(), probes@, final(self).batch()),
    {
        read_exif_data(&mut self.files, probes);
        self.stage = Stage::Resolving;
    }

    /// Chooses a date for each record.
    pub fn resolve(&mut self)
        requires
            old(self).stage == Stage::Resolving,
        ensures
            final(self).stage == Stage::Planning,
            final(self).config == old(self).config,
            final(self).skipped == old(self).skipped,
            final(self).batch() == dated_batch(old(self).batch()),
    {
        resolve_dates(&mut self.files);
        self.stage = Stage::Planning;
    }

    /// Plans the target of each record.
    pub fn plan(&mut self)
        requires
            old(self).stage == Stage::Planning,
        ensures
            final(self).stage == Stage::Colliding,
            final(self).config == old(self).config,
            final(self).skipped == old(self).skipped,
            final(self).batch() == planned_batch(
                old(self).batch(),
                old(self).config.target_dir@,
                old(self).config.sub_dir,
            ),
    {
        set_target(&mut self.files, self.config.target_dir.as_str(), self.config.sub_dir);
        self.stage = Stage::Colliding;
    }

    /// Resolves the collisions among the targets of the batch and with the
    /// files at `existing`. After it no two records that are to be moved
    /// have one target, and none has the target of a file that counts.
    pub fn collide(&mut self, existing: &Vec<Target>)
        requires
            old(self).stage == Stage::Colliding,
        ensures
            final(self).stage == Stage::Moving,
            final(self).config == old(self).config,
            final(self).skipped == old(self).skipped,
            final(self).batch() == disambiguated(
                old(self).batch(),
                old(self).disk(target_views(existing@)),
            ),
            targets_are_own(final(self).batch(), old(self).disk(target_views(existing@))),
    {
        search_for_duplicates(&mut self.files, existing, self.config.dry_run);
        self.stage = Stage::Moving;
    }

    /// The moves that the batch asks for: in a dry run the preview, else
    /// what is to be carried out.
    pub fn moves(&self) -> (r: Vec<PlannedMove>)
        requires
            self.stage == Stage::Moving,
        ensures
            move_views(r@) == moves_of(self.batch()),
    {
        planned_moves(&self.files)
    }

    /// Writes what each move came to into the batch. In a dry run nothing
    /// was moved and nothing is written.
    pub fn finish(&mut self, outcomes: &Vec<MoveOutcome>)
        requires
            old(self).stage == Stage::Moving,
            old(self).config.dry_run || outcomes.len() == old(self).files.len(),
        ensures
            final(self).stage == Stage::Done,
            final(self).config == old(self).config,
            final(self).skipped == old(self).skipped,
            final(self).batch() == moved_batch(
                old(self).batch(),
                old(self).config.dry_run,
                outcomes@,
            ),
    {
        move_to_target(&mut self.files, self.config.dry_run, outcomes);
        self.stage = Stage::Done;
    }

    /// The report of the run.
    pub fn report(&self) -> (r: BatchReport)
        requires
            self.stage == Stage::Done,
        ensures
            r.moved == count_moved(self.batch()),
            failure_views(r.failed@) == failures_of(self.batch()),
            text_views(r.skipped@) == paths_of(notice_views(self.skipped@)),
    {
        batch_report(&self.files, &self.skipped)
    }
}

} // verus!
