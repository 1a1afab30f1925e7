//! The stages that a batch goes through between discovery and the moves.

use crate::capture::{
    capture_date, date_of_timestamp, day_of, embedded_capture_date, embedded_text, timestamp_day,
    Timestamp,
};
use crate::collision::{
    claim_view, claim_views, earlier_claims, first_free, handed_out, lemma_counter_suffix,
    lemma_first_free, lemma_resolution_idempotent, lemma_resolved_unique, resolve_collisions,
    resolved_keys, suffixed, target_views, Key, Target,
};
use crate::date::{date_text, Date};
use crate::error::{AppError, AppErrorView, IoCause, ParseCause};
use crate::image::{batch_view, Image, ImageDates, ImageView, Status};
use crate::mover::{move_views, moved_batch, moves_of, planned_moves, MoveOutcome, PlannedMove};
use crate::path::{extension_of, join, join_path, split_file_name, stem_of};
use crate::resolve::{resolution, resolve_date};
use crate::text::decimal;
use vstd::prelude::*;

verus! {

impl ImageView {
    /// The record after a date was chosen for it. Only a pending record is
    /// touched: it gets the date and its tier, or fails where no tier has a
    /// date.
    pub open spec fn dated(self) -> ImageView {
        if self.status is Pending {
            match resolution(self.dates) {
                Some((date, tier)) => ImageView {
                    resolved_date: Some(date),
                    tier: Some(tier),
                    ..self
                },
                None => ImageView {
                    status: Status::Failed,
                    error: Some(AppErrorView::DateResolutionExhausted),
                    ..self
                },
            }
        } else {
            self
        }
    }

    /// The record after its target was planned below `target_dir`. Only a
    /// pending record with a date is touched: its directory is `target_dir`,
    /// or the directory named after the date in it where `sub_dir` is set;
    /// its name is the name that it has.
    pub open spec fn planned(self, target_dir: Seq<char>, sub_dir: bool) -> ImageView {
        if self.status is Pending && self.resolved_date is Some {
            ImageView {
                target_path: if sub_dir {
                    join(target_dir, date_text(self.resolved_date->0@))
                } else {
                    target_dir
                },
                target_filename: Some(stem_of(self.source_filename)),
                target_filetype: extension_of(self.source_filename),
                status: Status::Resolved,
                ..self
            }
        } else {
            self
        }
    }

    /// Whether the record has a target that it still has to be moved to.
    pub open spec fn takes_part(self) -> bool {
        (self.status is Resolved || self.status is Collided) && self.target_filename is Some
    }

    /// The target that the record asks for, if it takes part.
    pub open spec fn claim(self) -> Option<Key> {
        if self.takes_part() {
            Some(
                Key {
                    directory: self.target_path,
                    filename: self.target_filename->0,
                    filetype: self.target_filetype,
                },
            )
        } else {
            None
        }
    }

    /// The record with the counter `n` behind the stem of its target, marked
    /// as collided.
    pub open spec fn with_counter(self, n: nat) -> ImageView {
        ImageView {
            target_filename: Some(self.target_filename->0 + seq!['_'] + decimal(n)),
            status: Status::Collided,
            ..self
        }
    }

    /// The record after it was given the target `key`: unchanged where that
    /// is what it asked for, else with the new stem and marked as collided.
    pub open spec fn renamed(self, key: Option<Key>) -> ImageView {
        if key is None || self.claim() == key {
            self
        } else {
            ImageView { target_filename: Some(key->0.filename), status: Status::Collided, ..self }
        }
    }
}

/// The batch after a date was chosen for each record.
pub open spec fn dated_batch(files: Seq<ImageView>) -> Seq<ImageView> {
    Seq::new(files.len(), |i: int| files[i].dated())
}

/// The batch after the target of each record was planned.
pub open spec fn planned_batch(files: Seq<ImageView>, target_dir: Seq<char>, sub_dir: bool) -> Seq<
    ImageView,
> {
    Seq::new(files.len(), |i: int| files[i].planned(target_dir, sub_dir))
}

/// The targets that the records of a batch ask for.
pub open spec fn claims_of(files: Seq<ImageView>) -> Seq<Option<Key>> {
    Seq::new(files.len(), |i: int| files[i].claim())
}

/// The batch after its collisions were resolved against each other and
/// against the files at `existing`.
pub open spec fn disambiguated(files: Seq<ImageView>, existing: Seq<Key>) -> Seq<ImageView> {
    Seq::new(
        files.len(),
        |i: int| files[i].renamed(resolved_keys(claims_of(files), existing)[i]),
    )
}

/// Chooses a date for each pending record of the batch.
pub fn resolve_dates(files: &mut Vec<Image>)
    ensures
        batch_view(final(files)@) == dated_batch(batch_view(old(files)@)),
{
    let ghost before = batch_view(files@);
    let mut i: usize = 0;
    while i < files.len()
        invariant
            i <= files.len(),
            files.len() == before.len(),
            forall|j: int| 0 <= j < i ==> files@[j]@ == before[j].dated(),
            forall|j: int| i <= j < files.len() ==> files@[j]@ == before[j],
        decreases files.len() - i,
    {
        if files[i].status == Status::Pending {
            match resolve_date(&files[i].dates) {
                Ok((date, tier)) => {
                    files[i].resolved_date = Some(date);
                    files[i].tier = Some(tier);
                },
                Err(e) => {
                    files[i].status = Status::Failed;
                    files[i].error = Some(e);
                },
            }
        }
        i = i + 1;
    }
    assert(batch_view(files@) =~= dated_batch(before));
}

/// Plans the target of each pending record that has a date: directory and
/// name. Nothing on disk is touched.
pub fn set_target(files: &mut Vec<Image>, target_dir: &str, sub_dir: bool)
    ensures
        batch_view(final(files)@) == planned_batch(batch_view(old(files)@), target_dir@, sub_dir),
{
    let ghost before = batch_view(files@);
    let mut i: usize = 0;
    while i < files.len()
        invariant
            i <= files.len(),
            files.len() == before.len(),
            forall|j: int| 0 <= j < i ==> files@[j]@ == before[j].planned(target_dir@, sub_dir),
            forall|j: int| i <= j < files.len() ==> files@[j]@ == before[j],
        decreases files.len() - i,
    {
        if files[i].status == Status::Pending {
            match files[i].resolved_date {
                Some(date) => {
                    let directory = if sub_dir {
                        join_path(target_dir, date.to_text().as_str())
                    } else {
                        String::from_str(target_dir)
                    };
                    let (stem, extension) = split_file_name(files[i].source_filename.as_str());
                    files[i].target_path = directory;
                    files[i].target_filename = Some(stem);
                    files[i].target_filetype = extension;
                    files[i].status = Status::Resolved;
                },
                None => {},
            }
        }
        i = i + 1;
    }
    assert(batch_view(files@) =~= planned_batch(before, target_dir@, sub_dir));
}

/// The target that a record asks for, if it takes part.
pub fn claim_of(image: &Image) -> (r: Option<Target>)
    ensures
        claim_view(r) == image@.claim(),
{
    if image.status == Status::Resolved || image.status == Status::Collided {
        match &image.target_filename {
            Some(name) => Some(
                Target {
                    directory: image.target_path.clone(),
                    filename: name.clone(),
                    filetype: match &image.target_filetype {
                        Some(e) => Some(e.clone()),
                        None => None,
                    },
                },
            ),
            None => None,
        }
    } else {
        None
    }
}

/// Gives each record a target that is its own. Where several records ask for
/// one target, the first keeps it and each later one gets a counter behind
/// its stem; a record that asks for the target of a file in `existing` gets
/// a counter too. In a dry run the disk is not looked at, and `existing` is
/// left aside.
pub fn search_for_duplicates(files: &mut Vec<Image>, existing: &Vec<Target>, dry_run: bool)
    ensures
        batch_view(final(files)@) == disambiguated(
            batch_view(old(files)@),
            if dry_run {
                Seq::<Key>::empty()
            } else {
                target_views(existing@)
            },
        ),
        targets_are_own(
            batch_view(final(files)@),
            if dry_run {
                Seq::<Key>::empty()
            } else {
                target_views(existing@)
            },
        ),
{
    let ghost before = batch_view(files@);
    let mut claims: Vec<Option<Target>> = Vec::new();
    let mut i: usize = 0;
    while i < files.len()
        invariant
            i <= files.len(),
            claims.len() == i,
            before == batch_view(files@),
            forall|j: int| 0 <= j < i ==> claim_view(claims@[j]) == before[j].claim(),
        decreases files.len() - i,
    {
        claims.push(claim_of(&files[i]));
        i = i + 1;
    }
    assert(claim_views(claims@) =~= claims_of(before));
    let nothing: Vec<Target> = Vec::new();
    let disk = if dry_run {
        &nothing
    } else {
        existing
    };
    let ghost taken = target_views(disk@);
    assert(dry_run ==> taken =~= Seq::<Key>::empty());
    let resolved = resolve_collisions(&claims, disk);
    let ghost keys = resolved_keys(claims_of(before), taken);
    assert(claim_views(resolved@).len() == keys.len());
    let mut i: usize = 0;
    while i < files.len()
        invariant
            i <= files.len(),
            files.len() == before.len(),
            claims.len() == before.len(),
            resolved.len() == before.len(),
            claim_views(claims@) == claims_of(before),
            claim_views(resolved@) == keys,
            keys == resolved_keys(claims_of(before), taken),
            forall|j: int| 0 <= j < i ==> files@[j]@ == before[j].renamed(keys[j]),
            forall|j: int| i <= j < files.len() ==> files@[j]@ == before[j],
        decreases files.len() - i,
    {
        assert(claim_view(resolved@[i as int]) == keys[i as int]);
        assert(claim_view(claims@[i as int]) == before[i as int].claim());
        match &resolved[i] {
            Some(given) => {
                let unchanged = match &claims[i] {
                    Some(asked) => given.same_as(asked),
                    None => true,
                };
                if !unchanged {
                    files[i].target_filename = Some(given.filename.clone());
                    files[i].status = Status::Collided;
                }
            },
            None => {},
        }
        i = i + 1;
    }
    assert(batch_view(files@) =~= disambiguated(before, taken));
    proof {
        lemma_disambiguated_targets_are_own(before, taken);
    }
}

/// After the collisions are resolved, each record asks for the target that
/// the resolution gave it.
pub proof fn lemma_disambiguated_claims(files: Seq<ImageView>, existing: Seq<Key>)
    ensures
        claims_of(disambiguated(files, existing)) == resolved_keys(claims_of(files), existing),
{
    let keys = resolved_keys(claims_of(files), existing);
    let after = disambiguated(files, existing);
    assert forall|i: int| 0 <= i < files.len() implies after[i].claim() == keys[i] by {
        assert(claims_of(files)[i] == files[i].claim());
    }
    assert(claims_of(after) =~= keys);
}

/// Resolving the collisions of a batch twice gives the batch that resolving
/// them once gives.
pub proof fn lemma_search_idempotent(files: Seq<ImageView>, existing: Seq<Key>)
    ensures
        disambiguated(disambiguated(files, existing), existing) == disambiguated(files, existing),
{
    let once = disambiguated(files, existing);
    lemma_disambiguated_claims(files, existing);
    lemma_resolution_idempotent(claims_of(files), existing);
    assert forall|i: int| 0 <= i < once.len() implies once[i].renamed(
        resolved_keys(claims_of(once), existing)[i],
    ) == once[i] by {
        assert(claims_of(once)[i] == once[i].claim());
    }
    assert(disambiguated(once, existing) =~= once);
}

/// Whether every record of the batch that is to be moved has a target of its
/// own: none that another record has, and none at which a file of `existing`
/// stands.
pub open spec fn targets_are_own(files: Seq<ImageView>, existing: Seq<Key>) -> bool {
    &&& forall|i: int, j: int|
        0 <= i < files.len() && 0 <= j < files.len() && i != j && (#[trigger] files[i]).takes_part()
            ==> files[i].claim() != (#[trigger] files[j]).claim()
    &&& forall|i: int|
        0 <= i < files.len() && (#[trigger] files[i]).takes_part() ==> !existing.contains(
            files[i].claim()->0,
        )
}

/// What the resolution of collisions promises: after it every record that is
/// to be moved has a target of its own.
pub proof fn lemma_disambiguated_targets_are_own(files: Seq<ImageView>, existing: Seq<Key>)
    ensures
        targets_are_own(disambiguated(files, existing), existing),
{
    let after = disambiguated(files, existing);
    lemma_disambiguated_claims(files, existing);
    lemma_resolved_unique(claims_of(files), existing);
    assert forall|i: int, j: int|
        0 <= i < after.len() && 0 <= j < after.len() && i != j && (#[trigger] after[i]).takes_part()
        implies after[i].claim() != (#[trigger] after[j]).claim() by {
        assert(claims_of(after)[i] == after[i].claim());
        assert(claims_of(after)[j] == after[j].claim());
    }
    assert forall|i: int| 0 <= i < after.len() && (#[trigger] after[i]).takes_part()
        implies !existing.contains(after[i].claim()->0) by {
        assert(claims_of(after)[i] == after[i].claim());
    }
}

/// A record that the resolution renames keeps its directory and its
/// extension, and gets a counter behind its stem.
pub proof fn lemma_renamed_shape(files: Seq<ImageView>, existing: Seq<Key>, i: int)
    requires
        0 <= i < files.len(),
        disambiguated(files, existing)[i] != files[i],
    ensures
        files[i].takes_part(),
        exists|n: nat|
            n >= 1 && disambiguated(files, existing)[i] == #[trigger] files[i].with_counter(n),
{
    let keys = claims_of(files);
    assert(keys[i] == files[i].claim());
    let given = handed_out(keys, existing, i as nat);
    let n = first_free(keys[i]->0, keys, existing, given);
    lemma_first_free(keys[i]->0, keys, existing, given);
    assert(disambiguated(files, existing)[i] == files[i].with_counter(n));
}

/// What reading one file gave: its content, or why it could not be read, and
/// the times that the filesystem keeps of it.
#[derive(Debug, PartialEq, Eq)]
pub struct FileProbe {
    /// The bytes of the file, or why it could not be opened or read.
    pub content: Result<Vec<u8>, IoCause>,
    /// The time of creation, where the platform keeps one.
    pub created: Option<Timestamp>,
    /// The time of the last modification, where it could be had.
    pub modified: Option<Timestamp>,
}

/// The first of two optional values that is there.
pub open spec fn first_known<T>(first: Option<T>, second: Option<T>) -> Option<T> {
    if first is Some {
        first
    } else {
        second
    }
}

/// The date embedded in a file, of what reading it gave.
pub open spec fn embedded_date(embedded: Result<Option<Date>, ParseCause>) -> Option<Date> {
    match embedded {
        Ok(date) => date,
        Err(_) => None,
    }
}

/// Whether `embedded` is what reading the capture time `text` gives: no date
/// where the file holds no capture time; the date of the capture time where
/// it has the strict format; a parse failure where it has not.
pub open spec fn reads_as(
    text: Option<Seq<char>>,
    embedded: Result<Option<Date>, ParseCause>,
) -> bool {
    match text {
        None => embedded == Ok::<Option<Date>, ParseCause>(None),
        Some(t) => match capture_date(t) {
            Some(day) => embedded matches Ok(Some(date)) && date@ == day,
            None => embedded is Err,
        },
    }
}

/// Why the embedded capture time did not parse, of what reading it gave.
pub open spec fn embedded_failure(embedded: Result<Option<Date>, ParseCause>) -> Option<
    ParseCause,
> {
    match embedded {
        Ok(_) => None,
        Err(cause) => Some(cause),
    }
}

impl ImageView {
    /// The record after its file could not be read. Only a pending record is
    /// touched.
    pub open spec fn unreadable(self, cause: IoCause) -> ImageView {
        if self.status is Pending {
            ImageView {
                status: Status::Failed,
                error: Some(AppErrorView::IoError(cause)),
                ..self
            }
        } else {
            self
        }
    }

    /// The record after the dates of its file were found. Only a pending
    /// record is touched. Where the file has no creation date, its
    /// modification date stands for it; a capture time that did not parse is
    /// kept as such, and the lower tiers still stand.
    pub open spec fn with_dates(
        self,
        embedded: Result<Option<Date>, ParseCause>,
        created: Option<Date>,
        modified: Option<Date>,
    ) -> ImageView {
        if self.status is Pending {
            ImageView {
                dates: ImageDates {
                    exif_date_time_original: embedded_date(embedded),
                    file_creation_date: first_known(created, modified),
                    file_modified_date: modified,
                },
                date_parse_error: embedded_failure(embedded),
                ..self
            }
        } else {
            self
        }
    }

    /// Whether `after` is this record after `probe` was read into it: failed
    /// where the file could not be read, else with the dates of the file's
    /// times and with the date of the capture time that its content holds.
    pub open spec fn probed(self, probe: FileProbe, after: ImageView) -> bool {
        match probe.content {
            Err(cause) => after == self.unreadable(cause),
            Ok(content) => exists|embedded: Result<Option<Date>, ParseCause>|
                {
                    &&& reads_as(embedded_text(content@), embedded)
                    &&& #[trigger] self.found(embedded, probe, after)
                },
        }
    }

    /// Whether `after` is this record with the embedded date `embedded` and
    /// the dates of the times in `probe`.
    pub open spec fn found(
        self,
        embedded: Result<Option<Date>, ParseCause>,
        probe: FileProbe,
        after: ImageView,
    ) -> bool {
        exists|created: Option<Date>, modified: Option<Date>|
            {
                &&& day_of(created) == timestamp_day(probe.created)
                &&& day_of(modified) == timestamp_day(probe.modified)
                &&& after == #[trigger] self.with_dates(embedded, created, modified)
            }
    }
}

impl Image {
    /// Marks a pending record as failed because its file could not be read.
    pub fn mark_unreadable(&mut self, cause: IoCause)
        ensures
            final(self)@ == old(self)@.unreadable(cause),
    {
        if self.status == Status::Pending {
            self.status = Status::Failed;
            self.error = Some(AppError::IoError(cause));
        }
    }

    /// Writes the dates of the three sources into a pending record.
    /// `embedded` is what the embedded metadata gave, `created` and
    /// `modified` are the dates of the filesystem's times.
    pub fn record_dates(
        &mut self,
        embedded: Result<Option<Date>, ParseCause>,
        created: Option<Date>,
        modified: Option<Date>,
    )
        ensures
            final(self)@ == old(self)@.with_dates(embedded, created, modified),
    {
        if self.status == Status::Pending {
            self.dates = ImageDates {
                exif_date_time_original: match embedded {
                    Ok(date) => date,
                    Err(_) => None,
                },
                file_creation_date: if created.is_some() {
                    created
                } else {
                    modified
                },
                file_modified_date: modified,
            };
            self.date_parse_error = match embedded {
                Ok(_) => None,
                Err(cause) => Some(cause),
            };
        }
    }

    /// Reads what `probe` holds of the file into the record: the date of the
    /// embedded capture time and the dates of the filesystem's times.
    pub fn read_probe(&mut self, probe: &FileProbe)
        ensures
            old(self)@.probed(*probe, final(self)@),
    {
        let ghost before = self@;
        match &probe.content {
            Err(cause) => {
                self.mark_unreadable(*cause);
            },
            Ok(content) => {
                let embedded = match embedded_capture_date(content.as_slice()) {
                    Ok(date) => Ok(date),
                    Err(AppError::DateParseError(cause)) => Err(cause),
                    Err(_) => Err(ParseCause::Unknown),
                };
                let created = date_of_timestamp(probe.created);
                let modified = date_of_timestamp(probe.modified);
                self.record_dates(embedded, created, modified);
                assert(self@ == before.with_dates(embedded, created, modified));
                assert(before.found(embedded, *probe, self@));
            },
        }
    }
}

/// Whether `after` is the batch `before` after `probes` were read into it,
/// record by record.
pub open spec fn reads(before: Seq<ImageView>, probes: Seq<FileProbe>, after: Seq<ImageView>)
    -> bool {
    &&& after.len() == before.len()
    &&& probes.len() == before.len()
    &&& forall|i: int| 0 <= i < before.len() ==> (#[trigger] before[i]).probed(probes[i], after[i])
}

/// Reads the dates of every file of the batch into its record. `probes`
/// holds, for each record in order, what reading its file gave.
pub fn read_exif_data(files: &mut Vec<Image>, probes: &Vec<FileProbe>)
    requires
        probes.len() == old(files).len(),
    ensures
        reads(batch_view(old(files)@), probes@, batch_view(final(files)@)),
{
    let ghost before = files@;
    let mut i: usize = 0;
    while i < files.len()
        invariant
            i <= files.len(),
            files.len() == before.len(),
            probes.len() == before.len(),
            forall|j: int| 0 <= j < i ==> (#[trigger] before[j])@.probed(probes@[j], files@[j]@),
            forall|j: int| i <= j < files.len() ==> files@[j] == before[j],
        decreases files.len() - i,
    {
        files[i].read_probe(&probes[i]);
        i = i + 1;
    }
}

/// How a run is to go.
#[derive(Debug, PartialEq, Eq)]
pub struct SorterConfig {
    /// Whether the run only says what it would do.
    pub dry_run: bool,
    /// Whether files go into a directory named after their date.
    pub sub_dir: bool,
    /// The directory below which the files go.
    pub target_dir: String,
    /// Whether the target directory is scanned too.
    pub include_target: bool,
}

impl SorterConfig {
    /// The files on disk that count when collisions are resolved: none in a
    /// dry run.
    pub open spec fn disk(self, existing: Seq<Key>) -> Seq<Key> {
        if self.dry_run {
            Seq::empty()
        } else {
            existing
        }
    }
}

/// The batch after the stages from the choice of a date to the resolution of
/// collisions.
pub open spec fn staged(
    files: Seq<ImageView>,
    target_dir: Seq<char>,
    sub_dir: bool,
    existing: Seq<Key>,
) -> Seq<ImageView> {
    disambiguated(planned_batch(dated_batch(files), target_dir, sub_dir), existing)
}

/// Takes a batch whose dates are read through the stages that follow:
/// chooses a date for each record, plans its target and resolves the
/// collisions. Each stage runs over the whole batch before the next begins.
pub fn plan(config: &SorterConfig, files: &mut Vec<Image>, existing: &Vec<Target>)
    ensures
        batch_view(final(files)@) == staged(
            batch_view(old(files)@),
            config.target_dir@,
            config.sub_dir,
            config.disk(target_views(existing@)),
        ),
        targets_are_own(batch_view(final(files)@), config.disk(target_views(existing@))),
{
    resolve_dates(files);
    set_target(files, config.target_dir.as_str(), config.sub_dir);
    search_for_duplicates(files, existing, config.dry_run);
}

/// Takes a discovered batch through every stage before the moves and gives
/// the moves that it asks for. `probes` holds, for each record in order, what
/// reading its file gave; `existing` holds the targets at which files stand
/// already.
pub fn parse_and_move(
    config: &SorterConfig,
    files: &mut Vec<Image>,
    probes: &Vec<FileProbe>,
    existing: &Vec<Target>,
) -> (r: Vec<PlannedMove>)
    requires
        probes.len() == old(files).len(),
    ensures
        exists|read: Seq<ImageView>|
            {
                &&& #[trigger] reads(batch_view(old(files)@), probes@, read)
                &&& batch_view(final(files)@) == staged(
                    read,
                    config.target_dir@,
                    config.sub_dir,
                    config.disk(target_views(existing@)),
                )
            },
        targets_are_own(batch_view(final(files)@), config.disk(target_views(existing@))),
        move_views(r@) == moves_of(batch_view(final(files)@)),
{
    read_exif_data(files, probes);
    let ghost read = batch_view(files@);
    plan(config, files, existing);
    assert(reads(batch_view(old(files)@), probes@, read));
    planned_moves(files)
}

/// Whether `after` is a step forward from `before`: the status has not gone
/// back, a failed record is as it was, and the source is untouched.
pub open spec fn advances(before: ImageView, after: ImageView) -> bool {
    &&& before.status.rank() <= after.status.rank()
    &&& before.status is Failed ==> after == before
    &&& after.source_path == before.source_path
    &&& after.source_filename == before.source_filename
    &&& after.source_filetype == before.source_filetype
}

/// Every stage takes each record forward, never back, and keeps a record
/// whose fields agree with its status that way.
pub proof fn lemma_stages_advance(
    files: Seq<ImageView>,
    target_dir: Seq<char>,
    sub_dir: bool,
    existing: Seq<Key>,
    dry_run: bool,
    outcomes: Seq<MoveOutcome>,
    i: int,
)
    requires
        0 <= i < files.len(),
    ensures
        advances(files[i], dated_batch(files)[i]),
        advances(files[i], planned_batch(files, target_dir, sub_dir)[i]),
        advances(files[i], disambiguated(files, existing)[i]),
        advances(files[i], moved_batch(files, dry_run, outcomes)[i]),
        files[i].well_formed() ==> {
            &&& dated_batch(files)[i].well_formed()
            &&& planned_batch(files, target_dir, sub_dir)[i].well_formed()
            &&& disambiguated(files, existing)[i].well_formed()
            &&& moved_batch(files, dry_run, outcomes)[i].well_formed()
        },
{
    assert(claims_of(files)[i] == files[i].claim());
}

/// Reading a file into a record takes the record forward, never back, and
/// keeps a record whose fields agree with its status that way.
pub proof fn lemma_reading_advances(before: ImageView, probe: FileProbe, after: ImageView)
    requires
        before.probed(probe, after),
    ensures
        advances(before, after),
        before.well_formed() ==> after.well_formed(),
{
    if probe.content is Ok {
        let content = probe.content->Ok_0;
        let embedded = choose|embedded: Result<Option<Date>, ParseCause>|
            {
                &&& reads_as(embedded_text(content@), embedded)
                &&& #[trigger] before.found(embedded, probe, after)
            };
        assert(before.found(embedded, probe, after));
    }
}

/// The counter rule for records: of the records that ask for one target, the
/// first keeps its name, the second gets `_1` behind the stem, the third
/// `_2`, and so on. It holds of a record where no file stands at its target,
/// and neither a file nor a record of the batch has one of the names with a
/// counter up to the record's own.
pub proof fn lemma_counter_rule(files: Seq<ImageView>, existing: Seq<Key>, i: int)
    requires
        0 <= i < files.len(),
        files[i].takes_part(),
        !existing.contains(files[i].claim()->0),
        forall|m: nat|
            1 <= m <= earlier_claims(claims_of(files), files[i].claim()->0, i)
                ==> !existing.contains(#[trigger] suffixed(files[i].claim()->0, m))
                && !claims_of(files).contains(Some(suffixed(files[i].claim()->0, m))),
    ensures
        earlier_claims(claims_of(files), files[i].claim()->0, i) == 0 ==> disambiguated(
            files,
            existing,
        )[i] == files[i],
        earlier_claims(claims_of(files), files[i].claim()->0, i) > 0 ==> disambiguated(
            files,
            existing,
        )[i] == files[i].with_counter(earlier_claims(claims_of(files), files[i].claim()->0, i)),
{
    let keys = claims_of(files);
    assert(keys[i] == files[i].claim());
    lemma_counter_suffix(keys, existing, i);
    let count = earlier_claims(keys, keys[i]->0, i);
    if count > 0 {
        crate::collision::lemma_suffixed_differs(keys[i]->0, count);
    }
}

/// A file with a capture time that parses gets the date of that time,
/// whatever the filesystem says of it.
pub proof fn lemma_capture_date_is_resolved(
    record: ImageView,
    date: Date,
    created: Option<Date>,
    modified: Option<Date>,
)
    requires
        record.status is Pending,
    ensures
        record.with_dates(Ok(Some(date)), created, modified).dated().resolved_date == Some(date),
        record.with_dates(Ok(Some(date)), created, modified).dated().tier == Some(
            crate::image::Tier::Embedded,
        ),
        record.with_dates(Ok(Some(date)), created, modified).dated().status is Pending,
{
}

/// A file without a capture time that parses gets its creation date, or its
/// modification date where it has no creation date; it fails only where it
/// has neither.
pub proof fn lemma_filesystem_date_is_resolved(
    record: ImageView,
    embedded: Result<Option<Date>, ParseCause>,
    created: Option<Date>,
    modified: Option<Date>,
)
    requires
        record.status is Pending,
        embedded_date(embedded) is None,
    ensures
        created is Some ==> {
            &&& record.with_dates(embedded, created, modified).dated().resolved_date == created
            &&& record.with_dates(embedded, created, modified).dated().tier == Some(
                crate::image::Tier::Created,
            )
        },
        created is None && modified is Some ==> record.with_dates(
            embedded,
            created,
            modified,
        ).dated().resolved_date == modified,
        created is None && modified is None ==> {
            &&& record.with_dates(embedded, created, modified).dated().status is Failed
            &&& record.with_dates(embedded, created, modified).dated().error == Some(
                AppErrorView::DateResolutionExhausted,
            )
        },
        record.with_dates(embedded, created, modified).dated().date_parse_error
            == embedded_failure(embedded),
{
}

} // verus!
