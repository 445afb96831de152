//! Filling in the times that older rows hold only as texts.
//!
//! The work is done in batches of bounded size, first on usage events and then on rate-limit
//! samples. Each batch is one transaction, which can be given up at a number of points.

use crate::timestamps::{epoch_millis, parse_epoch_millis};
use vstd::prelude::*;

verus! {

/// How many rows a batch takes up at most.
pub const MAX_BATCH_SIZE: usize = 1_000;

/// What a batch did, and whether nothing is left to do.
#[derive(Clone, Copy, Debug, PartialEq, Eq, Structural)]
pub struct EpochBackfillProgress {
    pub usage_rows_updated: usize,
    pub quota_rows_updated: usize,
    pub complete: bool,
}

/// The points at which a batch can be given up.
#[derive(Clone, Copy, Debug, PartialEq, Eq, Structural)]
pub enum EpochBackfillCancellationPoint {
    Transaction,
    UsageRow,
    QuotaRow,
    CompletionMarker,
    Commit,
}

/// What a batch needs done next.
#[derive(Clone, Copy, Debug, PartialEq, Eq, Structural)]
pub enum BackfillAction {
    /// Ask whether the batch is to be given up.
    AskCancelled(EpochBackfillCancellationPoint),
    /// Find out whether nothing is left to do, outside any transaction.
    CheckComplete,
    /// Begin the transaction and find out in it whether nothing is left to do.
    BeginAndCheckComplete,
    /// Make sure that both cursors are there, and load at most this many usage rows behind the
    /// cursor.
    LoadUsageRows(usize),
    /// Migrate the usage row at this place.
    MigrateUsageRow(usize),
    /// Move the usage cursor to the last row that was loaded.
    SaveUsageCursor,
    /// Load at most this many rate-limit rows behind the cursor.
    LoadQuotaRows(usize),
    /// Migrate the rate-limit row at this place.
    MigrateQuotaRow(usize),
    /// Move the rate-limit cursor to the last row that was loaded.
    SaveQuotaCursor,
    /// Note that nothing is left to do.
    MarkComplete,
    /// Commit the transaction.
    Commit,
    /// Nothing more: the batch is done.
    Finish(EpochBackfillProgress),
    /// Nothing more: the batch was given up, and with it all that it did.
    Abandon,
}

/// What came of an action.
#[derive(Clone, Copy, Debug, PartialEq, Eq, Structural)]
pub enum BackfillReply {
    /// Whether the batch is to be given up.
    Cancelled(bool),
    /// Whether nothing is left to do.
    Complete(bool),
    /// How many rows were loaded.
    Loaded(usize),
    /// The action was carried out.
    Done,
}

/// A batch on its way.
#[derive(Clone, Copy, Debug, PartialEq, Eq, Structural)]
pub struct EpochBackfill {
    /// How many rows the batch takes up at most.
    pub batch_size: usize,
    /// Whether nothing was left to do when the batch began.
    pub was_complete: bool,
    /// How many usage rows were loaded.
    pub usage_rows: usize,
    /// How many rate-limit rows were loaded.
    pub quota_rows: usize,
    /// The place of the row that is being migrated.
    pub row: usize,
    /// What the batch needs done next.
    pub action: BackfillAction,
}

/// The size of a batch that was asked to take up `requested` rows.
pub open spec fn batch_limit(requested: usize) -> usize {
    if requested < MAX_BATCH_SIZE {
        requested
    } else {
        MAX_BATCH_SIZE
    }
}

impl EpochBackfill {
    /// The start of a batch.
    pub open spec fn start(requested: usize) -> EpochBackfill {
        EpochBackfill {
            batch_size: batch_limit(requested),
            was_complete: false,
            usage_rows: 0,
            quota_rows: 0,
            row: 0,
            action: BackfillAction::AskCancelled(EpochBackfillCancellationPoint::Transaction),
        }
    }

    /// The same batch with another next action.
    pub open spec fn wanting(self, action: BackfillAction) -> EpochBackfill {
        EpochBackfill { action, ..self }
    }

    /// The same batch before it may be given up at a point.
    pub open spec fn asking(self, point: EpochBackfillCancellationPoint) -> EpochBackfill {
        self.wanting(BackfillAction::AskCancelled(point))
    }

    /// Whether all usage rows have been seen: the batch found fewer than it asked for.
    pub open spec fn usage_exhausted(self) -> bool {
        self.usage_rows < self.batch_size
    }

    /// How many rate-limit rows the batch has room for.
    pub open spec fn room_for_quota(self) -> usize {
        (self.batch_size - self.usage_rows) as usize
    }

    /// Whether the batch leaves nothing to do: it found fewer rows of both kinds than it asked
    /// for.
    pub open spec fn leaves_nothing(self) -> bool {
        self.usage_exhausted() && self.quota_rows < self.room_for_quota()
    }

    /// What the batch reports in the end.
    pub open spec fn progress(self) -> EpochBackfillProgress {
        EpochBackfillProgress {
            usage_rows_updated: self.usage_rows,
            quota_rows_updated: self.quota_rows,
            complete: self.was_complete || self.leaves_nothing(),
        }
    }

    /// The next usage row, or what comes after the last: the cursor moves if there was one.
    pub open spec fn at_usage_row(self) -> EpochBackfill {
        if self.row < self.usage_rows {
            self.asking(EpochBackfillCancellationPoint::UsageRow)
        } else if self.usage_rows > 0 {
            self.wanting(BackfillAction::SaveUsageCursor)
        } else {
            self.after_usage()
        }
    }

    /// What comes after the usage rows: the rate-limit rows, if all usage rows have been seen.
    pub open spec fn after_usage(self) -> EpochBackfill {
        if self.usage_exhausted() {
            self.wanting(BackfillAction::LoadQuotaRows(self.room_for_quota()))
        } else {
            self.after_rows()
        }
    }

    /// The next rate-limit row, or what comes after the last: the cursor moves if there was one.
    pub open spec fn at_quota_row(self) -> EpochBackfill {
        if self.row < self.quota_rows {
            self.asking(EpochBackfillCancellationPoint::QuotaRow)
        } else if self.quota_rows > 0 {
            self.wanting(BackfillAction::SaveQuotaCursor)
        } else {
            self.after_rows()
        }
    }

    /// What comes after all rows: the note that nothing is left, if so, and the commit.
    pub open spec fn after_rows(self) -> EpochBackfill {
        if self.leaves_nothing() {
            self.asking(EpochBackfillCancellationPoint::CompletionMarker)
        } else {
            self.asking(EpochBackfillCancellationPoint::Commit)
        }
    }

    /// What comes when the batch is not given up at a point.
    pub open spec fn after_point(self, point: EpochBackfillCancellationPoint) -> EpochBackfill {
        match point {
            EpochBackfillCancellationPoint::Transaction => if self.batch_size == 0 {
                self.wanting(BackfillAction::CheckComplete)
            } else {
                self.wanting(BackfillAction::BeginAndCheckComplete)
            },
            EpochBackfillCancellationPoint::UsageRow => self.wanting(
                BackfillAction::MigrateUsageRow(self.row),
            ),
            EpochBackfillCancellationPoint::QuotaRow => self.wanting(
                BackfillAction::MigrateQuotaRow(self.row),
            ),
            EpochBackfillCancellationPoint::CompletionMarker => self.wanting(
                BackfillAction::MarkComplete,
            ),
            EpochBackfillCancellationPoint::Commit => self.wanting(BackfillAction::Commit),
        }
    }

    /// The batch after a reply to what it wanted. A batch of no rows only looks whether anything
    /// is left to do; one that finds nothing left does nothing but commit.
    pub open spec fn next(self, reply: BackfillReply) -> EpochBackfill {
        match (self.action, reply) {
            (BackfillAction::AskCancelled(_), BackfillReply::Cancelled(true)) => self.wanting(
                BackfillAction::Abandon,
            ),
            (BackfillAction::AskCancelled(point), BackfillReply::Cancelled(false)) => {
                self.after_point(point)
            },
            (BackfillAction::CheckComplete, BackfillReply::Complete(complete)) => self.wanting(
                BackfillAction::Finish(
                    EpochBackfillProgress {
                        usage_rows_updated: 0,
                        quota_rows_updated: 0,
                        complete,
                    },
                ),
            ),
            (BackfillAction::BeginAndCheckComplete, BackfillReply::Complete(true)) => {
                (EpochBackfill { was_complete: true, ..self }).asking(
                    EpochBackfillCancellationPoint::Commit,
                )
            },
            (BackfillAction::BeginAndCheckComplete, BackfillReply::Complete(false)) => {
                self.wanting(BackfillAction::LoadUsageRows(self.batch_size))
            },
            (BackfillAction::LoadUsageRows(_), BackfillReply::Loaded(count)) => {
                (EpochBackfill { usage_rows: count, row: 0, ..self }).at_usage_row()
            },
            (BackfillAction::MigrateUsageRow(_), BackfillReply::Done) => {
                (EpochBackfill { row: (self.row + 1) as usize, ..self }).at_usage_row()
            },
            (BackfillAction::SaveUsageCursor, BackfillReply::Done) => self.after_usage(),
            (BackfillAction::LoadQuotaRows(_), BackfillReply::Loaded(count)) => {
                (EpochBackfill { quota_rows: count, row: 0, ..self }).at_quota_row()
            },
            (BackfillAction::MigrateQuotaRow(_), BackfillReply::Done) => {
                (EpochBackfill { row: (self.row + 1) as usize, ..self }).at_quota_row()
            },
            (BackfillAction::SaveQuotaCursor, BackfillReply::Done) => self.after_rows(),
            (BackfillAction::MarkComplete, BackfillReply::Done) => self.asking(
                EpochBackfillCancellationPoint::Commit,
            ),
            (BackfillAction::Commit, BackfillReply::Done) => self.wanting(
                BackfillAction::Finish(self.progress()),
            ),
            _ => self,
        }
    }

    /// Whether a reply answers what the batch wanted: of the kind that was asked for, and with no
    /// more rows than were asked for.
    pub open spec fn answers(self, reply: BackfillReply) -> bool {
        match self.action {
            BackfillAction::AskCancelled(_) => reply is Cancelled,
            BackfillAction::CheckComplete => reply is Complete,
            BackfillAction::BeginAndCheckComplete => reply is Complete,
            BackfillAction::LoadUsageRows(limit) => reply matches BackfillReply::Loaded(count)
                && count <= limit,
            BackfillAction::LoadQuotaRows(limit) => reply matches BackfillReply::Loaded(count)
                && count <= limit,
            BackfillAction::Finish(_) => false,
            BackfillAction::Abandon => false,
            _ => reply is Done,
        }
    }

    /// Whether the batch keeps its bounds: it never takes up more rows than its size, and the row
    /// that it is at is one that was loaded.
    pub open spec fn is_bounded(self) -> bool {
        &&& self.batch_size <= MAX_BATCH_SIZE
        &&& self.usage_rows + self.quota_rows <= self.batch_size
        &&& match self.action {
            BackfillAction::AskCancelled(EpochBackfillCancellationPoint::Transaction) => {
                self.usage_rows == 0 && self.quota_rows == 0 && !self.was_complete
            },
            BackfillAction::AskCancelled(EpochBackfillCancellationPoint::UsageRow) => {
                self.quota_rows == 0 && self.row < self.usage_rows && !self.was_complete
            },
            BackfillAction::AskCancelled(EpochBackfillCancellationPoint::QuotaRow) => {
                self.row < self.quota_rows && self.usage_exhausted() && !self.was_complete
            },
            BackfillAction::AskCancelled(EpochBackfillCancellationPoint::CompletionMarker) => {
                self.leaves_nothing() && !self.was_complete
            },
            BackfillAction::AskCancelled(EpochBackfillCancellationPoint::Commit) => {
                self.was_complete ==> self.usage_rows == 0 && self.quota_rows == 0
            },
            BackfillAction::CheckComplete => self.usage_rows == 0 && self.quota_rows == 0,
            BackfillAction::BeginAndCheckComplete => self.usage_rows == 0 && self.quota_rows == 0
                && self.batch_size > 0 && !self.was_complete,
            BackfillAction::LoadUsageRows(limit) => self.usage_rows == 0 && self.quota_rows == 0
                && limit == self.batch_size && limit > 0 && !self.was_complete,
            BackfillAction::MigrateUsageRow(place) => self.quota_rows == 0 && place == self.row
                && self.row < self.usage_rows && !self.was_complete,
            BackfillAction::SaveUsageCursor => self.quota_rows == 0 && self.usage_rows > 0
                && !self.was_complete,
            BackfillAction::LoadQuotaRows(limit) => self.quota_rows == 0 && self.usage_exhausted()
                && limit == self.room_for_quota() && !self.was_complete,
            BackfillAction::MigrateQuotaRow(place) => place == self.row && self.row
                < self.quota_rows && self.usage_exhausted() && !self.was_complete,
            BackfillAction::SaveQuotaCursor => self.quota_rows > 0 && self.usage_exhausted()
                && !self.was_complete,
            BackfillAction::MarkComplete => self.leaves_nothing() && !self.was_complete,
            BackfillAction::Commit => self.was_complete ==> self.usage_rows == 0
                && self.quota_rows == 0,
            BackfillAction::Finish(progress) => progress.usage_rows_updated == self.usage_rows
                && progress.quota_rows_updated == self.quota_rows,
            BackfillAction::Abandon => true,
        }
    }

    /// How far the batch is from its end, in stages.
    pub open spec fn stages_left(self) -> int {
        match self.action {
            BackfillAction::AskCancelled(point) => match point {
                EpochBackfillCancellationPoint::Transaction => 12,
                EpochBackfillCancellationPoint::UsageRow => 9,
                EpochBackfillCancellationPoint::QuotaRow => 6,
                EpochBackfillCancellationPoint::CompletionMarker => 4,
                EpochBackfillCancellationPoint::Commit => 2,
            },
            BackfillAction::CheckComplete => 11,
            BackfillAction::BeginAndCheckComplete => 11,
            BackfillAction::LoadUsageRows(_) => 10,
            BackfillAction::MigrateUsageRow(_) => 9,
            BackfillAction::SaveUsageCursor => 8,
            BackfillAction::LoadQuotaRows(_) => 7,
            BackfillAction::MigrateQuotaRow(_) => 6,
            BackfillAction::SaveQuotaCursor => 5,
            BackfillAction::MarkComplete => 3,
            BackfillAction::Commit => 1,
            BackfillAction::Finish(_) => 0,
            BackfillAction::Abandon => 0,
        }
    }

    /// How far the batch is from the end of its stage, in steps.
    pub open spec fn steps_left(self) -> int {
        match self.action {
            BackfillAction::AskCancelled(EpochBackfillCancellationPoint::UsageRow) => {
                (self.usage_rows - self.row) * 2 + 1
            },
            BackfillAction::MigrateUsageRow(_) => (self.usage_rows - self.row) * 2,
            BackfillAction::AskCancelled(EpochBackfillCancellationPoint::QuotaRow) => {
                (self.quota_rows - self.row) * 2 + 1
            },
            BackfillAction::MigrateQuotaRow(_) => (self.quota_rows - self.row) * 2,
            _ => 0,
        }
    }

    /// A batch that is to take up at most `batch_size` rows.
    pub fn new(batch_size: usize) -> (batch: EpochBackfill)
        ensures
            batch == EpochBackfill::start(batch_size),
            batch.is_bounded(),
    {
        EpochBackfill {
            batch_size: if batch_size < MAX_BATCH_SIZE {
                batch_size
            } else {
                MAX_BATCH_SIZE
            },
            was_complete: false,
            usage_rows: 0,
            quota_rows: 0,
            row: 0,
            action: BackfillAction::AskCancelled(EpochBackfillCancellationPoint::Transaction),
        }
    }

    fn finish_rows(&mut self)
        requires
            old(self).usage_rows <= old(self).batch_size,
        ensures
            *final(self) == old(self).after_rows(),
    {
        let nothing_left = self.usage_rows < self.batch_size && self.quota_rows < self.batch_size
            - self.usage_rows;
        self.action = if nothing_left {
            BackfillAction::AskCancelled(EpochBackfillCancellationPoint::CompletionMarker)
        } else {
            BackfillAction::AskCancelled(EpochBackfillCancellationPoint::Commit)
        };
    }

    fn finish_usage(&mut self)
        requires
            old(self).usage_rows <= old(self).batch_size,
        ensures
            *final(self) == old(self).after_usage(),
    {
        if self.usage_rows < self.batch_size {
            self.action = BackfillAction::LoadQuotaRows(self.batch_size - self.usage_rows);
        } else {
            self.finish_rows();
        }
    }

    fn go_to_usage_row(&mut self)
        requires
            old(self).usage_rows <= old(self).batch_size,
        ensures
            *final(self) == old(self).at_usage_row(),
    {
        if self.row < self.usage_rows {
            self.action = BackfillAction::AskCancelled(EpochBackfillCancellationPoint::UsageRow);
        } else if self.usage_rows > 0 {
            self.action = BackfillAction::SaveUsageCursor;
        } else {
            self.finish_usage();
        }
    }

    fn go_to_quota_row(&mut self)
        requires
            old(self).usage_rows <= old(self).batch_size,
        ensures
            *final(self) == old(self).at_quota_row(),
    {
        if self.row < self.quota_rows {
            self.action = BackfillAction::AskCancelled(EpochBackfillCancellationPoint::QuotaRow);
        } else if self.quota_rows > 0 {
            self.action = BackfillAction::SaveQuotaCursor;
        } else {
            self.finish_rows();
        }
    }

    /// Goes on after a reply to what the batch wanted.
    pub fn advance(&mut self, reply: BackfillReply)
        requires
            old(self).is_bounded(),
            old(self).answers(reply),
        ensures
            *final(self) == old(self).next(reply),
            final(self).is_bounded(),
    {
        proof {
            bounds_are_kept(*self, reply);
        }
        match (self.action, reply) {
            (BackfillAction::AskCancelled(point), BackfillReply::Cancelled(cancelled)) => {
                if cancelled {
                    self.action = BackfillAction::Abandon;
                } else {
                    self.action = match point {
                        EpochBackfillCancellationPoint::Transaction => if self.batch_size == 0 {
                            BackfillAction::CheckComplete
                        } else {
                            BackfillAction::BeginAndCheckComplete
                        },
                        EpochBackfillCancellationPoint::UsageRow => BackfillAction::MigrateUsageRow(
                            self.row,
                        ),
                        EpochBackfillCancellationPoint::QuotaRow => BackfillAction::MigrateQuotaRow(
                            self.row,
                        ),
                        EpochBackfillCancellationPoint::CompletionMarker => {
                            BackfillAction::MarkComplete
                        },
                        EpochBackfillCancellationPoint::Commit => BackfillAction::Commit,
                    };
                }
            },
            (BackfillAction::CheckComplete, BackfillReply::Complete(complete)) => {
                self.action = BackfillAction::Finish(
                    EpochBackfillProgress {
                        usage_rows_updated: 0,
                        quota_rows_updated: 0,
                        complete,
                    },
                );
            },
            (BackfillAction::BeginAndCheckComplete, BackfillReply::Complete(complete)) => {
                if complete {
                    self.was_complete = true;
                    self.action = BackfillAction::AskCancelled(
                        EpochBackfillCancellationPoint::Commit,
                    );
                } else {
                    self.action = BackfillAction::LoadUsageRows(self.batch_size);
                }
            },
            (BackfillAction::LoadUsageRows(_), BackfillReply::Loaded(count)) => {
                self.usage_rows = count;
                self.row = 0;
                self.go_to_usage_row();
            },
            (BackfillAction::MigrateUsageRow(_), BackfillReply::Done) => {
                self.row = self.row + 1;
                self.go_to_usage_row();
            },
            (BackfillAction::SaveUsageCursor, BackfillReply::Done) => {
                self.finish_usage();
            },
            (BackfillAction::LoadQuotaRows(_), BackfillReply::Loaded(count)) => {
                self.quota_rows = count;
                self.row = 0;
                self.go_to_quota_row();
            },
            (BackfillAction::MigrateQuotaRow(_), BackfillReply::Done) => {
                self.row = self.row + 1;
                self.go_to_quota_row();
            },
            (BackfillAction::SaveQuotaCursor, BackfillReply::Done) => {
                self.finish_rows();
            },
            (BackfillAction::MarkComplete, BackfillReply::Done) => {
                self.action = BackfillAction::AskCancelled(EpochBackfillCancellationPoint::Commit);
            },
            (BackfillAction::Commit, BackfillReply::Done) => {
                let nothing_left = self.usage_rows < self.batch_size && self.quota_rows
                    < self.batch_size - self.usage_rows;
                self.action = BackfillAction::Finish(
                    EpochBackfillProgress {
                        usage_rows_updated: self.usage_rows,
                        quota_rows_updated: self.quota_rows,
                        complete: self.was_complete || nothing_left,
                    },
                );
            },
            _ => {},
        }
    }
}

/// A batch keeps its bounds whatever it is answered: it never takes up more rows than its size,
/// and its size is never above the maximum.
pub proof fn bounds_are_kept(batch: EpochBackfill, reply: BackfillReply)
    requires
        batch.is_bounded(),
        batch.answers(reply),
    ensures
        batch.next(reply).is_bounded(),
        batch.next(reply).batch_size == batch.batch_size,
{
}

/// Every answer brings a batch nearer to its end, so it ends.
pub proof fn every_answer_advances(batch: EpochBackfill, reply: BackfillReply)
    requires
        batch.is_bounded(),
        batch.answers(reply),
    ensures
        0 <= batch.next(reply).stages_left() <= batch.stages_left(),
        batch.next(reply).stages_left() == batch.stages_left() ==> 0 <= batch.next(
            reply,
        ).steps_left() < batch.steps_left(),
{
}

/// A batch that is given up commits nothing: it ends there and then.
pub proof fn cancelled_batch_is_abandoned(batch: EpochBackfill)
    requires
        batch.action is AskCancelled,
    ensures
        batch.next(BackfillReply::Cancelled(true)).action == BackfillAction::Abandon,
        forall|reply: BackfillReply|
            !batch.next(BackfillReply::Cancelled(true)).answers(reply),
{
}

/// The note that nothing is left is written only by a batch that found fewer rows of both kinds
/// than it asked for, and one that reports completion either wrote it or found it written.
pub proof fn completion_is_earned(batch: EpochBackfill, reply: BackfillReply)
    requires
        batch.is_bounded(),
        batch.answers(reply),
    ensures
        batch.next(reply).action == BackfillAction::MarkComplete ==> batch.usage_rows
            < batch.batch_size && batch.usage_rows + batch.quota_rows < batch.batch_size,
        batch.action == BackfillAction::Commit ==> batch.next(reply).action
            == BackfillAction::Finish(
            EpochBackfillProgress {
                usage_rows_updated: batch.usage_rows,
                quota_rows_updated: batch.quota_rows,
                complete: batch.was_complete || batch.usage_rows + batch.quota_rows
                    < batch.batch_size,
            },
        ),
        batch.next(reply).was_complete && !batch.was_complete ==> reply == BackfillReply::Complete(
            true,
        ),
{
}

/// What must be done about one stored time.
#[derive(Debug)]
pub enum TimePlan {
    /// It is there already.
    Keep,
    /// It is this.
    Store(i64),
    /// Its text cannot be read, for this reason: it is set aside.
    Quarantine(String),
}

/// Whether `plan` is what must be done about a stored time whose text reads so.
pub open spec fn fits_reading(
    plan: TimePlan,
    read: Result<i64, Seq<char>>,
    stored: Option<i64>,
) -> bool {
    match (stored, read) {
        (Some(_), _) => plan is Keep,
        (None, Ok(millis)) => plan == TimePlan::Store(millis),
        (None, Err(reason)) => plan matches TimePlan::Quarantine(message) && message@ == reason,
    }
}

/// Whether `plan` is what must be done about a stored time with this text.
pub open spec fn fits_time(plan: TimePlan, text: Seq<char>, stored: Option<i64>) -> bool {
    fits_reading(plan, epoch_millis(text), stored)
}

/// What must be done about a stored time whose text reads so: nothing where the time is there.
pub fn plan_read_time(read: Result<i64, String>, stored: Option<i64>) -> (plan: TimePlan)
    ensures
        fits_reading(
            plan,
            match read {
                Ok(millis) => Ok(millis),
                Err(reason) => Err(reason@),
            },
            stored,
        ),
{
    if stored.is_some() {
        return TimePlan::Keep;
    }
    match read {
        Ok(millis) => TimePlan::Store(millis),
        Err(reason) => TimePlan::Quarantine(reason),
    }
}

/// What must be done about a stored time: nothing where it is there, else what its text says.
pub fn plan_missing_time(text: &str, stored: Option<i64>) -> (plan: TimePlan)
    ensures
        fits_time(plan, text@, stored),
{
    if stored.is_some() {
        return TimePlan::Keep;
    }
    plan_read_time(parse_epoch_millis(text), stored)
}

/// A stored time that was filled in is not touched again.
pub proof fn filled_time_is_kept(plan: TimePlan, text: Seq<char>, millis: i64)
    requires
        fits_time(plan, text, Some(millis)),
    ensures
        plan is Keep,
{
}

/// A usage row as it is stored.
#[derive(Clone, Debug)]
pub struct UsageEpochRow {
    pub id: i64,
    pub timestamp: String,
    pub timestamp_ms: Option<i64>,
}

/// What must be done about a usage row.
pub fn migrate_usage_row(row: &UsageEpochRow) -> (plan: TimePlan)
    ensures
        fits_time(plan, row.timestamp@, row.timestamp_ms),
{
    plan_missing_time(row.timestamp.as_str(), row.timestamp_ms)
}

/// A rate-limit row as it is stored.
#[derive(Clone, Debug)]
pub struct QuotaEpochRow {
    pub id: i64,
    pub sample_timestamp: String,
    pub sample_timestamp_ms: Option<i64>,
    pub window_start: String,
    pub window_start_ms: Option<i64>,
    pub resets_at: String,
    pub resets_at_ms: Option<i64>,
}

/// What must be done about the three times of a rate-limit row.
#[derive(Debug)]
pub struct QuotaRowPlan {
    pub sample_timestamp: TimePlan,
    pub window_start: TimePlan,
    pub resets_at: TimePlan,
}

/// What must be done about the three times of a rate-limit row, each by itself.
pub fn migrate_quota_row(row: &QuotaEpochRow) -> (plan: QuotaRowPlan)
    ensures
        fits_time(plan.sample_timestamp, row.sample_timestamp@, row.sample_timestamp_ms),
        fits_time(plan.window_start, row.window_start@, row.window_start_ms),
        fits_time(plan.resets_at, row.resets_at@, row.resets_at_ms),
{
    QuotaRowPlan {
        sample_timestamp: plan_missing_time(
            row.sample_timestamp.as_str(),
            row.sample_timestamp_ms,
        ),
        window_start: plan_missing_time(row.window_start.as_str(), row.window_start_ms),
        resets_at: plan_missing_time(row.resets_at.as_str(), row.resets_at_ms),
    }
}

impl QuotaRowPlan {
    /// Whether the row must be written: one of its times is filled in.
    pub fn needs_update(&self) -> (result: bool)
        ensures
            result == (self.sample_timestamp is Store || self.window_start is Store
                || self.resets_at is Store),
    {
        matches!(self.sample_timestamp, TimePlan::Store(_)) || matches!(
            self.window_start,
            TimePlan::Store(_)
        ) || matches!(self.resets_at, TimePlan::Store(_))
    }
}

} // verus!
