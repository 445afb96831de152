//! What a batch that fills in times does: which rows it takes up, and what it makes of a time.

use super::epoch_backfill::{
    fits_time, BackfillAction, BackfillReply, EpochBackfill, EpochBackfillCancellationPoint,
    EpochBackfillProgress, TimePlan,
};
use crate::timestamps::rfc3339;
use vstd::prelude::*;

verus! {

/// What a batch that is never given up is answered, where all that it wants is carried out.
pub open spec fn going_on(batch: EpochBackfill) -> BackfillReply {
    if batch.action is AskCancelled {
        BackfillReply::Cancelled(false)
    } else {
        BackfillReply::Done
    }
}

/// A batch after so many answers, where it is never given up and all that it wants is carried out.
pub open spec fn gone_on(batch: EpochBackfill, answers: nat) -> EpochBackfill
    decreases answers,
{
    if answers == 0 {
        batch
    } else {
        let before = gone_on(batch, (answers - 1) as nat);
        before.next(going_on(before))
    }
}

/// A batch asks first, and takes up no more rows than it was asked for and than the limit of a
/// thousand.
pub proof fn batch_starts_by_asking(requested: usize)
    ensures
        ({
            let batch = EpochBackfill::start(requested);
            let begun = batch.next(BackfillReply::Cancelled(false));
            &&& batch.action == BackfillAction::AskCancelled(
                EpochBackfillCancellationPoint::Transaction,
            )
            &&& batch.batch_size <= 1_000
            &&& batch.batch_size <= requested
            &&& requested <= 1_000 ==> batch.batch_size == requested
            &&& requested > 1_000 ==> batch.batch_size == 1_000
            &&& requested == 0 ==> begun.action == BackfillAction::CheckComplete
            &&& requested > 0 ==> begun.action == BackfillAction::BeginAndCheckComplete
            &&& requested > 0 ==> begun.next(BackfillReply::Complete(false)).action
                == BackfillAction::LoadUsageRows(batch.batch_size)
        }),
{
}

/// A batch of no rows changes nothing: it says whether anything is left to do, and ends.
pub proof fn empty_batch_only_looks(complete: bool)
    ensures
        EpochBackfill::start(0).next(BackfillReply::Cancelled(false)).next(
            BackfillReply::Complete(complete),
        ).action == BackfillAction::Finish(
            EpochBackfillProgress { usage_rows_updated: 0, quota_rows_updated: 0, complete },
        ),
{
}

/// A batch that finds nothing left to do takes up no row, and says so.
pub proof fn completed_work_is_left_alone(requested: usize)
    requires
        requested > 0,
    ensures
        ({
            let found = EpochBackfill::start(requested).next(BackfillReply::Cancelled(false)).next(
                BackfillReply::Complete(true),
            );
            &&& found.action == BackfillAction::AskCancelled(EpochBackfillCancellationPoint::Commit)
            &&& gone_on(found, 1).action == BackfillAction::Commit
            &&& gone_on(found, 2).action == BackfillAction::Finish(
                EpochBackfillProgress {
                    usage_rows_updated: 0,
                    quota_rows_updated: 0,
                    complete: true,
                },
            )
        }),
{
    let found = EpochBackfill::start(requested).next(BackfillReply::Cancelled(false)).next(
        BackfillReply::Complete(true),
    );
    assert(gone_on(found, 0) == found);
    assert(gone_on(found, 1) == found.next(going_on(found)));
    assert(gone_on(found, 2) == gone_on(found, 1).next(going_on(gone_on(found, 1))));
}

proof fn usage_rows_follow(batch: EpochBackfill, count: usize, row: nat)
    requires
        batch.action is LoadUsageRows,
        0 < count <= batch.batch_size,
        row < count,
    ensures
        ({
            let loaded = batch.next(BackfillReply::Loaded(count));
            gone_on(loaded, 2 * row) == (EpochBackfill { row: row as usize, ..loaded })
        }),
        ({
            let loaded = batch.next(BackfillReply::Loaded(count));
            loaded.action == BackfillAction::AskCancelled(EpochBackfillCancellationPoint::UsageRow)
                && loaded.usage_rows == count && loaded.row == 0
        }),
    decreases row,
{
    let loaded = batch.next(BackfillReply::Loaded(count));
    if row > 0 {
        usage_rows_follow(batch, count, (row - 1) as nat);
        let before = gone_on(loaded, (2 * (row - 1)) as nat);
        let migrating = gone_on(loaded, (2 * (row - 1) + 1) as nat);
        assert(migrating == before.next(going_on(before)));
        assert(gone_on(loaded, 2 * row) == migrating.next(going_on(migrating)));
    } else {
        assert(gone_on(loaded, 0) == loaded);
    }
}

/// Every usage row that was loaded is migrated, one after the other, and only after the last one
/// the cursor moves. The rate-limit rows follow where the batch has room left, as many as that is,
/// and not otherwise.
pub proof fn loaded_usage_rows_are_migrated(batch: EpochBackfill, count: usize, row: nat)
    requires
        batch.action is LoadUsageRows,
        0 < count <= batch.batch_size,
        row < count,
    ensures
        ({
            let loaded = batch.next(BackfillReply::Loaded(count));
            let end = gone_on(loaded, 2 * count as nat);
            let saved = end.next(BackfillReply::Done);
            &&& gone_on(loaded, 2 * row).action == BackfillAction::AskCancelled(
                EpochBackfillCancellationPoint::UsageRow,
            )
            &&& gone_on(loaded, 2 * row + 1).action == BackfillAction::MigrateUsageRow(
                row as usize,
            )
            &&& end.action == BackfillAction::SaveUsageCursor
            &&& end.usage_rows == count
            &&& count < batch.batch_size ==> saved.action == BackfillAction::LoadQuotaRows(
                (batch.batch_size - count) as usize,
            )
            &&& count == batch.batch_size && batch.quota_rows == 0 ==> saved.action
                == BackfillAction::AskCancelled(EpochBackfillCancellationPoint::Commit)
        }),
{
    let loaded = batch.next(BackfillReply::Loaded(count));
    usage_rows_follow(batch, count, row);
    let asking = gone_on(loaded, 2 * row);
    assert(gone_on(loaded, 2 * row + 1) == asking.next(going_on(asking)));
    usage_rows_follow(batch, count, (count - 1) as nat);
    let last = gone_on(loaded, (2 * (count - 1)) as nat);
    let migrating = gone_on(loaded, (2 * (count - 1) + 1) as nat);
    assert(migrating == last.next(going_on(last)));
    assert(gone_on(loaded, 2 * count as nat) == migrating.next(going_on(migrating)));
}

/// Where no usage row is left the batch goes over to the rate-limit rows at once.
pub proof fn quota_rows_follow_usage_rows(batch: EpochBackfill)
    requires
        batch.action is LoadUsageRows,
        batch.batch_size > 0,
    ensures
        batch.next(BackfillReply::Loaded(0)).action == BackfillAction::LoadQuotaRows(
            batch.batch_size,
        ),
{
}

proof fn quota_rows_follow(batch: EpochBackfill, count: usize, row: nat)
    requires
        batch.action is LoadQuotaRows,
        0 < count,
        row < count,
    ensures
        ({
            let loaded = batch.next(BackfillReply::Loaded(count));
            gone_on(loaded, 2 * row) == (EpochBackfill { row: row as usize, ..loaded })
        }),
        ({
            let loaded = batch.next(BackfillReply::Loaded(count));
            loaded.action == BackfillAction::AskCancelled(EpochBackfillCancellationPoint::QuotaRow)
                && loaded.quota_rows == count && loaded.row == 0
        }),
    decreases row,
{
    let loaded = batch.next(BackfillReply::Loaded(count));
    if row > 0 {
        quota_rows_follow(batch, count, (row - 1) as nat);
        let before = gone_on(loaded, (2 * (row - 1)) as nat);
        let migrating = gone_on(loaded, (2 * (row - 1) + 1) as nat);
        assert(migrating == before.next(going_on(before)));
        assert(gone_on(loaded, 2 * row) == migrating.next(going_on(migrating)));
    } else {
        assert(gone_on(loaded, 0) == loaded);
    }
}

/// Every rate-limit row that was loaded is migrated, one after the other, and only after the last
/// one the cursor moves. The note that nothing is left follows where fewer rows of both kinds were
/// found than there was room for, and then the commit, which reports what was taken up.
pub proof fn loaded_quota_rows_are_migrated(batch: EpochBackfill, count: usize, row: nat)
    requires
        batch.action is LoadQuotaRows,
        !batch.was_complete,
        0 < count,
        batch.usage_rows + count <= batch.batch_size,
        row < count,
    ensures
        ({
            let loaded = batch.next(BackfillReply::Loaded(count));
            let end = gone_on(loaded, 2 * count as nat);
            let saved = end.next(BackfillReply::Done);
            let left = batch.usage_rows + count < batch.batch_size;
            &&& gone_on(loaded, 2 * row).action == BackfillAction::AskCancelled(
                EpochBackfillCancellationPoint::QuotaRow,
            )
            &&& gone_on(loaded, 2 * row + 1).action == BackfillAction::MigrateQuotaRow(
                row as usize,
            )
            &&& end.action == BackfillAction::SaveQuotaCursor
            &&& left ==> saved.action == BackfillAction::AskCancelled(
                EpochBackfillCancellationPoint::CompletionMarker,
            ) && saved.next(BackfillReply::Cancelled(false)).action == BackfillAction::MarkComplete
            &&& !left ==> saved.action == BackfillAction::AskCancelled(
                EpochBackfillCancellationPoint::Commit,
            ) && saved.next(BackfillReply::Cancelled(false)).next(BackfillReply::Done).action
                == BackfillAction::Finish(
                EpochBackfillProgress {
                    usage_rows_updated: batch.usage_rows,
                    quota_rows_updated: count,
                    complete: false,
                },
            )
            &&& left ==> saved.next(BackfillReply::Cancelled(false)).next(BackfillReply::Done).next(
                BackfillReply::Cancelled(false),
            ).next(BackfillReply::Done).action == BackfillAction::Finish(
                EpochBackfillProgress {
                    usage_rows_updated: batch.usage_rows,
                    quota_rows_updated: count,
                    complete: true,
                },
            )
        }),
{
    let loaded = batch.next(BackfillReply::Loaded(count));
    quota_rows_follow(batch, count, row);
    let asking = gone_on(loaded, 2 * row);
    assert(gone_on(loaded, 2 * row + 1) == asking.next(going_on(asking)));
    quota_rows_follow(batch, count, (count - 1) as nat);
    let last = gone_on(loaded, (2 * (count - 1)) as nat);
    let migrating = gone_on(loaded, (2 * (count - 1) + 1) as nat);
    assert(migrating == last.next(going_on(last)));
    assert(gone_on(loaded, 2 * count as nat) == migrating.next(going_on(migrating)));
}

/// Where no row of either kind is left the batch notes that.
pub proof fn nothing_left_is_noted(batch: EpochBackfill)
    requires
        batch.action is LoadQuotaRows,
        batch.usage_rows < batch.batch_size,
        !batch.was_complete,
    ensures
        ({
            let loaded = batch.next(BackfillReply::Loaded(0));
            &&& loaded.action == BackfillAction::AskCancelled(
                EpochBackfillCancellationPoint::CompletionMarker,
            )
            &&& gone_on(loaded, 1).action == BackfillAction::MarkComplete
            &&& gone_on(loaded, 2).action == BackfillAction::AskCancelled(
                EpochBackfillCancellationPoint::Commit,
            )
            &&& gone_on(loaded, 3).action == BackfillAction::Commit
            &&& gone_on(loaded, 4).action == BackfillAction::Finish(
                EpochBackfillProgress {
                    usage_rows_updated: batch.usage_rows,
                    quota_rows_updated: 0,
                    complete: true,
                },
            )
        }),
{
    let loaded = batch.next(BackfillReply::Loaded(0));
    assert(gone_on(loaded, 0) == loaded);
    assert(gone_on(loaded, 1) == loaded.next(going_on(loaded)));
    assert(gone_on(loaded, 2) == gone_on(loaded, 1).next(going_on(gone_on(loaded, 1))));
    assert(gone_on(loaded, 3) == gone_on(loaded, 2).next(going_on(gone_on(loaded, 2))));
    assert(gone_on(loaded, 4) == gone_on(loaded, 3).next(going_on(gone_on(loaded, 3))));
}

/// A time that is there stays; a missing one becomes what its text says in milliseconds; and where
/// the text says no moment, the time is set aside with the reason. Nothing else becomes of it.
pub proof fn missing_time_is_that_of_its_text(
    plan: TimePlan,
    text: Seq<char>,
    stored: Option<i64>,
)
    requires
        fits_time(plan, text, stored),
    ensures
        plan is Keep <==> stored is Some,
        plan is Store <==> stored is None && rfc3339(text) is Ok,
        plan matches TimePlan::Store(millis) ==> (rfc3339(text) matches Ok(moment) && moment.millis
            == millis),
        plan matches TimePlan::Quarantine(reason) ==> (rfc3339(text) matches Err(message) && message
            == reason@),
{
}

} // verus!
