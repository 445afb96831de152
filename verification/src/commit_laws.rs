//! What a commit has done by the time it is made to last.

use crate::repairs::RepairStates;
use crate::scan_commit::{CommitAction, CommitReply, ScanCommit};
use crate::scan_files::ScanKind;
use crate::scan_plan::{
    effective_kind, kind_name, planned_commit, same_source, swept_keys, LinkAction,
    ScanProgressView, SourceRecord,
};
use crate::text::opt_text;
use vstd::prelude::*;

verus! {

/// Whether a commit, on its way through these answers, came to an action and was answered there.
pub open spec fn has_done(
    start: ScanCommit,
    replies: Seq<CommitReply>,
    action: CommitAction,
) -> bool {
    exists|count: int|
        0 <= count < replies.len() && (#[trigger] start.run(replies.take(count))).action == action
}

/// How far a commit has come.
spec fn stage_of(action: CommitAction) -> int {
    match action {
        CommitAction::LoadSource => 0,
        CommitAction::PreviewFreshness => 1,
        CommitAction::NoteStarted => 2,
        CommitAction::MarkFailure(_) => 3,
        CommitAction::StoreSessions => 4,
        CommitAction::RefreshTitles => 5,
        CommitAction::MarkMissing => 6,
        CommitAction::CheckLinks => 7,
        CommitAction::RecomputeLinks => 8,
        CommitAction::InsertRootLinks => 8,
        CommitAction::CountMissing => 9,
        CommitAction::MarkRepairComplete(_) => 10,
        CommitAction::NoteCompleted { .. } => 11,
        CommitAction::AdvanceRevision => 12,
        CommitAction::Commit => 13,
        CommitAction::Finish => 14,
        CommitAction::Refuse(_) => -1,
    }
}

proof fn what_was_done_stays_done(
    start: ScanCommit,
    replies: Seq<CommitReply>,
    action: CommitAction,
)
    requires
        replies.len() > 0,
        has_done(start, replies.drop_last(), action) || start.run(replies.drop_last()).action
            == action,
    ensures
        has_done(start, replies, action),
{
    let shorter = replies.drop_last();
    if has_done(start, shorter, action) {
        let count = choose|count: int|
            0 <= count < shorter.len() && (#[trigger] start.run(shorter.take(count))).action
                == action;
        assert(shorter.take(count) =~= replies.take(count));
        assert(start.run(replies.take(count)).action == action);
    } else {
        assert(shorter =~= replies.take(replies.len() - 1));
        assert(start.run(replies.take(replies.len() - 1)).action == action);
    }
}

/// Whether a commit must compute all links anew, whatever the store says of them.
pub open spec fn must_recompute(commit: ScanCommit) -> bool {
    commit.progress.topology_dirty || commit.links_need_repair
}

/// What a commit is about stays the same, and what it did stays done.
proof fn step_of_a_commit(start: ScanCommit, replies: Seq<CommitReply>)
    requires
        replies.len() > 0,
    ensures
        ({
            let before = start.run(replies.drop_last());
            &&& start.run(replies) == before.next(replies.last())
            &&& before.kind == start.kind
            &&& before.progress == start.progress
            &&& before.repairs == start.repairs
            &&& before.links_need_repair == start.links_need_repair
            &&& before.track_scan_freshness == start.track_scan_freshness
            &&& before.progress@.failures.len() == start.progress.parse_failures.len()
            &&& before.progress@.new_root_session_ids.len()
                == start.progress.new_root_session_ids.len()
            &&& has_done(start, replies, before.action)
            &&& forall|action: CommitAction|
                has_done(start, replies.drop_last(), action) ==> #[trigger] has_done(
                    start,
                    replies,
                    action,
                )
        }),
    decreases replies.len(),
{
    let shorter = replies.drop_last();
    if shorter.len() > 0 {
        step_of_a_commit(start, shorter);
    }
    what_was_done_stays_done(start, replies, start.run(shorter).action);
    assert forall|action: CommitAction|
        has_done(start, shorter, action) implies #[trigger] has_done(start, replies, action) by {
        what_was_done_stays_done(start, replies, action);
    }
    assert(start.run(shorter).progress@.failures.len() == start.progress.parse_failures.len());
    assert(start.run(shorter).progress@.new_root_session_ids.len()
        == start.progress.new_root_session_ids.len());
}

proof fn first_stages_are_done(start: ScanCommit, replies: Seq<CommitReply>)
    requires
        start.action == CommitAction::LoadSource,
        start.is_answered(replies),
    ensures
        ({
            let commit = start.run(replies);
            let stage = stage_of(commit.action);
            &&& stage > 0 ==> has_done(start, replies, CommitAction::LoadSource)
            &&& stage > 2 && start.track_scan_freshness ==> has_done(
                start,
                replies,
                CommitAction::NoteStarted,
            )
            &&& stage > 4 ==> has_done(start, replies, CommitAction::StoreSessions)
            &&& stage > 5 && start.kind != ScanKind::Incremental ==> has_done(
                start,
                replies,
                CommitAction::RefreshTitles,
            )
            &&& stage > 6 ==> has_done(start, replies, CommitAction::MarkMissing)
        }),
    decreases replies.len(),
{
    if replies.len() > 0 {
        first_stages_are_done(start, replies.drop_last());
        step_of_a_commit(start, replies);
    }
}

proof fn failures_are_done(start: ScanCommit, replies: Seq<CommitReply>)
    requires
        start.action == CommitAction::LoadSource,
        start.is_answered(replies),
    ensures
        ({
            let commit = start.run(replies);
            let stage = stage_of(commit.action);
            let failures = start.progress.parse_failures.len() as int;
            &&& commit.action is MarkFailure ==> commit.action->MarkFailure_0 < failures
            &&& forall|place: usize|
                (stage > 3 && place < failures) || (commit.action is MarkFailure && place
                    < commit.action->MarkFailure_0) ==> #[trigger] has_done(
                    start,
                    replies,
                    CommitAction::MarkFailure(place),
                )
        }),
    decreases replies.len(),
{
    if replies.len() > 0 {
        failures_are_done(start, replies.drop_last());
        step_of_a_commit(start, replies);
        let commit = start.run(replies);
        let before = start.run(replies.drop_last());
        let failures = start.progress.parse_failures.len() as int;
        assert forall|place: usize|
            (stage_of(commit.action) > 3 && place < failures) || (commit.action is MarkFailure
                && place < commit.action->MarkFailure_0) implies #[trigger] has_done(
            start,
            replies,
            CommitAction::MarkFailure(place),
        ) by {
            assert(has_done(start, replies.drop_last(), CommitAction::MarkFailure(place))
                || before.action == CommitAction::MarkFailure(place));
        }
    }
}

proof fn links_are_done(start: ScanCommit, replies: Seq<CommitReply>)
    requires
        start.action == CommitAction::LoadSource,
        start.is_answered(replies),
    ensures
        ({
            let commit = start.run(replies);
            let stage = stage_of(commit.action);
            &&& stage > 7 && start.kind != ScanKind::Incremental && !start.links_need_repair
                ==> has_done(start, replies, CommitAction::CheckLinks)
            &&& stage > 8 && must_recompute(start) ==> has_done(
                start,
                replies,
                CommitAction::RecomputeLinks,
            )
            &&& stage > 8 && start.progress.new_root_session_ids.len() > 0 ==> has_done(
                start,
                replies,
                CommitAction::RecomputeLinks,
            ) || has_done(start, replies, CommitAction::InsertRootLinks)
            &&& stage == 8 && must_recompute(start) ==> commit.action
                == CommitAction::RecomputeLinks
            &&& commit.action is CheckLinks ==> !start.links_need_repair
        }),
    decreases replies.len(),
{
    if replies.len() > 0 {
        links_are_done(start, replies.drop_last());
        step_of_a_commit(start, replies);
    }
}

proof fn repairs_are_done(start: ScanCommit, replies: Seq<CommitReply>)
    requires
        start.action == CommitAction::LoadSource,
        start.is_answered(replies),
    ensures
        ({
            let commit = start.run(replies);
            let stage = stage_of(commit.action);
            let repairs = swept_keys(start.repairs).len() as int;
            &&& stage > 9 ==> has_done(start, replies, CommitAction::CountMissing)
            &&& commit.action is MarkRepairComplete ==> commit.action->MarkRepairComplete_0
                < repairs
            &&& forall|place: usize|
                (stage > 10 && place < repairs) || (commit.action is MarkRepairComplete && place
                    < commit.action->MarkRepairComplete_0) ==> #[trigger] has_done(
                    start,
                    replies,
                    CommitAction::MarkRepairComplete(place),
                )
        }),
    decreases replies.len(),
{
    if replies.len() > 0 {
        repairs_are_done(start, replies.drop_last());
        step_of_a_commit(start, replies);
        let commit = start.run(replies);
        let before = start.run(replies.drop_last());
        let repairs = swept_keys(start.repairs).len() as int;
        assert(repairs <= 3);
        assert forall|place: usize|
            (stage_of(commit.action) > 10 && place < repairs) || (commit.action
                is MarkRepairComplete && place
                < commit.action->MarkRepairComplete_0) implies #[trigger] has_done(
            start,
            replies,
            CommitAction::MarkRepairComplete(place),
        ) by {
            assert(has_done(start, replies.drop_last(), CommitAction::MarkRepairComplete(place))
                || before.action == CommitAction::MarkRepairComplete(place));
        }
    }
}

proof fn end_is_done(start: ScanCommit, replies: Seq<CommitReply>)
    requires
        start.action == CommitAction::LoadSource,
        start.is_answered(replies),
    ensures
        ({
            let commit = start.run(replies);
            let stage = stage_of(commit.action);
            let failures = start.progress.parse_failures.len() as int;
            let end = CommitAction::NoteCompleted {
                full_scan_completed: start.kind != ScanKind::Incremental && failures == 0,
                full_scan_invalidated: start.kind != ScanKind::Incremental && failures > 0,
            };
            &&& stage > 11 && commit.start_recorded ==> has_done(start, replies, end)
            &&& commit.action is NoteCompleted ==> commit.start_recorded && commit.action == end
            &&& stage > 12 ==> has_done(start, replies, CommitAction::AdvanceRevision)
        }),
    decreases replies.len(),
{
    if replies.len() > 0 {
        end_is_done(start, replies.drop_last());
        step_of_a_commit(start, replies);
    }
}

/// What is made to last is whole: by the time a scan is committed its source was looked at, every
/// unreadable file was kept pending, the sessions were stored, the missing ones marked and counted,
/// the links brought in order, every swept repair noted as complete, and the commit counted. A scan
/// that is not incremental has stored the titles and looked at the links; one whose start was
/// recorded has noted its end, as a completed full scan only where it left no file out.
pub proof fn committed_scan_is_whole(start: ScanCommit, replies: Seq<CommitReply>)
    requires
        start.action == CommitAction::LoadSource,
        start.is_answered(replies),
        start.run(replies).action is Commit || start.run(replies).action is Finish,
    ensures
        has_done(start, replies, CommitAction::LoadSource),
        start.track_scan_freshness ==> has_done(start, replies, CommitAction::NoteStarted),
        forall|place: usize|
            place < start.progress.parse_failures.len() ==> #[trigger] has_done(
                start,
                replies,
                CommitAction::MarkFailure(place),
            ),
        has_done(start, replies, CommitAction::StoreSessions),
        start.kind != ScanKind::Incremental ==> has_done(
            start,
            replies,
            CommitAction::RefreshTitles,
        ),
        has_done(start, replies, CommitAction::MarkMissing),
        start.kind != ScanKind::Incremental && !start.links_need_repair ==> has_done(
            start,
            replies,
            CommitAction::CheckLinks,
        ),
        must_recompute(start) ==> has_done(start, replies, CommitAction::RecomputeLinks),
        start.progress.new_root_session_ids.len() > 0 ==> has_done(
            start,
            replies,
            CommitAction::RecomputeLinks,
        ) || has_done(start, replies, CommitAction::InsertRootLinks),
        has_done(start, replies, CommitAction::CountMissing),
        forall|place: usize|
            place < swept_keys(start.repairs).len() ==> #[trigger] has_done(
                start,
                replies,
                CommitAction::MarkRepairComplete(place),
            ),
        start.run(replies).start_recorded ==> has_done(
            start,
            replies,
            CommitAction::NoteCompleted {
                full_scan_completed: start.kind != ScanKind::Incremental
                    && start.progress.parse_failures.len() == 0,
                full_scan_invalidated: start.kind != ScanKind::Incremental
                    && start.progress.parse_failures.len() > 0,
            },
        ),
        has_done(start, replies, CommitAction::AdvanceRevision),
{
    first_stages_are_done(start, replies);
    failures_are_done(start, replies);
    links_are_done(start, replies);
    repairs_are_done(start, replies);
    end_is_done(start, replies);
}

/// Links that are found wanting are computed anew.
pub proof fn wanting_links_are_recomputed(commit: ScanCommit)
    requires
        commit.action == CommitAction::CheckLinks,
    ensures
        commit.next(CommitReply::LinksNeedRepair(true)).action == CommitAction::RecomputeLinks,
        !commit.progress.topology_dirty && commit.progress.new_root_session_ids.len() == 0
            ==> commit.next(CommitReply::LinksNeedRepair(false)).action
            == CommitAction::CountMissing,
{
    assert(commit.progress@.new_root_session_ids.len()
        == commit.progress.new_root_session_ids.len());
}

/// What the store counts as missing is what the result says.
pub proof fn missing_sessions_are_as_counted(commit: ScanCommit, count: usize, reply: CommitReply)
    ensures
        commit.action == CommitAction::CountMissing ==> commit.next(
            CommitReply::Counted(count),
        ).missing_sessions == count,
        commit.action != CommitAction::CountMissing ==> commit.next(reply).missing_sessions
            == commit.missing_sessions,
{
}

/// Two records of the source are the same only where they agree in everything: the configured home,
/// the count of commits, and what is known of the last scans.
pub proof fn same_source_agrees_in_everything(left: SourceRecord, right: SourceRecord)
    ensures
        same_source(left, right) <==> {
            &&& opt_text(left.selector) == opt_text(right.selector)
            &&& left.scan_commit_revision == right.scan_commit_revision
            &&& opt_text(left.last_scan_codex_home) == opt_text(right.last_scan_codex_home)
            &&& opt_text(left.last_scan_started_at) == opt_text(right.last_scan_started_at)
            &&& opt_text(left.last_scan_completed_at) == opt_text(right.last_scan_completed_at)
            &&& opt_text(left.last_full_scan_completed_at) == opt_text(
                right.last_full_scan_completed_at,
            )
        },
        same_source(left, left),
        same_source(left, right) ==> same_source(right, left),
{
}

/// A scan is of the kind that was asked for unless something asks for a full one: that nothing was
/// imported yet, one of the two sweeps, or the source. Nothing makes a full scan less.
pub proof fn only_a_reason_makes_a_scan_full(
    requested: ScanKind,
    nothing_imported: bool,
    rate_limit_sweep: bool,
    usage_sweep: bool,
    source_asks: bool,
)
    ensures
        ({
            let kind = effective_kind(
                requested,
                nothing_imported,
                rate_limit_sweep,
                usage_sweep,
                source_asks,
            );
            &&& nothing_imported ==> kind == ScanKind::Full
            &&& rate_limit_sweep ==> kind == ScanKind::Full
            &&& usage_sweep ==> kind == ScanKind::Full
            &&& source_asks ==> kind == ScanKind::Full
            &&& !nothing_imported && !rate_limit_sweep && !usage_sweep && !source_asks ==> kind
                == requested
        }),
{
}

/// A commit of a scan that is no incremental one either counts it as a full scan or, where it left
/// a file out, takes the count from the one before; an incremental one does neither. Root links are
/// only added where all the others may stay.
pub proof fn commit_counts_full_scans(
    kind: ScanKind,
    progress: ScanProgressView,
    links_need_repair: bool,
)
    ensures
        ({
            let plan = planned_commit(kind, progress, links_need_repair);
            &&& kind == ScanKind::Incremental ==> !plan.full_scan_completed
                && !plan.full_scan_invalidated && !plan.refresh_titles
            &&& kind != ScanKind::Incremental ==> plan.refresh_titles && plan.full_scan_completed
                == (progress.failures.len() == 0) && plan.full_scan_invalidated
                == !plan.full_scan_completed
            &&& plan.links == LinkAction::RecomputeAll <==> progress.topology_dirty
                || links_need_repair
            &&& plan.links == LinkAction::InsertRoots <==> !progress.topology_dirty
                && !links_need_repair && progress.new_root_session_ids.len() > 0
        }),
{
}

/// The swept repairs are those whose sweep was to come, each once, by its own key.
pub proof fn swept_repairs_are_listed(repairs: RepairStates)
    ensures
        swept_keys(repairs).contains("rate_limit_sample_backfill_v1"@)
            <==> repairs.rate_limit.needs_sweep,
        swept_keys(repairs).contains("token_usage_monotonic_v2"@)
            <==> repairs.token_v2.needs_sweep,
        swept_keys(repairs).contains("token_usage_fork_replay_v3"@)
            <==> repairs.fork_replay_v3.needs_sweep,
        swept_keys(repairs).len() == (if repairs.rate_limit.needs_sweep {
            1int
        } else {
            0
        }) + (if repairs.token_v2.needs_sweep {
            1int
        } else {
            0
        }) + (if repairs.fork_replay_v3.needs_sweep {
            1int
        } else {
            0
        }),
{
    reveal_strlit("token_usage_monotonic_v2");
    reveal_strlit("token_usage_fork_replay_v3");
    reveal_strlit("rate_limit_sample_backfill_v1");
    assert("token_usage_monotonic_v2"@.len() == 24);
    assert("token_usage_fork_replay_v3"@.len() == 26);
    assert("rate_limit_sample_backfill_v1"@.len() == 29);
    let keys = swept_keys(repairs);
    let limits: int = if repairs.rate_limit.needs_sweep {
        1
    } else {
        0
    };
    let tokens: int = if repairs.token_v2.needs_sweep {
        1
    } else {
        0
    };
    if repairs.rate_limit.needs_sweep {
        assert(keys[0] == "rate_limit_sample_backfill_v1"@);
    }
    if repairs.token_v2.needs_sweep {
        assert(keys[limits] == "token_usage_monotonic_v2"@);
    }
    if repairs.fork_replay_v3.needs_sweep {
        assert(keys[limits + tokens] == "token_usage_fork_replay_v3"@);
    }
}

/// Each kind of scan is called by its own name.
pub proof fn kinds_are_called_by_their_names()
    ensures
        kind_name(ScanKind::Full) == "full"@,
        kind_name(ScanKind::Reconcile) == "reconcile"@,
        kind_name(ScanKind::Incremental) == "incremental"@,
{
}

} // verus!
