//! How a batch gets from its first page to its last.
use crate::comic_visual::ComicVisualManifest;
use crate::comic_visual_batch::{
    claimed, counted, driver_error_recorded, first_open, is_open, lemma_synced_upto_members,
    model_resolved, outcomes_known, ready_count, released, relinked, resume_answer, resume_basis,
    resume_linked, resumed, retry_linked, run_by_id, run_has_id, run_status, synced, synced_upto,
    unleased, BatchView, MemberView, ScopedRun,
};
use crate::comic_visual_batch_driver::{
    is_next_index, members_installed, next_step, scope_step, starts_member, PendingView,
    StartAction,
};
use crate::json::{field, lemma_lookup_push, text_at, JsonView};
use crate::sequence::{lemma_find_first, lemma_first_index};
use vstd::prelude::*;

verus! {

proof fn lemma_statuses()
    ensures
        "candidate_ready"@ != "running"@,
        "candidate_ready"@ != "authorized"@,
        "candidate_ready"@ != "blocked_config"@,
        "candidate_ready"@ != "failed"@,
        "candidate_ready"@ != "needs_reconcile"@,
        "candidate_ready"@ != "blocked_stale"@,
        "candidate_ready"@ != "waiting_text"@,
        "candidate_ready"@ != "preparing"@,
        "candidate_ready"@ != "queued"@,
        "needs_reconcile"@ != "blocked_config"@,
        "needs_reconcile"@ != "failed"@,
        "needs_reconcile"@ != "running"@,
        "needs_reconcile"@ != "authorized"@,
        "needs_reconcile"@ != "blocked_stale"@,
        "blocked_stale"@ != "blocked_config"@,
        "blocked_stale"@ != "failed"@,
        "blocked_stale"@ != "running"@,
        "blocked_stale"@ != "authorized"@,
        "failed"@ != "blocked_config"@,
        "failed"@ != "running"@,
        "failed"@ != "queued"@,
        "failed"@ != "authorized"@,
        "queued"@ != "running"@,
        "queued"@ != "blocked_config"@,
        "queued"@ != "needs_reconcile"@,
        "running"@ != "blocked_config"@,
{
    reveal_strlit("candidate_ready");
    reveal_strlit("running");
    reveal_strlit("authorized");
    reveal_strlit("blocked_config");
    reveal_strlit("failed");
    reveal_strlit("needs_reconcile");
    reveal_strlit("blocked_stale");
    reveal_strlit("waiting_text");
    reveal_strlit("preparing");
    reveal_strlit("queued");
    assert("failed"@.len() == 6);
    assert("queued"@.len() == 6);
    assert("failed"@[0] == 'f');
    assert("queued"@[0] == 'q');
    assert("running"@.len() == 7);
    assert("preparing"@.len() == 9);
    assert("authorized"@.len() == 10);
    assert("waiting_text"@.len() == 12);
    assert("blocked_stale"@.len() == 13);
    assert("blocked_config"@.len() == 14);
    assert("candidate_ready"@.len() == 15);
    assert("needs_reconcile"@.len() == 15);
    assert("candidate_ready"@[0] == 'c');
    assert("needs_reconcile"@[0] == 'n');
}

// ---------------------------------------------------------------------------
// The first open member
// ---------------------------------------------------------------------------

/// Whether every member is ready.
pub open spec fn all_ready(members: Seq<MemberView>) -> bool {
    forall|i: int| 0 <= i < members.len() ==> (#[trigger] members[i]).status == "candidate_ready"@
}

proof fn lemma_first_open(members: Seq<MemberView>, i: int)
    requires
        is_next_index(members, i),
    ensures
        first_open(members) == Some(members[i]),
{
    let p = |m: MemberView| is_open(m);
    assert forall|j: int| 0 <= j < i implies !p(#[trigger] members[j]) by {}
    lemma_find_first(members, p, i);
}

proof fn lemma_first_open_or_none(members: Seq<MemberView>) -> (i: int)
    ensures
        match first_open(members) {
            Some(m) => is_next_index(members, i) && m == members[i],
            None => all_ready(members),
        },
{
    let p = |m: MemberView| is_open(m);
    let k = lemma_first_index(members, p);
    if k < members.len() {
        assert forall|j: int| 0 <= j < k implies (#[trigger] members[j]).status
            == "candidate_ready"@ by {
            assert(!p(members[j]));
        }
        assert(p(members[k]));
    } else {
        assert forall|j: int| 0 <= j < members.len() implies (#[trigger] members[j]).status
            == "candidate_ready"@ by {
            assert(!p(members[j]));
        }
    }
    k
}

/// Whether a member waits to be started: it has no run and is not under way.
pub open spec fn waits_for_its_start(m: MemberView) -> bool {
    &&& m.page_run_id is None || m.page_run_id->0.len() == 0
    &&& m.status != "queued"@ && m.status != "running"@
}

/// A batch that may go on, under a ready service of the authorized provider, starts its first
/// member that is not ready, unless that one is under way; it is not changed by that.
pub proof fn next_page_is_the_first_open_one(b: BatchView, i: int, now: i64)
    requires
        b.status == "running"@ || b.status == "authorized"@ || b.status == "preparing"@ || b.status
            == "blocked_config"@,
        b.authorization.model is Some || b.resolved_model is Some,
        is_next_index(b.members, i),
    ensures
        next_step(b, true, b.authorization.provider_id, now) == (
            b,
            if waits_for_its_start(b.members[i]) {
                Some(b.members[i])
            } else {
                None
            },
        ),
{
    lemma_first_open(b.members, i);
}

/// A batch is finished when all its members are ready, and by nothing else: the search for the
/// next page finishes it then, without an error and at that time, and does not finish it before.
pub proof fn batch_is_finished_when_all_is_ready(
    b: BatchView,
    image_ready: bool,
    provider: Seq<char>,
    now: i64,
)
    ensures
        ({
            let (after, started) = next_step(b, image_ready, provider, now);
            &&& after.members == b.members
            &&& after.status == "candidate_ready"@ && b.status != "candidate_ready"@ ==> all_ready(
                b.members,
            ) && started is None && after.finished_at == Some(now) && after.safe_error_code is None
                && after.safe_user_message is None
            &&& all_ready(b.members) ==> started is None
            &&& all_ready(b.members) && image_ready && provider == b.authorization.provider_id && (
            b.authorization.model is Some || b.resolved_model is Some) && (b.status == "running"@
                || b.status == "authorized"@ || b.status == "preparing"@ || b.status
                == "blocked_config"@) ==> after.status == "candidate_ready"@
            &&& started is Some ==> b.members.contains(started->0) && waits_for_its_start(
                started->0,
            ) && started->0.status != "candidate_ready"@
        }),
{
    lemma_statuses();
    let i = lemma_first_open_or_none(b.members);
}

/// Nothing but the search for the next page finishes a batch: not what its runs come to, not a
/// lease, an error, a retry, a resume or its preparation.
pub proof fn nothing_else_finishes_a_batch(
    b: BatchView,
    runs: Seq<ScopedRun>,
    token: Seq<char>,
    code: Seq<char>,
    configured: Seq<char>,
    index: int,
    child: Seq<char>,
    pending: Seq<PendingView>,
    ids: Seq<Seq<char>>,
    job: crate::comic_visual_batch::ProductionJob,
    now: i64,
)
    requires
        b.status != "candidate_ready"@,
    ensures
        synced(b, runs, now).status != "candidate_ready"@,
        relinked(b, runs).status != "candidate_ready"@,
        resume_basis(b, runs, configured, now).status != "candidate_ready"@,
        claimed(b, token, now).status != "candidate_ready"@,
        released(b, token).status != "candidate_ready"@,
        driver_error_recorded(b, token, code, now).status != "candidate_ready"@,
        retry_linked(b, index, child).status != "candidate_ready"@,
        resume_linked(b, index, child).status != "candidate_ready"@,
        members_installed(b, pending, ids, now).status != "candidate_ready"@,
        scope_step(b, job, now).0.status != "candidate_ready"@,
{
    lemma_statuses();
    lemma_sync_status(b, runs, b.members.len() as int, now);
    let basis = relinked(model_resolved(unleased(b), configured), runs);
    lemma_sync_status(basis, runs, basis.members.len() as int, now);
}

// ---------------------------------------------------------------------------
// Taking over outcomes
// ---------------------------------------------------------------------------

/// Whether the run of a member, where it has one, came to a status.
pub open spec fn came_to(m: MemberView, runs: Seq<ScopedRun>, status: Seq<char>) -> bool {
    m.page_run_id is Some && run_by_id(runs, m.page_run_id->0) is Some && run_by_id(
        runs,
        m.page_run_id->0,
    )->0.run.status@ == status
}

/// Whether one of the first members came to a status.
pub open spec fn any_came_to(b: BatchView, runs: Seq<ScopedRun>, k: int, status: Seq<char>) -> bool {
    exists|i: int| 0 <= i < k && came_to(#[trigger] b.members[i], runs, status)
}

proof fn lemma_sync_status(b: BatchView, runs: Seq<ScopedRun>, k: int, now: i64)
    requires
        0 <= k <= b.members.len(),
    ensures
        ({
            let s = synced_upto(b, runs, k, now);
            &&& s.id == b.id && s.project_id == b.project_id && s.novel_work_id == b.novel_work_id
            &&& s.authorization == b.authorization && s.resolved_model == b.resolved_model
            &&& s.lease_owner == b.lease_owner && s.lease_expires_at == b.lease_expires_at
            &&& s.total_members == b.total_members
            &&& s.status == "candidate_ready"@ ==> b.status == "candidate_ready"@
            &&& s.status == b.status || s.status == "needs_reconcile"@ || s.status
                == "blocked_config"@ || s.status == "failed"@
            &&& s.status != b.status ==> any_came_to(b, runs, k, s.status)
            &&& any_came_to(b, runs, k, "needs_reconcile"@) ==> s.status == "needs_reconcile"@
                || s.status == "blocked_stale"@
            &&& b.status == "needs_reconcile"@ || b.status == "blocked_stale"@ ==> s.status
                == b.status
            &&& !any_came_to(b, runs, k, "needs_reconcile"@) && !any_came_to(
                b,
                runs,
                k,
                "blocked_config"@,
            ) && !any_came_to(b, runs, k, "failed"@) ==> s.status == b.status && s.safe_error_code
                == b.safe_error_code && s.safe_user_message == b.safe_user_message && s.finished_at
                == b.finished_at
        }),
    decreases k,
{
    lemma_statuses();
    if k > 0 {
        lemma_sync_status(b, runs, k - 1, now);
        let m = b.members[k - 1];
        let outcome = run_status(m, runs);
        let before = synced_upto(b, runs, k - 1, now);
        let after = synced_upto(b, runs, k, now);
        if outcome is Some {
            assert(came_to(m, runs, outcome->0));
        }
        assert forall|status: Seq<char>| any_came_to(b, runs, k - 1, status) implies any_came_to(
            b,
            runs,
            k,
            status,
        ) by {
            let i = choose|i: int| 0 <= i < k - 1 && came_to(#[trigger] b.members[i], runs, status);
            assert(came_to(b.members[i], runs, status));
        }
        if any_came_to(b, runs, k, "needs_reconcile"@) {
            let i = choose|i: int|
                0 <= i < k && came_to(#[trigger] b.members[i], runs, "needs_reconcile"@);
            if i < k - 1 {
                assert(came_to(b.members[i], runs, "needs_reconcile"@));
            }
        }
        if after.status != b.status {
            if after.status == before.status {
                assert(any_came_to(b, runs, k, after.status));
            } else {
                assert(came_to(b.members[k - 1], runs, after.status));
            }
        }
    }
}

/// Whether a member is the same page in the same place.
pub open spec fn is_same_page(a: MemberView, b: MemberView) -> bool {
    &&& a.id == b.id && a.ordinal == b.ordinal
    &&& a.manifest_id == b.manifest_id && a.production_chapter_id == b.production_chapter_id
    &&& a.production_page_id == b.production_page_id && a.page_no == b.page_no
    &&& a.page_stable_key == b.page_stable_key
    &&& a.predecessor_member_id == b.predecessor_member_id && a.dispatch_key == b.dispatch_key
}

/// Whether a member has taken over what its run came to, and nothing else has changed of it.
pub open spec fn takes_over(m: MemberView, runs: Seq<ScopedRun>, after: MemberView) -> bool {
    &&& is_same_page(m, after)
    &&& after.page_run_id == m.page_run_id
    &&& m.page_run_id is Some && run_by_id(runs, m.page_run_id->0) is Some ==> after.status
        == run_by_id(runs, m.page_run_id->0)->0.run.status@
    &&& m.page_run_id is None || run_by_id(runs, m.page_run_id->0) is None ==> after == m
}

proof fn lemma_ready_count(members: Seq<MemberView>)
    ensures
        0 <= ready_count(members) <= members.len(),
        ready_count(members) == members.len() <==> all_ready(members),
    decreases members.len(),
{
    if members.len() > 0 {
        let rest = members.drop_last();
        lemma_ready_count(rest);
        assert(members.last() == members[members.len() - 1]);
        if all_ready(rest) && members.last().status == "candidate_ready"@ {
            assert forall|i: int| 0 <= i < members.len() implies (#[trigger] members[i]).status
                == "candidate_ready"@ by {
                if i < rest.len() {
                    assert(rest[i] == members[i]);
                }
            }
        }
        if all_ready(members) {
            assert forall|i: int| 0 <= i < rest.len() implies (#[trigger] rest[i]).status
                == "candidate_ready"@ by {
                assert(rest[i] == members[i]);
            }
        }
    }
}

/// Whether the progress of a batch is what its members say: as many completed as are ready, and
/// the first that is not ready is current.
pub open spec fn progress_is_told(b: BatchView) -> bool {
    &&& 0 <= b.completed_members <= b.members.len()
    &&& b.completed_members == b.members.len() <==> all_ready(b.members)
    &&& b.current_member_ordinal is None <==> all_ready(b.members)
    &&& forall|i: int| #[trigger]
        is_next_index(b.members, i) ==> b.current_member_ordinal == Some(
            b.members[i].ordinal as i64,
        )
}

/// Taking over outcomes gives every member the status of its run and leaves the others alone;
/// what is ready is counted. The batch changes its status only for what a run of its own came
/// to, stops for an outcome that is unknown, and a batch that has stopped stays so.
pub proof fn batch_takes_over_what_its_runs_came_to(b: BatchView, runs: Seq<ScopedRun>, now: i64)
    requires
        outcomes_known(b, runs),
    ensures
        ({
            let s = synced(b, runs, now);
            let n = b.members.len() as int;
            &&& s.members.len() == n
            &&& forall|i: int|
                0 <= i < n ==> takes_over(b.members[i], runs, #[trigger] s.members[i])
            &&& progress_is_told(s)
            &&& s.status == b.status || s.status == "needs_reconcile"@ || s.status
                == "blocked_config"@ || s.status == "failed"@
            &&& s.status != b.status ==> any_came_to(b, runs, n, s.status)
            &&& any_came_to(b, runs, n, "needs_reconcile"@) ==> s.status == "needs_reconcile"@
                || s.status == "blocked_stale"@
            &&& b.status == "needs_reconcile"@ || b.status == "blocked_stale"@ ==> s.status
                == b.status
            &&& s.authorization == b.authorization && s.resolved_model == b.resolved_model
            &&& s.lease_owner == b.lease_owner && s.lease_expires_at == b.lease_expires_at
        }),
{
    let n = b.members.len() as int;
    let s = synced(b, runs, now);
    lemma_sync_status(b, runs, n, now);
    lemma_synced_upto_members(b, runs, n, now);
    lemma_ready_count(s.members);
    let k = lemma_first_open_or_none(s.members);
    assert forall|i: int| 0 <= i < n implies takes_over(
        b.members[i],
        runs,
        #[trigger] s.members[i],
    ) by {
        assert(crate::comic_visual_batch::outcome_known(b.members[i], runs));
    }
    assert forall|i: int| #[trigger] is_next_index(s.members, i) implies s.current_member_ordinal
        == Some(s.members[i].ordinal as i64) by {
        lemma_first_open(s.members, i);
    }
    if all_ready(s.members) && first_open(s.members) is Some {
        assert(s.members[k].status == "candidate_ready"@);
    }
}

/// A member is handed the run that carries its own key, where it had none; one that has a run
/// keeps it.
pub proof fn member_is_linked_by_its_key(b: BatchView, runs: Seq<ScopedRun>, i: int)
    requires
        0 <= i < b.members.len(),
    ensures
        ({
            let m = b.members[i];
            let after = relinked(b, runs).members[i];
            &&& relinked(b, runs).members.len() == b.members.len()
            &&& is_same_page(m, after)
            &&& m.page_run_id is Some ==> after == m
            &&& after.page_run_id is None ==> after == m && forall|j: int|
                0 <= j < runs.len() ==> (#[trigger] runs[j]).idempotency_key@ != m.dispatch_key
            &&& m.page_run_id is None && after.page_run_id is Some ==> exists|j: int|
                0 <= j < runs.len() && (#[trigger] runs[j]).idempotency_key@ == m.dispatch_key
                    && after.page_run_id == Some(runs[j].run.id@) && after.status
                    == runs[j].run.status@
        }),
{
    let m = b.members[i];
    let p = crate::comic_visual_batch::run_has_key(m.dispatch_key);
    let k = lemma_first_index(runs, p);
    if k < runs.len() {
        assert(p(runs[k]));
        assert(runs[k].idempotency_key@ == m.dispatch_key);
    } else {
        assert forall|j: int| 0 <= j < runs.len() implies (#[trigger] runs[j]).idempotency_key@
            != m.dispatch_key by {
            assert(!p(runs[j]));
        }
    }
}

// ---------------------------------------------------------------------------
// Resuming and retrying
// ---------------------------------------------------------------------------

/// Whether a batch can go on by itself: its status lets it, nothing is wrong with it, it has a
/// model, and the search for its next page finds its first open member.
pub open spec fn goes_on(b: BatchView) -> bool {
    &&& b.status == "running"@ || b.status == "authorized"@
    &&& b.safe_error_code is None && b.safe_user_message is None
    &&& b.authorization.model is Some || b.resolved_model is Some
    &&& forall|i: int, now: i64| #[trigger]
        is_next_index(b.members, i) ==> #[trigger] next_step(
            b,
            true,
            b.authorization.provider_id,
            now,
        ) == (
            b,
            if waits_for_its_start(b.members[i]) {
                Some(b.members[i])
            } else {
                None
            },
        )
}

proof fn lemma_goes_on(b: BatchView)
    requires
        b.status == "running"@ || b.status == "authorized"@,
        b.safe_error_code is None && b.safe_user_message is None,
        b.authorization.model is Some || b.resolved_model is Some,
    ensures
        goes_on(b),
{
    assert forall|i: int, now: i64| #[trigger] is_next_index(b.members, i) implies #[trigger] next_step(
        b,
        true,
        b.authorization.provider_id,
        now,
    ) == (
        b,
        if waits_for_its_start(b.members[i]) {
            Some(b.members[i])
        } else {
            None
        },
    ) by {
        next_page_is_the_first_open_one(b, i, now);
    }
}

/// A resume never finishes a batch, and gets one that waited for a configuration going again:
/// its next search finds the first member that is not ready. A resume that finds a run under
/// way leaves the batch running, whatever it was before.
pub proof fn resume_gets_a_batch_going(
    b: BatchView,
    runs: Seq<ScopedRun>,
    resume_hash: Seq<char>,
    image_ready: bool,
    configured: Seq<char>,
    provider: Seq<char>,
    now: i64,
)
    requires
        resume_answer(
            b,
            runs,
            resume_hash,
            None,
            image_ready,
            configured,
            provider,
            now,
        ) is Ok,
    ensures
        ({
            let answer = resume_answer(
                b,
                runs,
                resume_hash,
                None,
                image_ready,
                configured,
                provider,
                now,
            )->Ok_0;
            let basis = resume_basis(b, runs, configured, now);
            let after = resumed(basis, answer);
            &&& !(answer is Replay)
            &&& image_ready && provider == b.authorization.provider_id
            &&& after.members == basis.members
            &&& after.id == b.id && after.authorization == b.authorization
            &&& after.lease_owner is None && after.lease_expires_at is None
            &&& b.authorization.model is Some || b.resolved_model is Some ==> after.resolved_model
                == b.resolved_model
            &&& b.authorization.model is None && b.resolved_model is None ==> after.resolved_model
                == Some(configured) && configured.len() > 0
            &&& after.status == "candidate_ready"@ ==> b.status == "candidate_ready"@
            &&& answer is Queued || answer is Running ==> goes_on(after) && after.status
                == "running"@
            &&& answer is Idle && basis.status == "blocked_config"@ ==> goes_on(after)
            &&& answer is Idle && basis.status != "blocked_config"@ ==> after == basis
            &&& answer is Start ==> after == basis
        }),
{
    lemma_statuses();
    let basis = resume_basis(b, runs, configured, now);
    let before = relinked(model_resolved(unleased(b), configured), runs);
    lemma_sync_status(before, runs, before.members.len() as int, now);
    let answer = resume_answer(
        b,
        runs,
        resume_hash,
        None,
        image_ready,
        configured,
        provider,
        now,
    )->Ok_0;
    let after = resumed(basis, answer);
    if answer is Queued || answer is Running {
        lemma_goes_on(after);
    }
    if answer is Idle && basis.status == "blocked_config"@ {
        lemma_goes_on(after);
    }
}

/// A batch that waited for a configuration, none of whose pages has failed and which has a page
/// left, goes on after a resume that starts nothing itself: the first page that is not ready is
/// started next, or is under way.
pub proof fn waiting_batch_goes_on_after_a_resume(
    b: BatchView,
    runs: Seq<ScopedRun>,
    resume_hash: Seq<char>,
    configured: Seq<char>,
    now: i64,
    later: i64,
    i: int,
)
    requires
        b.status == "blocked_config"@,
        forall|j: int| 0 <= j < runs.len() ==> (#[trigger] runs[j]).run.status@ != "failed"@,
        is_next_index(resume_basis(b, runs, configured, now).members, i),
        ({
            let answer = resume_answer(
                b,
                runs,
                resume_hash,
                None,
                true,
                configured,
                b.authorization.provider_id,
                now,
            );
            answer is Ok && !(answer->Ok_0 is Start)
        }),
    ensures
        ({
            let answer = resume_answer(
                b,
                runs,
                resume_hash,
                None,
                true,
                configured,
                b.authorization.provider_id,
                now,
            )->Ok_0;
            let after = resumed(resume_basis(b, runs, configured, now), answer);
            let (searched, started) = next_step(after, true, b.authorization.provider_id, later);
            &&& searched == after
            &&& after.status == "running"@ || after.status == "authorized"@
            &&& after.finished_at == b.finished_at
            &&& started == if waits_for_its_start(after.members[i]) {
                Some(after.members[i])
            } else {
                None
            }
        }),
{
    lemma_statuses();
    resume_gets_a_batch_going(
        b,
        runs,
        resume_hash,
        true,
        configured,
        b.authorization.provider_id,
        now,
    );
    let before = relinked(model_resolved(unleased(b), configured), runs);
    lemma_waiting_stays(before, runs, before.members.len() as int, now);
    let answer = resume_answer(
        b,
        runs,
        resume_hash,
        None,
        true,
        configured,
        b.authorization.provider_id,
        now,
    )->Ok_0;
    let after = resumed(resume_basis(b, runs, configured, now), answer);
    assert(after.members == resume_basis(b, runs, configured, now).members);
    assert(is_next_index(after.members, i));
    let searched = next_step(after, true, after.authorization.provider_id, later);
}

proof fn lemma_waiting_stays(b: BatchView, runs: Seq<ScopedRun>, k: int, now: i64)
    requires
        0 <= k <= b.members.len(),
        b.status == "blocked_config"@,
        forall|j: int| 0 <= j < runs.len() ==> (#[trigger] runs[j]).run.status@ != "failed"@,
    ensures
        ({
            let s = synced_upto(b, runs, k, now);
            (s.status == "blocked_config"@ && s.finished_at == b.finished_at) || s.status
                == "needs_reconcile"@
        }),
    decreases k,
{
    lemma_statuses();
    if k > 0 {
        lemma_waiting_stays(b, runs, k - 1, now);
        let m = b.members[k - 1];
        if run_status(m, runs) is Some {
            let p = run_has_id(m.page_run_id->0);
            let j = lemma_first_index(runs, p);
            assert(run_by_id(runs, m.page_run_id->0) == Some(runs[j]));
        }
    }
}

/// A page that was handed to a new attempt is under way: the batch runs, without an error, its
/// other pages are as they were, and nothing is started beside the attempt.
pub proof fn new_attempt_is_waited_for(
    b: BatchView,
    index: int,
    child: Seq<char>,
    now: i64,
    provider: Seq<char>,
)
    requires
        is_next_index(b.members, index),
        b.authorization.model is Some || b.resolved_model is Some,
    ensures
        ({
            let r = retry_linked(b, index, child);
            let s = resume_linked(b, index, child);
            &&& r.status == "running"@ && s.status == "running"@
            &&& r.safe_error_code is None && s.safe_error_code is None
            &&& r.safe_user_message is None && s.safe_user_message is None
            &&& r.finished_at is None
            &&& r.members == s.members
            &&& s.members.len() == b.members.len()
            &&& forall|i: int|
                0 <= i < b.members.len() && i != index ==> #[trigger] s.members[i] == b.members[i]
            &&& is_same_page(s.members[index], b.members[index])
            &&& s.members[index].page_run_id == Some(child)
            &&& s.members[index].status == "queued"@
            &&& s.members[index].finished_at is None
            &&& next_step(r, true, provider, now).1 is None
            &&& next_step(s, true, provider, now).1 is None
            &&& r.id == b.id && s.id == b.id
            &&& r.authorization == b.authorization && s.authorization == b.authorization
        }),
{
    lemma_statuses();
    let r = retry_linked(b, index, child);
    let s = resume_linked(b, index, child);
    assert forall|j: int| 0 <= j < index implies (#[trigger] s.members[j]).status
        == "candidate_ready"@ by {
        assert(s.members[j] == b.members[j]);
    }
    assert(is_next_index(s.members, index));
    lemma_first_open(s.members, index);
}

// ---------------------------------------------------------------------------
// Starting a page
// ---------------------------------------------------------------------------

/// A page is started as the page of its member: of the present manifest, under the model and
/// the provider that the batch was authorized for, by the present contract and under the
/// member's own key. Its request leaves the options to the batch.
pub proof fn start_is_of_its_member(
    a: StartAction,
    b: BatchView,
    m: MemberView,
    manifest: ComicVisualManifest,
)
    requires
        starts_member(a, b, m, manifest),
    ensures
        a.member_id@ == m.id && a.dispatch_key@ == m.dispatch_key,
        a.provider_id@ == b.authorization.provider_id,
        b.authorization.model is Some ==> Some(a.model@) == b.authorization.model,
        b.authorization.model is None ==> Some(a.model@) == b.resolved_model,
        a.input.project_id@ == b.project_id && a.input.novel_work_id@ == b.novel_work_id,
        a.input.manifest_id@ == manifest.id@,
        a.input.production_page_id@ == m.production_page_id,
        a.input.manifest_fingerprint@ == manifest.manifest_fingerprint@,
        a.input.compiler_contract_version@ == "comic-page-compiler.v3"@,
        a.input.idempotency_key@ == m.dispatch_key,
        text_at(a.input.request_json@, "schemaVersion"@) == Some("comic-page-compiler.v3"@),
        text_at(a.input.request_json@, "manifestFingerprint"@) == Some(
            manifest.manifest_fingerprint@,
        ),
        text_at(a.input.request_json@, "productionPageId"@) == Some(m.production_page_id),
        field(a.input.request_json@, "model"@) is None,
        field(a.input.request_json@, "size"@) is None,
        a.input.reference_snapshot_json@ == JsonView::Obj(Seq::empty()),
{
    broadcast use lemma_lookup_push;

    reveal_strlit("schemaVersion");
    reveal_strlit("manifestFingerprint");
    reveal_strlit("productionPageId");
    reveal_strlit("model");
    reveal_strlit("size");
    assert("size"@.len() == 4);
    assert("model"@.len() == 5);
    assert("schemaVersion"@.len() == 13);
    assert("productionPageId"@.len() == 16);
    assert("manifestFingerprint"@.len() == 19);
}

} // verus!
