//! What repeated steps on a batch come to: a page that is asked for twice is started once.
use crate::comic_visual_batch::{
    answered, attempt_after, brought_up, child_key, claimable, claimed, first_open, handed_over,
    holds, is_attempt_at, is_open, is_terminal, lemma_synced_upto_members, linked_member,
    member_has_id, model_resolved, outcome_known, outcomes_known, queued_resume, queued_retry,
    released, relinked, resume_answer, resume_basis, resume_choice, resume_identity_value,
    resume_linked, resumed, retry_answer, retry_choice, retry_identity, retry_link_refusal,
    retry_linked, run_by_id, run_by_key, run_has_id, run_has_key, run_status, synced, synced_member,
    synced_upto, top_attempt, unleased, BatchView, ComicVisualBatchMemberRetryInput, MemberView,
    ResumeAnswer, RetryAnswer, ScopedRun, BATCH_LEASE_MS,
};
use crate::comic_visual_batch_driver::{is_next_index, next_step};
use crate::json::JsonView;
use crate::sequence::{find_first, lemma_find_first, lemma_find_first_push, lemma_first_index};
use crate::text::{is_blank, opt_view};
use vstd::prelude::*;

verus! {

/// Whether no two members of a batch have the same identifier.
pub open spec fn members_distinct(b: BatchView) -> bool {
    forall|i: int, j: int|
        0 <= i < j < b.members.len() ==> (#[trigger] b.members[i]).id != (
        #[trigger] b.members[j]).id
}

/// Whether a run can be handed to a member: no other member is linked to it, and it is one of
/// the stored runs or a new one, whose identifier no member names and under whose key none is
/// to be dispatched.
pub open spec fn is_free_run(
    b: BatchView,
    runs: Seq<ScopedRun>,
    index: int,
    run: ScopedRun,
) -> bool {
    &&& forall|j: int|
        0 <= j < b.members.len() && j != index ==> (#[trigger] b.members[j]).page_run_id != Some(
            run.run.id@,
        )
    &&& run_by_id(runs, run.run.id@) == Some(run) || {
        &&& run_by_id(runs, run.run.id@) is None
        &&& forall|j: int|
            0 <= j < b.members.len() ==> (#[trigger] b.members[j]).dispatch_key
                != run.idempotency_key@
    }
}

/// The stored runs with one more, unless it is among them.
pub open spec fn with_run(runs: Seq<ScopedRun>, run: ScopedRun) -> Seq<ScopedRun> {
    if run_by_id(runs, run.run.id@) is Some {
        runs
    } else {
        runs.push(run)
    }
}

proof fn lemma_statuses_differ()
    ensures
        "needs_reconcile"@ != "queued"@,
        "needs_reconcile"@ != "running"@,
        "needs_reconcile"@ != "failed"@,
        "needs_reconcile"@ != "blocked_config"@,
        "needs_reconcile"@ != "candidate_ready"@,
        "blocked_stale"@ != "queued"@,
        "blocked_stale"@ != "running"@,
        "blocked_stale"@ != "failed"@,
        "blocked_stale"@ != "blocked_config"@,
        "candidate_ready"@ != "queued"@,
        "candidate_ready"@ != "running"@,
        "candidate_ready"@ != "failed"@,
        "candidate_ready"@ != "blocked_config"@,
        "queued"@ != "running"@,
        "queued"@ != "failed"@,
        "queued"@ != "blocked_config"@,
{
    reveal_strlit("needs_reconcile");
    reveal_strlit("blocked_stale");
    reveal_strlit("blocked_config");
    reveal_strlit("candidate_ready");
    reveal_strlit("queued");
    reveal_strlit("running");
    reveal_strlit("failed");
    assert("needs_reconcile"@[0] == 'n' && "candidate_ready"@[0] == 'c');
    assert("queued"@[0] == 'q' && "failed"@[0] == 'f');
    assert("blocked_stale"@.len() == 13 && "blocked_config"@.len() == 14);
    assert("needs_reconcile"@.len() == 15 && "candidate_ready"@.len() == 15);
    assert("queued"@.len() == 6 && "failed"@.len() == 6 && "running"@.len() == 7);
}

/// Whether two batches belong to the same job, with the same authorization and lease.
pub open spec fn same_job(a: BatchView, b: BatchView) -> bool {
    &&& a.id == b.id
    &&& a.project_id == b.project_id
    &&& a.novel_work_id == b.novel_work_id
    &&& a.production_job_id == b.production_job_id
    &&& a.authorization == b.authorization
    &&& a.resolved_model == b.resolved_model
    &&& a.lease_expires_at == b.lease_expires_at
}

/// Taking over outcomes leaves the job of a batch alone, and a batch comes out of it running
/// on exactly where it had not stopped and no outcome is unknown.
proof fn lemma_sync_keeps(b: BatchView, runs: Seq<ScopedRun>, k: int, now: i64)
    requires
        0 <= k <= b.members.len(),
    ensures
        same_job(synced_upto(b, runs, k, now), b),
        !is_terminal(synced_upto(b, runs, k, now).status) <==> !is_terminal(b.status) && forall|
            j: int,
        |
            0 <= j < k ==> run_status(#[trigger] b.members[j], runs) != Some("needs_reconcile"@),
    decreases k,
{
    lemma_statuses_differ();
    if k > 0 {
        lemma_sync_keeps(b, runs, k - 1, now);
        let outcome = run_status(b.members[k - 1], runs);
        let done = synced_upto(b, runs, k - 1, now);
        let entered = BatchView {
            members: done.members.update(k - 1, synced_member(b.members[k - 1], outcome, now)),
            ..done
        };
        assert(synced_upto(b, runs, k, now) == answered(entered, outcome, now));
    }
}

/// After a member was handed to a queued child, every other member has the outcome it had,
/// the batch has not stopped, and ready members stay ready.
proof fn lemma_child_changes_nothing_else(
    u: BatchView,
    runs: Seq<ScopedRun>,
    now: i64,
    index: int,
    child: ScopedRun,
    after: BatchView,
    later: i64,
)
    requires
        outcomes_known(relinked(u, runs), runs),
        ({
            let basis = synced(relinked(u, runs), runs, now);
            &&& !is_terminal(basis.status)
            &&& 0 <= index < u.members.len()
            &&& is_free_run(basis, runs, index, child)
            &&& child.run.status@ == "queued"@
            &&& after.members == basis.members.update(
                index,
                handed_over(basis.members[index], child.run.id@),
            )
            &&& !is_terminal(after.status)
        }),
    ensures
        ({
            let basis = synced(relinked(u, runs), runs, now);
            let all = with_run(runs, child);
            let next = synced(relinked(after, all), all, later);
            &&& outcomes_known(relinked(after, all), all)
            &&& !is_terminal(next.status)
            &&& same_job(next, after)
            &&& next.members.len() == basis.members.len()
            &&& next.members[index] == after.members[index]
            &&& forall|j: int|
                0 <= j < basis.members.len() && !is_open(basis.members[j]) && j != index
                    ==> !is_open(#[trigger] next.members[j])
            &&& forall|j: int|
                0 <= j < basis.members.len() ==> (#[trigger] next.members[j]).id
                    == basis.members[j].id
        }),
{
    lemma_statuses_differ();
    let x = relinked(u, runs);
    let n = x.members.len() as int;
    let basis = synced(x, runs, now);
    let all = with_run(runs, child);
    let y = relinked(after, all);
    lemma_synced_upto_members(x, runs, n, now);
    lemma_sync_keeps(x, runs, n, now);
    lemma_synced_upto_members(y, all, n, later);
    if all != runs {
        lemma_find_first_push(runs, child, run_has_id(child.run.id@));
    }
    assert(run_by_id(all, child.run.id@) == Some(child));
    assert(y.members[index] == after.members[index]);
    assert(run_status(y.members[index], all) == Some("queued"@));
    assert forall|j: int| 0 <= j < n && j != index implies #[trigger] y.members[j]
        == basis.members[j] && run_status(y.members[j], all) == run_status(x.members[j], runs) by {
        let was = x.members[j];
        assert(was == linked_member(u.members[j], runs));
        assert(basis.members[j] == synced_member(was, run_status(was, runs), now));
        assert(after.members[j] == basis.members[j]);
        if all != runs {
            lemma_find_first_push(runs, child, run_has_key(was.dispatch_key));
        }
        assert(y.members[j] == linked_member(basis.members[j], all));
        if was.page_run_id is Some {
            if all != runs {
                lemma_find_first_push(runs, child, run_has_id(was.page_run_id->0));
            }
        } else {
            assert(run_by_key(runs, was.dispatch_key) is None);
        }
    }
    assert forall|j: int| 0 <= j < n implies outcome_known(#[trigger] y.members[j], all)
        && run_status(y.members[j], all) != Some("needs_reconcile"@) by {
        if j != index {
            assert(outcome_known(x.members[j], runs));
            assert(run_status(x.members[j], runs) != Some("needs_reconcile"@));
        }
    }
    lemma_sync_keeps(y, all, n, later);
}

/// Where the first open member of a batch is, whose members have distinct identifiers.
proof fn lemma_first_open_at(b: BatchView, index: int)
    requires
        members_distinct(b),
        0 <= index < b.members.len(),
        first_open(b.members) is Some,
        first_open(b.members)->0.id == b.members[index].id,
    ensures
        first_open(b.members) == Some(b.members[index]),
        forall|j: int| 0 <= j < index ==> !is_open(#[trigger] b.members[j]),
{
    let p = |m: MemberView| is_open(m);
    let k = lemma_first_index(b.members, p);
    assert(k == index);
    assert forall|j: int| 0 <= j < index implies !is_open(#[trigger] b.members[j]) by {
        assert(!p(b.members[j]));
    }
}

/// The first open member is the one before which all are ready.
proof fn lemma_first_open_is(b: BatchView, index: int)
    requires
        0 <= index < b.members.len(),
        is_open(b.members[index]),
        forall|j: int| 0 <= j < index ==> !is_open(#[trigger] b.members[j]),
    ensures
        first_open(b.members) == Some(b.members[index]),
{
    lemma_find_first(b.members, |m: MemberView| is_open(m), index);
}

/// The member of an identifier, where the identifiers are distinct.
proof fn lemma_member_with_id(b: BatchView, index: int)
    requires
        members_distinct(b),
        0 <= index < b.members.len(),
    ensures
        find_first(b.members, member_has_id(b.members[index].id)) == Some(b.members[index]),
{
    lemma_find_first(b.members, member_has_id(b.members[index].id), index);
}

/// Whether two retries ask for the same thing, under whatever keys.
pub open spec fn same_retry(
    a: ComicVisualBatchMemberRetryInput,
    b: ComicVisualBatchMemberRetryInput,
) -> bool {
    &&& a.project_id@ == b.project_id@
    &&& a.novel_work_id@ == b.novel_work_id@
    &&& a.production_job_id@ == b.production_job_id@
    &&& a.batch_id@ == b.batch_id@
    &&& a.member_id@ == b.member_id@
    &&& a.production_page_id@ == b.production_page_id@
    &&& a.expected_parent_run_id@ == b.expected_parent_run_id@
    &&& a.confirm_possible_charge == b.confirm_possible_charge
}

/// What a request hash is taken of tells two retries apart exactly where they ask for
/// different things.
pub proof fn retry_identity_tells_requests_apart(
    a: ComicVisualBatchMemberRetryInput,
    b: ComicVisualBatchMemberRetryInput,
)
    ensures
        retry_identity(a) == retry_identity(b) <==> same_retry(a, b),
{
    if retry_identity(a) == retry_identity(b) {
        let x = retry_identity(a)->Obj_0;
        let y = retry_identity(b)->Obj_0;
        assert(x[0].1 == y[0].1 && x[1].1 == y[1].1 && x[2].1 == y[2].1 && x[3].1 == y[3].1);
        assert(x[4].1 == y[4].1 && x[5].1 == y[5].1 && x[6].1 == y[6].1 && x[7].1 == y[7].1);
    }
}

/// What the database holds of a batch: the batch, the runs of its work, and the receipts of
/// the commands of a kind by their keys, each with the request hash and the batch.
pub struct BatchStore {
    pub batch: BatchView,
    pub runs: Seq<ScopedRun>,
    pub receipts: Map<Seq<char>, (Seq<char>, Seq<char>)>,
}

/// The receipt under a key.
pub open spec fn receipt_at(store: BatchStore, key: Seq<char>) -> Option<(Seq<char>, Seq<char>)> {
    if store.receipts.dom().contains(key) {
        Some(store.receipts[key])
    } else {
        None
    }
}

/// Where a member of a batch stands.
pub open spec fn place_of(b: BatchView, m: MemberView) -> int {
    choose|i: int| 0 <= i < b.members.len() && #[trigger] b.members[i] == m
}

/// What a member retry makes of the store, in its one transaction, and its result: the run to
/// be dispatched. `hash` stands for the request hash, `started` for what starting the child
/// gives, where it comes to that.
pub open spec fn retried(
    store: BatchStore,
    input: ComicVisualBatchMemberRetryInput,
    job_id: Seq<char>,
    hash: spec_fn(JsonView) -> Seq<char>,
    image_ready: bool,
    provider: Seq<char>,
    now: i64,
    started: Result<ScopedRun, Seq<char>>,
) -> (BatchStore, Result<Option<Seq<char>>, Seq<char>>) {
    let request_hash = hash(retry_identity(input));
    match retry_answer(
        store.batch,
        store.runs,
        input,
        job_id,
        request_hash,
        receipt_at(store, input.idempotency_key@),
        image_ready,
        provider,
        now,
    ) {
        Err(e) => (store, Err(e)),
        Ok(RetryAnswer::Replay(child)) => (store, Ok(child)),
        Ok(RetryAnswer::Start(m, parent, _)) => match started {
            Err(e) => (store, Err(e)),
            Ok(child) => {
                let basis = brought_up(store.batch, store.runs, now);
                let index = place_of(basis, m);
                match retry_link_refusal(basis, index, parent.id@, child.run.status@) {
                    Some(e) => (store, Err(e)),
                    None => (
                        BatchStore {
                            batch: retry_linked(basis, index, child.run.id@),
                            runs: with_run(store.runs, child),
                            receipts: store.receipts.insert(
                                input.idempotency_key@,
                                (request_hash, store.batch.id),
                            ),
                        },
                        Ok(Some(child.run.id@)),
                    ),
                }
            },
        },
    }
}

/// Whether a run is what starting a child of a member's run gives, made for the same page.
pub open spec fn is_child_start(
    child: ScopedRun,
    m: MemberView,
    kind: Seq<char>,
    parent: Seq<char>,
) -> bool {
    &&& opt_view(child.run.parent_run_id) == Some(parent)
    &&& child.idempotency_key@ == child_key(m.dispatch_key, kind, parent)
    &&& child.run.manifest_id@ == m.manifest_id
    &&& child.run.production_page_id@ == m.production_page_id
}

/// Whether what starting the child of a retry gives belongs to the retry, and can be handed to
/// its member.
pub open spec fn retry_start_fits(
    store: BatchStore,
    input: ComicVisualBatchMemberRetryInput,
    provider: Seq<char>,
    now: i64,
    started: Result<ScopedRun, Seq<char>>,
) -> bool {
    let basis = brought_up(store.batch, store.runs, now);
    match (retry_choice(basis, store.runs, input, provider), started) {
        (Ok(RetryAnswer::Start(m, parent, _)), Ok(child)) => is_child_start(
            child,
            m,
            ":retry:"@,
            parent.id@,
        ) && is_free_run(basis, store.runs, place_of(basis, m), child),
        _ => true,
    }
}

proof fn lemma_place_of(b: BatchView, m: MemberView, k: int)
    requires
        members_distinct(b),
        0 <= k < b.members.len(),
        b.members[k] == m,
    ensures
        place_of(b, m) == k,
{
    let i = place_of(b, m);
    assert(0 <= i < b.members.len() && b.members[i] == m);
    if i < k {
        assert(b.members[i].id != b.members[k].id);
    } else if k < i {
        assert(b.members[k].id != b.members[i].id);
    }
}

/// A member retry that is given for the first time under its key and is answered with a child
/// starts one child, however often it is repeated. The same request under the same key is
/// answered with that child; the same request under a new key is refused, since the member has
/// moved on from the failed run; the same key for another request, as one for another member,
/// is refused as well. None of the three changes anything in the store: no run is added. It
/// does not matter what is ready, what the time is, or what starting a run would give then.
/// `other` is a request that its hash tells apart.
pub proof fn repeated_retry_starts_one_child(
    store: BatchStore,
    input: ComicVisualBatchMemberRetryInput,
    job_id: Seq<char>,
    hash: spec_fn(JsonView) -> Seq<char>,
    image_ready: bool,
    provider: Seq<char>,
    now: i64,
    started: Result<ScopedRun, Seq<char>>,
    again: ComicVisualBatchMemberRetryInput,
    renewed: ComicVisualBatchMemberRetryInput,
    other: ComicVisualBatchMemberRetryInput,
    later_ready: bool,
    later_provider: Seq<char>,
    later: i64,
    later_started: Result<ScopedRun, Seq<char>>,
)
    requires
        members_distinct(store.batch),
        store.batch.id == input.batch_id@,
        receipt_at(store, input.idempotency_key@) is None,
        retry_start_fits(store, input, provider, now, started),
        retried(store, input, job_id, hash, image_ready, provider, now, started).1 is Ok,
        same_retry(again, input),
        again.idempotency_key@ == input.idempotency_key@,
        same_retry(renewed, input),
        !is_blank(renewed.idempotency_key@),
        renewed.idempotency_key@ != input.idempotency_key@,
        receipt_at(store, renewed.idempotency_key@) is None,
        other.idempotency_key@ == input.idempotency_key@,
        other.production_job_id@ == input.production_job_id@,
        other.confirm_possible_charge,
        hash(retry_identity(other)) != hash(retry_identity(input)),
    ensures
        ({
            let (after, result) = retried(
                store,
                input,
                job_id,
                hash,
                image_ready,
                provider,
                now,
                started,
            );
            &&& result == Ok::<_, Seq<char>>(Some(started->Ok_0.run.id@))
            &&& retried(
                after,
                again,
                job_id,
                hash,
                later_ready,
                later_provider,
                later,
                later_started,
            ) == (after, result)
            &&& retried(
                after,
                renewed,
                job_id,
                hash,
                true,
                provider,
                later,
                later_started,
            ) == (after, Err::<Option<Seq<char>>, _>("VISUAL_BATCH_RETRY_PARENT_CHANGED"@))
            &&& retried(
                after,
                other,
                job_id,
                hash,
                later_ready,
                later_provider,
                later,
                later_started,
            ) == (after, Err::<Option<Seq<char>>, _>("IDEMPOTENCY_MISMATCH"@))
        }),
{
    lemma_statuses_differ();
    retry_identity_tells_requests_apart(again, input);
    retry_identity_tells_requests_apart(renewed, input);
    let b = store.batch;
    let runs = store.runs;
    let u = unleased(b);
    let x = relinked(u, runs);
    let n = b.members.len() as int;
    let basis = brought_up(b, runs, now);
    let child = started->Ok_0;
    let all = with_run(runs, child);
    lemma_synced_upto_members(x, runs, n, now);
    lemma_sync_keeps(x, runs, n, now);
    assert forall|j: int| 0 <= j < n implies (#[trigger] basis.members[j]).id
        == b.members[j].id by {
        assert(x.members[j] == linked_member(u.members[j], runs));
    }
    assert(members_distinct(basis));
    let index = lemma_first_index(basis.members, member_has_id(input.member_id@));
    lemma_place_of(basis, basis.members[index], index);
    let after = retry_linked(basis, index, child.run.id@);
    lemma_first_open_at(basis, index);
    let r = lemma_first_index(runs, run_has_id(input.expected_parent_run_id@));
    if all != runs {
        lemma_find_first_push(runs, child, run_has_id(child.run.id@));
    }
    assert(child.run.id@ != input.expected_parent_run_id@);
    lemma_first_open_is(after, index);
    assert(queued_retry(after, all, again.member_id@, again.expected_parent_run_id@) == Some(
        child.run.id@,
    ));
    lemma_child_changes_nothing_else(u, runs, now, index, child, unleased(after), later);
    let next = brought_up(after, all, later);
    assert(members_distinct(next));
    lemma_member_with_id(next, index);
}

/// What a resume makes of the store, in its one transaction, and its result: the run to be
/// dispatched, and whether the batch has to be driven. `hash` stands for the request hash,
/// `started` for what starting the child gives, where it comes to that.
pub open spec fn resumed_store(
    store: BatchStore,
    key: Seq<char>,
    hash: spec_fn(JsonView) -> Seq<char>,
    image_ready: bool,
    configured: Seq<char>,
    provider: Seq<char>,
    now: i64,
    started: Result<ScopedRun, Seq<char>>,
) -> (BatchStore, Result<(Option<Seq<char>>, bool), Seq<char>>) {
    let resume_hash = hash(resume_identity_value(store.batch.id));
    match resume_answer(
        store.batch,
        store.runs,
        resume_hash,
        receipt_at(store, key),
        image_ready,
        configured,
        provider,
        now,
    ) {
        Err(e) => (store, Err(e)),
        Ok(ResumeAnswer::Replay(child)) => (store, Ok((child, false))),
        Ok(answer) => {
            let basis = resume_basis(store.batch, store.runs, configured, now);
            let kept = BatchStore {
                batch: resumed(basis, answer),
                receipts: store.receipts.insert(key, (resume_hash, store.batch.id)),
                ..store
            };
            match answer {
                ResumeAnswer::Queued(run) => (kept, Ok((Some(run), false))),
                ResumeAnswer::Start(m, parent, _) => match started {
                    Err(e) => (store, Err(e)),
                    Ok(child) => if child.run.status@ != "queued"@ {
                        (store, Err("VISUAL_BATCH_CONFIG_RESUME_CHILD_STATE_INVALID"@))
                    } else {
                        (
                            BatchStore {
                                batch: resume_linked(basis, place_of(basis, m), child.run.id@),
                                runs: with_run(store.runs, child),
                                ..kept
                            },
                            Ok((Some(child.run.id@), false)),
                        )
                    },
                },
                _ => (kept, Ok((None, true))),
            }
        },
    }
}

/// Whether what starting the child of a resume gives belongs to the resume, and can be handed
/// to its member.
pub open spec fn resume_start_fits(
    store: BatchStore,
    configured: Seq<char>,
    now: i64,
    started: Result<ScopedRun, Seq<char>>,
) -> bool {
    let basis = resume_basis(store.batch, store.runs, configured, now);
    match (resume_choice(basis, store.runs), started) {
        (Ok(ResumeAnswer::Start(m, parent, _)), Ok(child)) => is_child_start(
            child,
            m,
            ":config-resume:"@,
            parent.id@,
        ) && is_free_run(basis, store.runs, place_of(basis, m), child),
        _ => true,
    }
}

/// A resume that is given for the first time under its key and starts a child starts one child,
/// however often it is repeated. While the batch runs and the child is queued, the same key is
/// answered with that child and changes nothing, and a new key finds the child queued and adds
/// no run. Once the batch has stopped for good, as `stopped`, the same key is answered with no
/// run and changes nothing.
pub proof fn repeated_resume_starts_one_child(
    store: BatchStore,
    key: Seq<char>,
    hash: spec_fn(JsonView) -> Seq<char>,
    image_ready: bool,
    configured: Seq<char>,
    provider: Seq<char>,
    now: i64,
    started: Result<ScopedRun, Seq<char>>,
    renewed: Seq<char>,
    stopped: BatchStore,
    later_ready: bool,
    later_configured: Seq<char>,
    later_provider: Seq<char>,
    later: i64,
    later_started: Result<ScopedRun, Seq<char>>,
)
    requires
        members_distinct(store.batch),
        receipt_at(store, key) is None,
        resume_start_fits(store, configured, now, started),
        resume_answer(
            store.batch,
            store.runs,
            hash(resume_identity_value(store.batch.id)),
            None,
            image_ready,
            configured,
            provider,
            now,
        ) matches Ok(answer) && answer is Start,
        resumed_store(store, key, hash, image_ready, configured, provider, now, started).1 is Ok,
        renewed != key,
        receipt_at(store, renewed) is None,
        is_terminal(stopped.batch.status),
        stopped.batch.id == store.batch.id,
        receipt_at(stopped, key) == Some(
            (hash(resume_identity_value(store.batch.id)), store.batch.id),
        ),
    ensures
        ({
            let (after, result) = resumed_store(
                store,
                key,
                hash,
                image_ready,
                configured,
                provider,
                now,
                started,
            );
            let child = started->Ok_0.run.id@;
            let fresh = resumed_store(
                after,
                renewed,
                hash,
                true,
                later_configured,
                provider,
                later,
                later_started,
            );
            &&& result == Ok::<_, Seq<char>>((Some(child), false))
            &&& receipt_at(after, key) == Some(
                (hash(resume_identity_value(store.batch.id)), store.batch.id),
            )
            &&& resumed_store(
                after,
                key,
                hash,
                later_ready,
                later_configured,
                later_provider,
                later,
                later_started,
            ) == (after, result)
            &&& fresh.1 == result
            &&& fresh.0.runs == after.runs
            &&& resumed_store(
                stopped,
                key,
                hash,
                later_ready,
                later_configured,
                later_provider,
                later,
                later_started,
            ) == (stopped, Ok::<_, Seq<char>>((None::<Seq<char>>, false)))
        }),
{
    lemma_statuses_differ();
    let b = store.batch;
    let runs = store.runs;
    let u = model_resolved(unleased(b), configured);
    let x = relinked(u, runs);
    let n = b.members.len() as int;
    let basis = resume_basis(b, runs, configured, now);
    let child = started->Ok_0;
    let all = with_run(runs, child);
    lemma_synced_upto_members(x, runs, n, now);
    lemma_sync_keeps(x, runs, n, now);
    assert forall|j: int| 0 <= j < n implies (#[trigger] basis.members[j]).id
        == b.members[j].id by {
        assert(x.members[j] == linked_member(u.members[j], runs));
    }
    assert(members_distinct(basis));
    let index = lemma_first_index(basis.members, |m: MemberView| is_open(m));
    lemma_place_of(basis, basis.members[index], index);
    let after = resume_linked(basis, index, child.run.id@);
    lemma_first_open_at(basis, index);
    let id = basis.members[index].page_run_id->0;
    let r = lemma_first_index(runs, run_has_id(id));
    lemma_first_open_is(after, index);
    if all != runs {
        lemma_find_first_push(runs, child, run_has_id(child.run.id@));
        lemma_find_first_push(runs, child, run_has_id(id));
    }
    assert(queued_resume(after, all) == Some(child.run.id@));
    let v = model_resolved(unleased(after), later_configured);
    lemma_child_changes_nothing_else(u, runs, now, index, child, v, later);
    let next = resume_basis(after, all, later_configured, later);
    lemma_first_open_is(next, index);
}

/// A page that was started is never started again, also where its run was stored and the member
/// was not linked to it: the next look for a page links the run by its dispatch key, and starts
/// nothing while the run is queued or under way.
pub proof fn lost_link_is_recovered(
    b: BatchView,
    runs: Seq<ScopedRun>,
    image_ready: bool,
    provider: Seq<char>,
    now: i64,
    i: int,
    run: ScopedRun,
    again_ready: bool,
    again_provider: Seq<char>,
    later: i64,
)
    requires
        outcomes_known(relinked(b, runs), runs),
        ({
            let basis = synced(relinked(b, runs), runs, now);
            &&& is_next_index(basis.members, i)
            &&& next_step(basis, image_ready, provider, now) == (basis, Some(basis.members[i]))
            &&& basis.members[i].page_run_id is None
            &&& run_by_id(runs, run.run.id@) is None
            &&& run.idempotency_key@ == basis.members[i].dispatch_key
            &&& run.run.status@ == "queued"@ || run.run.status@ == "running"@
            &&& forall|j: int|
                0 <= j < basis.members.len() && j != i ==> (
                #[trigger] basis.members[j]).dispatch_key != run.idempotency_key@
                    && basis.members[j].page_run_id != Some(run.run.id@)
        }),
    ensures
        ({
            let basis = synced(relinked(b, runs), runs, now);
            let all = runs.push(run);
            let next = synced(relinked(basis, all), all, later);
            &&& outcomes_known(relinked(basis, all), all)
            &&& next.members[i].page_run_id == Some(run.run.id@)
            &&& next.members[i].status == run.run.status@
            &&& next_step(next, again_ready, again_provider, later).1 is None
        }),
{
    lemma_statuses_differ();
    let x = relinked(b, runs);
    let n = x.members.len() as int;
    let basis = synced(x, runs, now);
    let all = runs.push(run);
    let y = relinked(basis, all);
    let next = synced(y, all, later);
    lemma_synced_upto_members(x, runs, n, now);
    lemma_synced_upto_members(y, all, n, later);
    assert(x.members[i] == linked_member(b.members[i], runs));
    assert(basis.members[i] == synced_member(x.members[i], run_status(x.members[i], runs), now));
    lemma_find_first_push(runs, run, run_has_key(run.idempotency_key@));
    lemma_find_first_push(runs, run, run_has_id(run.run.id@));
    assert(y.members[i] == linked_member(basis.members[i], all));
    assert(run_status(y.members[i], all) == Some(run.run.status@));
    assert forall|j: int| 0 <= j < n && j != i implies #[trigger] y.members[j] == basis.members[j]
        && run_status(y.members[j], all) == run_status(x.members[j], runs) by {
        let was = x.members[j];
        assert(was == linked_member(b.members[j], runs));
        assert(basis.members[j] == synced_member(was, run_status(was, runs), now));
        lemma_find_first_push(runs, run, run_has_key(was.dispatch_key));
        assert(y.members[j] == linked_member(basis.members[j], all));
        if was.page_run_id is Some {
            lemma_find_first_push(runs, run, run_has_id(was.page_run_id->0));
        }
    }
    assert forall|j: int| 0 <= j < n implies outcome_known(#[trigger] y.members[j], all) by {
        if j != i {
            assert(outcome_known(x.members[j], runs));
        }
    }
    assert forall|j: int| 0 <= j < i implies !is_open(#[trigger] next.members[j]) by {
        assert(basis.members[j].status == "candidate_ready"@);
        assert(y.members[j] == basis.members[j]);
        assert(basis.members[j] == synced_member(
            x.members[j],
            run_status(x.members[j], runs),
            now,
        ));
        assert(outcome_known(x.members[j], runs));
    }
    lemma_first_open_is(next, i);
}

/// What a member takes over is the outcome of the run that it is linked to, and of no other:
/// once it was handed to a child, nothing that becomes of the parent reaches it.
pub proof fn only_linked_runs_are_taken_over(
    b: BatchView,
    runs: Seq<ScopedRun>,
    changed: Seq<ScopedRun>,
    k: int,
    now: i64,
)
    requires
        0 <= k <= b.members.len(),
        forall|j: int|
            0 <= j < b.members.len() ==> run_status(#[trigger] b.members[j], runs) == run_status(
                b.members[j],
                changed,
            ),
    ensures
        synced_upto(b, runs, k, now) == synced_upto(b, changed, k, now),
        k == b.members.len() ==> synced(b, runs, now) == synced(b, changed, now),
    decreases k,
{
    if k > 0 {
        only_linked_runs_are_taken_over(b, runs, changed, k - 1, now);
        assert(run_status(b.members[k - 1], runs) == run_status(b.members[k - 1], changed));
    }
}

/// A new attempt at a page has a higher number than every attempt before it.
pub proof fn attempts_are_numbered_upwards(
    runs: Seq<ScopedRun>,
    manifest: Seq<char>,
    page: Seq<char>,
)
    ensures
        forall|i: int|
            0 <= i < runs.len() && is_attempt_at(#[trigger] runs[i], manifest, page)
                ==> runs[i].run.attempt_no < attempt_after(runs, manifest, page),
{
    assert forall|i: int|
        0 <= i < runs.len() && is_attempt_at(
            #[trigger] runs[i],
            manifest,
            page,
        ) implies runs[i].run.attempt_no < attempt_after(runs, manifest, page) by {
        lemma_top_attempt(runs, manifest, page, i);
    }
}

proof fn lemma_top_attempt(runs: Seq<ScopedRun>, manifest: Seq<char>, page: Seq<char>, i: int)
    requires
        0 <= i < runs.len(),
        is_attempt_at(runs[i], manifest, page),
    ensures
        top_attempt(runs, manifest, page) is Some,
        runs[i].run.attempt_no <= top_attempt(runs, manifest, page)->0,
    decreases runs.len(),
{
    if i < runs.len() - 1 {
        assert(runs.drop_last()[i] == runs[i]);
        lemma_top_attempt(runs.drop_last(), manifest, page, i);
    }
}

/// A batch has one driver at a time: while it is claimed, no other claim is granted, only its
/// driver can give it back, and once that happened it can be claimed again.
pub proof fn claim_is_exclusive(
    b: BatchView,
    token: Seq<char>,
    other: Seq<char>,
    now: i64,
    later: i64,
)
    requires
        claimable(b, now),
        now <= i64::MAX - BATCH_LEASE_MS,
        now <= later <= now + BATCH_LEASE_MS,
        token != other,
    ensures
        holds(claimed(b, token, now), token, later),
        !claimable(claimed(b, token, now), later),
        !holds(claimed(b, token, now), other, later),
        released(claimed(b, token, now), other) == claimed(b, token, now),
        claimable(released(claimed(b, token, now), token), later),
{
}

} // verus!
