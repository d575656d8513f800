//! What the commands on a batch do and what a batch shows of itself.
use crate::comic_visual::ComicVisualManifestPrepareInput;
use crate::comic_visual_batch::{
    attempt_after, authorization_of, authorization_value, authorize_intent_value, batch_shows,
    blocked_parent_refusal, brought_up, claimable, claimed, driver_error_recorded, first_state,
    holds, is_attempt_at, is_open, is_resume_step, is_retry_start, is_run_status,
    lease_failure_value, member_has_id, new_job_intent_value, output_value, parent_refusal,
    released, resume_answer, resume_basis, retry_answer, run_by_id, run_has_id, run_status,
    text_or_null, top_attempt, AuthorizationView, BatchView, ComicVisualBatch,
    ComicVisualBatchMemberRetryInput, MemberView, NovelProductionVisualAuthorizeInput,
    ProductionJob, ResumeAnswer, ResumeStep, RetryAnswer, RetryStep, ScopedRun, VisualOutputInput,
};
use crate::comic_visual_batch_driver::{
    chapter_key, chapter_page, chapter_pages, chapters_in_order, drive_spec, is_chapter_request,
    is_next_index, keys_agree, mapped_chapter, members_installed, next_step, ordered_chapters,
    planned_keys, scope_step, sorted_pages_ascend, ChapterMapRow, ChapterPageView, DriveEvent,
    DriveView, PendingView, PreparationView,
};
use crate::comic_visual_batch_progress::next_page_is_the_first_open_one;
use crate::comic_visual_batch_replay::attempts_are_numbered_upwards;
use crate::comic_visual_render::{retry_request, ComicVisualPageRun, ComicVisualPageRunStartInput};
use crate::comic_visual_render_contents::retry_asks_for_the_frozen_page;
use crate::json::{
    bool_at, field, int_at, items_at, json_parsed, lemma_lookup_push, text_at, JsonView,
};
use crate::sequence::lemma_first_index;
use crate::text::{is_blank, opt_view, trimmed};
use vstd::prelude::*;

verus! {

// ---------------------------------------------------------------------------
// Authorizing
// ---------------------------------------------------------------------------

/// What is authorized is what was asked for: comic pages of the one size, under the provider of
/// the present configuration, and under the model that was asked for or else the configured one,
/// without the white space around it. As JSON it says just that.
pub proof fn authorization_is_what_was_asked_for(
    input: VisualOutputInput,
    provider: Seq<char>,
    configured: Seq<char>,
)
    ensures
        ({
            let asked_model = match input.image_options {
                Some(o) => opt_view(o.model),
                None => None,
            };
            let asked_size = match input.image_options {
                Some(o) => opt_view(o.size),
                None => None,
            };
            let names_model = asked_model is Some && !is_blank(asked_model->0);
            let names_size = asked_size is Some && !is_blank(asked_size->0);
            let out = authorization_of(input, provider, configured);
            &&& out is Ok <==> input.target@ == "comic_pages"@ && (names_size ==> trimmed(
                asked_size->0,
            ) == "1024x1536"@)
            &&& out matches Ok(a) ==> {
                let v = authorization_value(a);
                &&& a.provider_id == provider
                &&& a.target == "comic_pages"@ && a.size == "1024x1536"@
                &&& names_model ==> a.model == Some(trimmed(asked_model->0))
                &&& !names_model && !is_blank(configured) ==> a.model == Some(trimmed(configured))
                &&& !names_model && is_blank(configured) ==> a.model is None
                &&& text_at(v, "target"@) == Some(a.target)
                &&& text_at(v, "providerId"@) == Some(provider)
                &&& text_at(v, "size"@) == Some(a.size)
                &&& text_at(v, "model"@) == a.model
                &&& a.model is None ==> field(v, "model"@) == Some(JsonView::Null)
            }
        }),
{
    broadcast use lemma_lookup_push;

    reveal_strlit("target");
    reveal_strlit("providerId");
    reveal_strlit("model");
    reveal_strlit("size");
    assert("size"@.len() == 4);
    assert("model"@.len() == 5);
    assert("target"@.len() == 6);
    assert("providerId"@.len() == 10);
}

/// What is asked for as an output is told in full: two requests that differ in their target or
/// in the options that they name are told apart.
pub proof fn output_is_told_in_full(a: VisualOutputInput, b: VisualOutputInput)
    requires
        output_value(a) == output_value(b),
    ensures
        a.target@ == b.target@,
        a.image_options is Some <==> b.image_options is Some,
        a.image_options matches Some(o) ==> opt_view(o.model) == opt_view(
            b.image_options->0.model,
        ) && opt_view(o.size) == opt_view(b.image_options->0.size),
{
    let (x, y) = (output_value(a), output_value(b));
    assert(field(x, "target"@) == Some(JsonView::Str(a.target@)) && field(y, "target"@) == Some(
        JsonView::Str(b.target@),
    )) by {
        broadcast use lemma_lookup_push;

        reveal_strlit("target");
        reveal_strlit("imageOptions");
        assert("target"@.len() == 6);
        assert("imageOptions"@.len() == 12);
    }
    let (p, q) = (field(x, "imageOptions"@)->0, field(y, "imageOptions"@)->0);
    assert(p is Obj <==> a.image_options is Some) by {
        broadcast use lemma_lookup_push;

        reveal_strlit("target");
        reveal_strlit("imageOptions");
        assert("target"@.len() == 6);
        assert("imageOptions"@.len() == 12);
    }
    assert(q is Obj <==> b.image_options is Some) by {
        broadcast use lemma_lookup_push;

        reveal_strlit("target");
        reveal_strlit("imageOptions");
        assert("target"@.len() == 6);
        assert("imageOptions"@.len() == 12);
    }
    if a.image_options is Some {
        assert(field(p, "model"@) == Some(text_or_null(opt_view(a.image_options->0.model))) && field(
            p,
            "size"@,
        ) == Some(text_or_null(opt_view(a.image_options->0.size)))) by {
            broadcast use lemma_lookup_push;

            reveal_strlit("target");
            reveal_strlit("imageOptions");
            reveal_strlit("model");
            reveal_strlit("size");
            assert("size"@.len() == 4);
            assert("model"@.len() == 5);
            assert("target"@.len() == 6);
            assert("imageOptions"@.len() == 12);
        }
        assert(field(q, "model"@) == Some(text_or_null(opt_view(b.image_options->0.model))) && field(
            q,
            "size"@,
        ) == Some(text_or_null(opt_view(b.image_options->0.size)))) by {
            broadcast use lemma_lookup_push;

            reveal_strlit("target");
            reveal_strlit("imageOptions");
            reveal_strlit("model");
            reveal_strlit("size");
            assert("size"@.len() == 4);
            assert("model"@.len() == 5);
            assert("target"@.len() == 6);
            assert("imageOptions"@.len() == 12);
        }
    }
}

/// A new batch belongs to its job, waits for the text of it and can be driven at once. Once the
/// job has succeeded it is prepared from the job's own adaptation and operation; and once its
/// pages are there, it runs and starts the first of them.
pub proof fn new_batch_gets_to_its_first_page(
    id: Seq<char>,
    job: ProductionJob,
    done: ProductionJob,
    authorization: AuthorizationView,
    pending: Seq<PendingView>,
    ids: Seq<Seq<char>>,
    now: i64,
    later: i64,
)
    requires
        done.novel_chapter_id@ == job.novel_chapter_id@,
        done.source_revision_id@ == job.source_revision_id@,
        done.status@ == "succeeded"@,
        done.default_adaptation_id is Some,
        done.apply_operation_id is Some,
        pending.len() > 0,
        authorization.model is Some,
    ensures
        ({
            let first = first_state(id, job, authorization, now);
            let (scoped, from) = scope_step(first, done, later);
            let ready = members_installed(scoped, pending, ids, later);
            let (searched, started) = next_step(ready, true, authorization.provider_id, later);
            &&& first.id == id && first.production_job_id == job.id@
            &&& first.project_id == job.project_id@ && first.novel_work_id == job.novel_work_id@
            &&& first.novel_chapter_id == job.novel_chapter_id@
            &&& first.source_revision_id == job.source_revision_id@
            &&& first.status == "waiting_text"@ && first.members.len() == 0
            &&& first.output_target == "comic_pages"@ && first.authorization == authorization
            &&& first.finished_at is None && first.safe_error_code is None
            &&& first.created_at == now && first.updated_at == now
            &&& claimable(first, later)
            &&& from == Some((done.default_adaptation_id->0@, done.apply_operation_id->0@))
            &&& scoped.comic_adaptation_id == Some(done.default_adaptation_id->0@)
            &&& scoped.apply_operation_id == Some(done.apply_operation_id->0@)
            &&& ready.status == "running"@
            &&& ready.members.len() == pending.len() && ready.total_members == pending.len()
            &&& searched == ready
            &&& started == Some(ready.members[0])
            &&& ready.members[0].production_page_id == pending[0].page_id
            &&& ready.members[0].manifest_id == pending[0].manifest_id
            &&& ready.members[0].id == ids[0]
            &&& ready.members[0].ordinal == 1
        }),
{
    reveal_strlit("pending");
    reveal_strlit("candidate_ready");
    reveal_strlit("queued");
    reveal_strlit("running");
    assert("queued"@.len() == 6);
    assert("pending"@.len() == 7);
    assert("running"@.len() == 7);
    assert("pending"@[0] == 'p');
    assert("running"@[0] == 'r');
    assert("candidate_ready"@.len() == 15);
    let first = first_state(id, job, authorization, now);
    let scoped = scope_step(first, done, later).0;
    let ready = members_installed(scoped, pending, ids, later);
    assert(is_next_index(ready.members, 0));
    next_page_is_the_first_open_one(ready, 0, later);
}

/// A batch whose job is about another source, or has lost what its pages are made from, is
/// blocked and makes no page; one whose job is not done waits.
pub proof fn batch_follows_its_job(b: BatchView, job: ProductionJob, now: i64)
    ensures
        ({
            let (after, from) = scope_step(b, job, now);
            let moved = job.novel_chapter_id@ != b.novel_chapter_id || job.source_revision_id@
                != b.source_revision_id;
            let drifted = (b.comic_adaptation_id is Some && b.comic_adaptation_id != opt_view(
                job.default_adaptation_id,
            )) || (b.apply_operation_id is Some && b.apply_operation_id != opt_view(
                job.apply_operation_id,
            ));
            let missing = job.default_adaptation_id is None || job.apply_operation_id is None;
            &&& after.members == b.members && after.authorization == b.authorization
            &&& moved ==> after.status == "blocked_stale"@ && from is None
            &&& !moved && job.status@ != "succeeded"@ ==> after.status == "waiting_text"@
                && from is None
            &&& !moved && job.status@ == "succeeded"@ && (drifted || missing) ==> after.status
                == "blocked_stale"@ && from is None && after.safe_error_code is Some
                && after.finished_at == Some(now)
            &&& !moved && job.status@ == "succeeded"@ && !drifted && !missing ==> (from is Some
                <==> b.members.len() == 0) && (after.status == b.status || after.status
                == "preparing"@)
            &&& from matches Some(f) ==> opt_view(job.default_adaptation_id) == Some(f.0)
                && opt_view(job.apply_operation_id) == Some(f.1)
        }),
{
}

// ---------------------------------------------------------------------------
// Preparing
// ---------------------------------------------------------------------------

/// Whether a chapter stands in a plan at a place, under a key.
pub open spec fn is_planned_at(planned: Seq<JsonView>, a: int, key: Seq<char>) -> bool {
    0 <= a < planned.len() && text_at(planned[a], "stableKey"@) == Some(key)
}

/// Whether rows map a key to a chapter.
pub open spec fn rows_map(rows: Seq<ChapterMapRow>, key: Seq<char>, chapter: Seq<char>) -> bool {
    exists|r: int|
        0 <= r < rows.len() && (#[trigger] rows[r]).stable_key@ == key && rows[r].entity_id@
            == chapter
}

/// Whether one chapter comes before another in a plan.
pub open spec fn is_planned_before(planned: Seq<JsonView>, a: Seq<char>, b: Seq<char>) -> bool {
    exists|i: int, j: int|
        i < j && #[trigger] is_planned_at(planned, i, a) && #[trigger] is_planned_at(planned, j, b)
}

proof fn lemma_mapped(rows: Seq<ChapterMapRow>, key: Seq<char>)
    ensures
        mapped_chapter(rows, key) matches Some(id) ==> rows_map(rows, key, id),
        mapped_chapter(rows, key) is None ==> forall|r: int|
            0 <= r < rows.len() ==> (#[trigger] rows[r]).stable_key@ != key,
    decreases rows.len(),
{
    if rows.len() > 0 {
        let rest = rows.drop_last();
        lemma_mapped(rest, key);
        assert(rows.last() == rows[rows.len() - 1]);
        if rows.last().stable_key@ == key {
            assert(rows_map(rows, key, rows.last().entity_id@));
        } else if mapped_chapter(rest, key) is Some {
            let id = mapped_chapter(rest, key)->0;
            let r = choose|r: int|
                0 <= r < rest.len() && (#[trigger] rest[r]).stable_key@ == key && rest[r].entity_id@
                    == id;
            assert(rows[r] == rest[r]);
        } else {
            assert forall|r: int| 0 <= r < rows.len() implies (#[trigger] rows[r]).stable_key@
                != key by {
                if r < rest.len() {
                    assert(rest[r] == rows[r]);
                }
            }
        }
    }
}

proof fn lemma_in_order(rows: Seq<ChapterMapRow>, keys: Seq<Seq<char>>)
    ensures
        ({
            let v = chapters_in_order(rows, keys);
            &&& forall|i: int| 0 <= i < v.len() ==> rows_map(rows, (#[trigger] v[i]).1, v[i].0)
            &&& forall|i: int| 0 <= i < v.len() ==> keys.contains((#[trigger] v[i]).1)
            &&& forall|i: int, j: int|
                0 <= i < j < v.len() ==> comes_earlier(
                    keys,
                    (#[trigger] v[i]).1,
                    (#[trigger] v[j]).1,
                )
            &&& forall|a: int|
                0 <= a < keys.len() && mapped_chapter(rows, #[trigger] keys[a]) is Some
                    ==> names_key(v, keys[a])
        }),
    decreases keys.len(),
{
    if keys.len() > 0 {
        let rest = keys.drop_last();
        let n = keys.len() - 1;
        lemma_in_order(rows, rest);
        lemma_mapped(rows, keys.last());
        let before = chapters_in_order(rows, rest);
        let v = chapters_in_order(rows, keys);
        assert(keys.last() == keys[n]);
        assert forall|i: int| 0 <= i < v.len() implies keys.contains((#[trigger] v[i]).1) by {
            if i < before.len() {
                assert(v[i] == before[i]);
                assert(rest.contains(before[i].1));
                let a = choose|a: int| 0 <= a < rest.len() && rest[a] == before[i].1;
                assert(keys[a] == v[i].1);
            } else {
                assert(keys[n] == v[i].1);
            }
        }
        assert forall|i: int, j: int| 0 <= i < j < v.len() implies comes_earlier(
            keys,
            (#[trigger] v[i]).1,
            (#[trigger] v[j]).1,
        ) by {
            assert(v[i] == before[i]);
            if j < before.len() {
                assert(v[j] == before[j]);
                assert(comes_earlier(rest, before[i].1, before[j].1));
                let (a, b) = choose|a: int, b: int|
                    0 <= a < b < rest.len() && rest[a] == before[i].1 && rest[b] == before[j].1;
                assert(keys[a] == v[i].1 && keys[b] == v[j].1);
            } else {
                assert(rest.contains(before[i].1));
                let a = choose|a: int| 0 <= a < rest.len() && rest[a] == before[i].1;
                assert(keys[a] == v[i].1 && keys[n] == v[j].1);
            }
        }
        assert forall|a: int|
            0 <= a < keys.len() && mapped_chapter(rows, #[trigger] keys[a]) is Some implies names_key(
            v,
            keys[a],
        ) by {
            if a < n {
                assert(rest[a] == keys[a]);
                assert(names_key(before, rest[a]));
                let i = choose|i: int| 0 <= i < before.len() && (#[trigger] before[i]).1 == rest[a];
                assert(v[i].1 == keys[a]);
            } else {
                assert(v[before.len() as int].1 == keys[a]);
            }
        }
    }
}

spec fn comes_earlier(keys: Seq<Seq<char>>, x: Seq<char>, y: Seq<char>) -> bool {
    exists|a: int, b: int| 0 <= a < b < keys.len() && keys[a] == x && keys[b] == y
}

/// Whether chapters name a key.
pub open spec fn names_key(v: Seq<(Seq<char>, Seq<char>)>, key: Seq<char>) -> bool {
    exists|i: int| 0 <= i < v.len() && (#[trigger] v[i]).1 == key
}

/// The chapters of a batch are those that the receipt maps, each with its own key, none left
/// out, in the order of the plan that they were applied from.
pub proof fn chapters_come_as_planned(rows: Seq<ChapterMapRow>, planned: Seq<JsonView>)
    requires
        ordered_chapters(rows) is Ok,
        json_parsed(rows[0].body_json@) is Some,
        items_at(json_parsed(rows[0].body_json@)->0, "chapters"@) == Some(planned),
    ensures
        ({
            let v = ordered_chapters(rows)->Ok_0;
            &&& forall|i: int| 0 <= i < v.len() ==> rows_map(rows, (#[trigger] v[i]).1, v[i].0)
            &&& forall|r: int|
                0 <= r < rows.len() ==> names_key(v, (#[trigger] rows[r]).stable_key@)
            &&& forall|i: int, j: int|
                0 <= i < j < v.len() ==> is_planned_before(
                    planned,
                    (#[trigger] v[i]).1,
                    (#[trigger] v[j]).1,
                )
        }),
{
    let keys = planned_keys(rows[0].body_json@)->0;
    let v = ordered_chapters(rows)->Ok_0;
    lemma_in_order(rows, keys);
    assert forall|a: int| 0 <= a < keys.len() implies is_planned_at(
        planned,
        a,
        #[trigger] keys[a],
    ) by {
        assert(chapter_key(planned[a]) is Some);
    }
    assert forall|i: int, j: int| 0 <= i < j < v.len() implies is_planned_before(
        planned,
        (#[trigger] v[i]).1,
        (#[trigger] v[j]).1,
    ) by {
        let (a, b) = choose|a: int, b: int|
            0 <= a < b < keys.len() && keys[a] == v[i].1 && keys[b] == v[j].1;
        assert(is_planned_at(planned, a, keys[a]) && is_planned_at(planned, b, keys[b]));
    }
    assert forall|r: int| 0 <= r < rows.len() implies names_key(
        v,
        (#[trigger] rows[r]).stable_key@,
    ) by {
        let key = rows[r].stable_key@;
        lemma_mapped(rows, key);
        assert(keys.contains(key));
        let a = choose|a: int| 0 <= a < keys.len() && keys[a] == key;
        assert(mapped_chapter(rows, keys[a]) is Some);
    }
}

/// A page that is prepared from a manifest is the page that the manifest says: with its
/// identifier, number and key, which are there.
pub proof fn prepared_page_is_the_manifest_page(manifest: JsonView, p: ChapterPageView)
    requires
        chapter_pages(manifest) is Some,
        chapter_pages(manifest)->0.contains(p),
    ensures
        items_at(manifest, "pages"@) is Some,
        exists|i: int|
            0 <= i < items_at(manifest, "pages"@)->0.len() && says_page(
                #[trigger] items_at(manifest, "pages"@)->0[i],
                p,
            ),
{
    broadcast use vstd::seq_lib::group_to_multiset_ensures;

    let pages = items_at(manifest, "pages"@)->0;
    let listed = Seq::new(pages.len(), |i: int| chapter_page(pages[i])->0);
    sorted_pages_ascend(listed);
    let sorted = chapter_pages(manifest)->0;
    assert(sorted.to_multiset().contains(p));
    assert(listed.to_multiset().contains(p));
    assert(listed.contains(p));
    let i = choose|i: int| 0 <= i < listed.len() && listed[i] == p;
    assert(chapter_page(pages[i]) is Some);
    assert(says_page(items_at(manifest, "pages"@)->0[i], p));
}

/// Whether a page of a manifest says what a prepared page is.
pub open spec fn says_page(page: JsonView, p: ChapterPageView) -> bool {
    &&& text_at(page, "productionPageId"@) == Some(p.page_id) && p.page_id.len() > 0
    &&& int_at(page, "pageNo"@) == Some(p.page_no) && p.page_no > 0
    &&& text_at(page, "stableKey"@) == Some(p.stable_key) && p.stable_key.len() > 0
}

// ---------------------------------------------------------------------------
// Retrying and resuming
// ---------------------------------------------------------------------------

/// Whether a number is that of a new attempt at a page: higher than all before it.
pub open spec fn is_new_attempt(
    runs: Seq<ScopedRun>,
    manifest: Seq<char>,
    page: Seq<char>,
    attempt: int,
) -> bool {
    &&& forall|i: int|
        0 <= i < runs.len() && (#[trigger] runs[i]).run.manifest_id@ == manifest
            && runs[i].run.production_page_id@ == page ==> runs[i].run.attempt_no < attempt
    &&& 0 < attempt || exists|i: int|
        0 <= i < runs.len() && (#[trigger] runs[i]).run.attempt_no < 0
}

proof fn lemma_new_attempt(runs: Seq<ScopedRun>, manifest: Seq<char>, page: Seq<char>)
    ensures
        is_new_attempt(runs, manifest, page, attempt_after(runs, manifest, page)),
{
    attempts_are_numbered_upwards(runs, manifest, page);
    assert forall|i: int|
        0 <= i < runs.len() && (#[trigger] runs[i]).run.manifest_id@ == manifest
            && runs[i].run.production_page_id@ == page implies runs[i].run.attempt_no
        < attempt_after(runs, manifest, page) by {
        assert(is_attempt_at(runs[i], manifest, page));
    }
    lemma_top_is_one(runs, manifest, page);
}

proof fn lemma_top_is_one(runs: Seq<ScopedRun>, manifest: Seq<char>, page: Seq<char>)
    ensures
        crate::comic_visual_batch::top_attempt(runs, manifest, page) matches Some(n) ==> exists|
            i: int,
        |
            0 <= i < runs.len() && (#[trigger] runs[i]).run.attempt_no == n,
    decreases runs.len(),
{
    if runs.len() > 0 {
        let rest = runs.drop_last();
        lemma_top_is_one(rest, manifest, page);
        let top = crate::comic_visual_batch::top_attempt(runs, manifest, page);
        let before = crate::comic_visual_batch::top_attempt(rest, manifest, page);
        if top is Some {
            if top == before {
                let i = choose|i: int|
                    0 <= i < rest.len() && (#[trigger] rest[i]).run.attempt_no == top->0;
                assert(runs[i].run.attempt_no == top->0);
            } else {
                assert(runs[runs.len() - 1].run.attempt_no == top->0);
            }
        }
    }
}

proof fn lemma_run_by_id(runs: Seq<ScopedRun>, id: Seq<char>)
    ensures
        run_by_id(runs, id) matches Some(r) ==> r.run.id@ == id && runs.contains(r),
{
    let p = run_has_id(id);
    let k = lemma_first_index(runs, p);
    if k < runs.len() {
        assert(p(runs[k]));
    }
}

/// A retry starts an attempt only at the page that was named: the current one of the batch,
/// whose run is the one that was named and has failed, for the same page of the same manifest,
/// under the provider of the batch and with its frozen model and size. It was confirmed that it
/// may be charged for, nobody holds the batch, and the attempt is a new one.
pub proof fn retry_starts_the_failed_page_again(
    b: BatchView,
    runs: Seq<ScopedRun>,
    input: ComicVisualBatchMemberRetryInput,
    job_id: Seq<char>,
    request_hash: Seq<char>,
    image_ready: bool,
    provider: Seq<char>,
    now: i64,
    m: MemberView,
    parent: ComicVisualPageRun,
    attempt: int,
)
    requires
        retry_answer(
            b,
            runs,
            input,
            job_id,
            request_hash,
            None,
            image_ready,
            provider,
            now,
        ) == Ok::<RetryAnswer, Seq<char>>(RetryAnswer::Start(m, parent, attempt)),
    ensures
        input.confirm_possible_charge && !is_blank(input.idempotency_key@),
        image_ready && b.authorization.provider_id == provider,
        b.lease_expires_at is None || b.lease_expires_at->0 <= now,
        b.production_job_id == input.production_job_id@ && job_id == input.production_job_id@,
        b.project_id == input.project_id@ && b.novel_work_id == input.novel_work_id@,
        m.id == input.member_id@,
        m.production_page_id == input.production_page_id@,
        m.page_run_id == Some(input.expected_parent_run_id@),
        m.status == "failed"@,
        parent.id@ == input.expected_parent_run_id@,
        parent.status@ == "failed"@,
        parent.production_page_id@ == m.production_page_id,
        parent.manifest_id@ == m.manifest_id,
        opt_view(parent.provider_id) == Some(provider),
        ({
            let basis = brought_up(b, runs, now);
            let model = match basis.authorization.model {
                Some(model) => Some(model),
                None => basis.resolved_model,
            };
            &&& basis.members.contains(m)
            &&& basis.status == "failed"@
            &&& model is Some && !is_blank(model->0)
            &&& text_at(parent.request_json@, "model"@) is Some && trimmed(
                text_at(parent.request_json@, "model"@)->0,
            ) == trimmed(model->0)
            &&& text_at(parent.request_json@, "size"@) is Some && trimmed(
                text_at(parent.request_json@, "size"@)->0,
            ) == basis.authorization.size
            &&& exists|i: int| is_next_index(basis.members, i) && basis.members[i].id == m.id
        }),
        is_new_attempt(runs, m.manifest_id, m.production_page_id, attempt),
        attempt <= i64::MAX,
{
    let basis = brought_up(b, runs, now);
    let p = member_has_id(input.member_id@);
    let k = lemma_first_index(basis.members, p);
    assert(p(basis.members[k]));
    assert(basis.members[k] == m);
    lemma_run_by_id(runs, input.expected_parent_run_id@);
    lemma_new_attempt(runs, m.manifest_id, m.production_page_id);
    let q = |x: MemberView| is_open(x);
    let i = lemma_first_index(basis.members, q);
    assert(q(basis.members[i]));
    assert forall|j: int| 0 <= j < i implies (#[trigger] basis.members[j]).status
        == "candidate_ready"@ by {
        assert(!q(basis.members[j]));
    }
    assert(is_next_index(basis.members, i));
}

/// A resume starts an attempt only at the first page that is not ready, and only where the run
/// of that page waited for a configuration and nothing of it was ever sent; the attempt is a
/// new one, for the same page of the same manifest.
pub proof fn resume_starts_the_waiting_page(
    b: BatchView,
    runs: Seq<ScopedRun>,
    resume_hash: Seq<char>,
    image_ready: bool,
    configured: Seq<char>,
    provider: Seq<char>,
    now: i64,
    m: MemberView,
    parent: ComicVisualPageRun,
    attempt: int,
)
    requires
        resume_answer(
            b,
            runs,
            resume_hash,
            None,
            image_ready,
            configured,
            provider,
            now,
        ) == Ok::<ResumeAnswer, Seq<char>>(ResumeAnswer::Start(m, parent, attempt)),
    ensures
        image_ready && b.authorization.provider_id == provider,
        b.lease_expires_at is None || b.lease_expires_at->0 <= now,
        m.page_run_id == Some(parent.id@),
        parent.status@ == "blocked_config"@,
        parent.attempt_no == 0,
        parent.submitted_at is None && parent.provider_request_id is None && parent.asset_id is None,
        parent.manifest_id@ == m.manifest_id,
        parent.production_page_id@ == m.production_page_id,
        is_new_attempt(runs, m.manifest_id, m.production_page_id, attempt),
        0 < attempt <= i64::MAX,
        ({
            let basis = resume_basis(b, runs, configured, now);
            exists|i: int| is_next_index(basis.members, i) && basis.members[i] == m
        }),
{
    let basis = resume_basis(b, runs, configured, now);
    lemma_run_by_id(runs, m.page_run_id->0);
    lemma_new_attempt(runs, m.manifest_id, m.production_page_id);
    let q = |x: MemberView| is_open(x);
    let i = lemma_first_index(basis.members, q);
    assert(q(basis.members[i]));
    assert forall|j: int| 0 <= j < i implies (#[trigger] basis.members[j]).status
        == "candidate_ready"@ by {
        assert(!q(basis.members[j]));
    }
    assert(is_next_index(basis.members, i));
}

// ---------------------------------------------------------------------------
// Driving
// ---------------------------------------------------------------------------

/// A driver holds a batch for a minute and changes nothing else of it by taking it or giving it
/// back; a batch that has ended is not taken.
pub proof fn lease_lasts_a_minute(b: BatchView, token: Seq<char>, now: i64)
    requires
        now <= i64::MAX - 60_000,
    ensures
        ({
            let taken = claimed(b, token, now);
            &&& taken.lease_owner == Some(token)
            &&& taken.lease_expires_at is Some && taken.lease_expires_at->0 == now + 60_000
            &&& taken == (BatchView {
                lease_owner: taken.lease_owner,
                lease_expires_at: taken.lease_expires_at,
                ..b
            })
            &&& released(taken, token).lease_owner is None
            &&& released(taken, token).lease_expires_at is None
            &&& released(taken, token).members == b.members && released(taken, token).status
                == b.status
            &&& b.status == "candidate_ready"@ || b.status == "failed"@ || b.status
                == "needs_reconcile"@ || b.status == "blocked_stale"@ ==> !claimable(b, now)
        }),
{
    reveal_strlit("candidate_ready");
    reveal_strlit("failed");
    reveal_strlit("needs_reconcile");
    reveal_strlit("blocked_stale");
    reveal_strlit("authorized");
    reveal_strlit("waiting_text");
    reveal_strlit("preparing");
    reveal_strlit("running");
    reveal_strlit("blocked_config");
    assert("failed"@.len() == 6);
    assert("running"@.len() == 7);
    assert("preparing"@.len() == 9);
    assert("authorized"@.len() == 10);
    assert("waiting_text"@.len() == 12);
    assert("blocked_stale"@.len() == 13);
    assert("blocked_config"@.len() == 14);
    assert("candidate_ready"@.len() == 15);
    assert("needs_reconcile"@.len() == 15);
    assert("candidate_ready"@[0] == 'c');
    assert("needs_reconcile"@[0] == 'n');
}

/// An error of a driver is recorded only for the driver that holds the batch, and never over an
/// unknown outcome; it ends the batch, with its code, and leaves the pages as they are.
pub proof fn driver_error_ends_the_batch(b: BatchView, token: Seq<char>, code: Seq<char>, now: i64)
    ensures
        ({
            let after = driver_error_recorded(b, token, code, now);
            &&& after.members == b.members
            &&& after.lease_owner == b.lease_owner
            &&& b.status == "needs_reconcile"@ ==> after == b
            &&& b.lease_owner != Some(token) || b.lease_expires_at is None
                || b.lease_expires_at->0 < now ==> after == b
            &&& b.status != "needs_reconcile"@ && b.lease_owner == Some(token)
                && b.lease_expires_at is Some && b.lease_expires_at->0 >= now ==> (after.status
                == "failed"@ || after.status == "blocked_stale"@) && after.safe_error_code == Some(
                code,
            ) && after.safe_user_message is Some && after.finished_at == Some(now)
        }),
{
}

/// A driver goes its way step by step: it prepares a batch that it has taken, reads the
/// configuration, looks for a page, starts it, links its run and gives the batch back. An error
/// is recorded as it is, and a batch that somebody else holds is looked at again when that ends.
pub proof fn driver_goes_step_by_step(
    code: String,
    expires: i64,
    now: i64,
    status: String,
)
    ensures
        drive_spec(DriveEvent::Claimed { taken: Ok(true), lease_expires_at: None, now })
            is Prepare,
        drive_spec(
            DriveEvent::Claimed { taken: Ok(false), lease_expires_at: Some(expires), now },
        ) == if expires > now {
            DriveView::WakeAt(expires)
        } else {
            DriveView::Stop
        },
        drive_spec(DriveEvent::Prepared(Ok(()))) is ReadConfig,
        drive_spec(DriveEvent::Prepared(Err(code))) == DriveView::FailAndRelease(code@),
        drive_spec(DriveEvent::ConfigRead(true)) is Search,
        drive_spec(DriveEvent::ConfigRead(false)) is PauseAndRelease,
        drive_spec(DriveEvent::Searched(Ok(true))) is Start,
        drive_spec(DriveEvent::Searched(Ok(false))) is WatchAndRelease,
        drive_spec(DriveEvent::Searched(Err(code))) == DriveView::FailAndRelease(code@),
        drive_spec(DriveEvent::Linked(Ok(()), status)) == (DriveView::Release {
            dispatch: status@ == "queued"@,
        }),
        drive_spec(DriveEvent::Linked(Err(code), status)) == DriveView::FailAndRelease(code@),
{
}

// ---------------------------------------------------------------------------
// Showing
// ---------------------------------------------------------------------------

/// What is shown of a batch is what is stored of it, page by page in the same places. A page is
/// shown as ready just where it is; a run that failed, waits or is unknown is shown so on its
/// page, unless what the page was made from is stale.
pub proof fn shown_batch_is_the_stored_one(p: ComicVisualBatch, b: BatchView, runs: Seq<ScopedRun>)
    requires
        batch_shows(p, b, runs),
    ensures
        p.id@ == b.id && p.project_id@ == b.project_id && p.novel_work_id@ == b.novel_work_id,
        p.novel_chapter_id@ == b.novel_chapter_id && p.source_revision_id@ == b.source_revision_id,
        p.production_job_id@ == b.production_job_id && p.output_target@ == b.output_target,
        p.status@ == b.status,
        p.total_members == b.total_members && p.completed_members == b.completed_members,
        p.current_member_ordinal == b.current_member_ordinal,
        opt_view(p.safe_error_code) == b.safe_error_code,
        opt_view(p.safe_user_message) == b.safe_user_message,
        p.created_at == b.created_at && p.updated_at == b.updated_at && p.finished_at
            == b.finished_at,
        p.members@.len() == b.members.len(),
        forall|i: int|
            0 <= i < b.members.len() ==> {
                let m = b.members[i];
                let s = #[trigger] p.members@[i];
                let outcome = run_status(m, runs);
                &&& s.member_id@ == m.id && s.ordinal == m.ordinal
                &&& s.manifest_id@ == m.manifest_id
                &&& s.production_chapter_id@ == m.production_chapter_id
                &&& s.production_page_id@ == m.production_page_id
                &&& s.page_no == m.page_no && s.page_stable_key@ == m.page_stable_key
                &&& opt_view(s.page_run_id) == m.page_run_id
                &&& s.status@ == "candidate_ready"@ <==> m.status == "candidate_ready"@
                &&& m.status != "candidate_ready"@ && (outcome == Some("failed"@) || outcome == Some(
                    "needs_reconcile"@,
                ) || outcome == Some("blocked_config"@)) ==> s.status@ == outcome->0 || s.status@
                    == "blocked_stale"@
                &&& s.status@ == "blocked_stale"@ ==> m.status == "blocked_stale"@ || b.status
                    == "blocked_stale"@
                &&& s.status@ == "failed"@ ==> m.status == "failed"@ || outcome == Some("failed"@)
            },
{
    reveal_strlit("candidate_ready");
    reveal_strlit("failed");
    reveal_strlit("needs_reconcile");
    reveal_strlit("blocked_stale");
    reveal_strlit("blocked_config");
    assert("failed"@.len() == 6);
    assert("blocked_stale"@.len() == 13);
    assert("blocked_config"@.len() == 14);
    assert("candidate_ready"@.len() == 15);
    assert("needs_reconcile"@.len() == 15);
    assert("candidate_ready"@[0] == 'c');
    assert("needs_reconcile"@[0] == 'n');
    assert forall|i: int| 0 <= i < b.members.len() implies crate::comic_visual_batch::member_shows(
        #[trigger] p.members@[i],
        b.members[i],
        run_status(b.members[i], runs),
        b.status,
        b.current_member_ordinal,
    ) by {}
}

/// The attempt that a retry starts is one at the page of its member: under a key made of the
/// member's own and of the failed run, with the model that the failed run was frozen with, and
/// for just what that run asked for.
pub proof fn retry_repeats_the_failed_run(
    step: RetryStep,
    b: BatchView,
    m: MemberView,
    parent: ComicVisualPageRun,
    attempt: int,
)
    requires
        is_retry_start(step, b, m, parent, attempt),
    ensures
        match step {
            RetryStep::Start { member_index, start, model, attempt_no } => {
                &&& member_index < b.members.len() && b.members[member_index as int] == m
                &&& attempt_no == attempt
                &&& text_at(parent.request_json@, "model"@) is Some && model@ == trimmed(
                    text_at(parent.request_json@, "model"@)->0,
                )
                &&& start.idempotency_key@ == m.dispatch_key + ":retry:"@ + parent.id@
                &&& repeats_run(start, b, parent)
            },
            _ => false,
        },
{
    if let RetryStep::Start { member_index, start, model, attempt_no } = step {
        retry_asks_for_the_frozen_page(
            start,
            parent,
            b.project_id,
            b.novel_work_id,
            m.dispatch_key + ":retry:"@ + parent.id@,
        );
    }
}

/// Whether a start asks for what a run of a batch asked for.
pub open spec fn repeats_run(
    start: ComicVisualPageRunStartInput,
    b: BatchView,
    run: ComicVisualPageRun,
) -> bool {
    let asked = start.request_json@;
    &&& start.project_id@ == b.project_id && start.novel_work_id@ == b.novel_work_id
    &&& start.manifest_id@ == run.manifest_id@
    &&& start.production_page_id@ == run.production_page_id@
    &&& text_at(asked, "productionPageId"@) == Some(run.production_page_id@)
    &&& text_at(asked, "manifestFingerprint"@) == Some(run.manifest_fingerprint@)
    &&& text_at(asked, "schemaVersion"@) == Some(run.compiler_contract_version@)
    &&& text_at(asked, "model"@) == text_at(run.request_json@, "model"@)
    &&& text_at(asked, "size"@) == text_at(run.request_json@, "size"@)
}

/// What a resume does is what it comes to: it hands out the queued run, drives the batch, or
/// starts an attempt at the waiting page, under a key made of the member's own and of the run
/// that waited, and for just what that run asked for.
pub proof fn resume_does_what_it_comes_to(
    step: ResumeStep,
    b: BatchView,
    answer: ResumeAnswer,
    chosen: Seq<char>,
)
    requires
        is_resume_step(step, b, answer, chosen),
    ensures
        match step {
            ResumeStep::Replay(child) => answer == ResumeAnswer::Replay(opt_view(child)),
            ResumeStep::Queued(run) => answer == ResumeAnswer::Queued(run@),
            ResumeStep::Running => answer is Running,
            ResumeStep::Idle => answer is Idle,
            ResumeStep::Start { member_index, start, model, attempt_no } => match answer {
                ResumeAnswer::Start(m, parent, attempt) => {
                    &&& member_index < b.members.len() && b.members[member_index as int] == m
                    &&& attempt_no == attempt && model@ == chosen
                    &&& start.idempotency_key@ == m.dispatch_key + ":config-resume:"@ + parent.id@
                    &&& repeats_run(start, b, parent)
                },
                _ => false,
            },
        },
{
    if let ResumeStep::Start { member_index, start, model, attempt_no } = step {
        if let ResumeAnswer::Start(m, parent, attempt) = answer {
            retry_asks_for_the_frozen_page(
                start,
                parent,
                b.project_id,
                b.novel_work_id,
                m.dispatch_key + ":config-resume:"@ + parent.id@,
            );
        }
    }
}

/// The next chapter is prepared for the batch, from its adaptation and operation, under a key of
/// the batch and the chapter.
pub proof fn next_chapter_is_prepared(
    input: ComicVisualManifestPrepareInput,
    p: PreparationView,
    b: BatchView,
)
    requires
        is_chapter_request(input, p, b),
    ensures
        input.project_id@ == b.project_id && input.novel_work_id@ == b.novel_work_id,
        input.comic_adaptation_id@ == p.adaptation && input.apply_operation_id@ == p.operation,
        input.production_chapter_id@ == (p.chapters[p.prepared.len() as int]).0,
        input.idempotency_key@ == b.id + ":manifest:"@ + input.production_chapter_id@,
{
}

/// A run whose lease has run out says so, when it was seen, and that it is not to be tried
/// again.
pub proof fn expired_run_is_not_retried(now: int)
    requires
        i64::MIN <= now <= i64::MAX,
    ensures
        text_at(lease_failure_value(now), "code"@) == Some("VISUAL_RUN_LEASE_EXPIRED"@),
        bool_at(lease_failure_value(now), "retryable"@) == Some(false),
        int_at(lease_failure_value(now), "observedAt"@) == Some(now),
{
    broadcast use lemma_lookup_push;

    reveal_strlit("code");
    reveal_strlit("message");
    reveal_strlit("retryable");
    reveal_strlit("observedAt");
    assert("code"@.len() == 4);
    assert("message"@.len() == 7);
    assert("retryable"@.len() == 9);
    assert("observedAt"@.len() == 10);
}

/// What is authorized is told apart by its job and by what is asked for.
pub proof fn intents_name_their_job(
    input: NovelProductionVisualAuthorizeInput,
    job: Seq<char>,
    authorization: AuthorizationView,
)
    ensures
        text_at(authorize_intent_value(input), "productionJobId"@) == Some(
            input.production_job_id@,
        ),
        field(authorize_intent_value(input), "visualOutput"@) == Some(
            output_value(input.visual_output),
        ),
        text_at(new_job_intent_value(job, authorization), "productionJobId"@) == Some(job),
        field(new_job_intent_value(job, authorization), "authorization"@) == Some(
            authorization_value(authorization),
        ),
{
    broadcast use lemma_lookup_push;

    reveal_strlit("productionJobId");
    reveal_strlit("visualOutput");
    reveal_strlit("authorization");
    assert("visualOutput"@.len() == 12);
    assert("authorization"@.len() == 13);
    assert("productionJobId"@.len() == 15);
}

/// A run has one of six statuses, and no other is taken over.
pub proof fn runs_have_six_statuses(s: Seq<char>)
    ensures
        is_run_status(s) <==> (s == "candidate_ready"@ || s == "queued"@ || s == "running"@ || s
            == "needs_reconcile"@ || s == "blocked_config"@ || s == "failed"@),
{
}

/// The first attempt at a page has the number one, and each later one the number behind the
/// highest before it.
pub proof fn attempts_are_counted_from_one(
    runs: Seq<ScopedRun>,
    manifest: Seq<char>,
    page: Seq<char>,
)
    ensures
        (forall|i: int| 0 <= i < runs.len() ==> !is_for_page(#[trigger] runs[i], manifest, page))
            ==> attempt_after(runs, manifest, page) == 1,
        (exists|i: int| 0 <= i < runs.len() && is_for_page(#[trigger] runs[i], manifest, page))
            ==> exists|i: int|
            0 <= i < runs.len() && is_for_page(#[trigger] runs[i], manifest, page)
                && runs[i].run.attempt_no + 1 == attempt_after(runs, manifest, page),
{
    lemma_top_of_page(runs, manifest, page);
}

/// Whether a run was made for a page of a manifest.
pub open spec fn is_for_page(run: ScopedRun, manifest: Seq<char>, page: Seq<char>) -> bool {
    run.run.manifest_id@ == manifest && run.run.production_page_id@ == page
}

proof fn lemma_top_of_page(runs: Seq<ScopedRun>, manifest: Seq<char>, page: Seq<char>)
    ensures
        match top_attempt(runs, manifest, page) {
            Some(n) => exists|i: int|
                0 <= i < runs.len() && is_for_page(#[trigger] runs[i], manifest, page)
                    && runs[i].run.attempt_no == n,
            None => forall|i: int|
                0 <= i < runs.len() ==> !is_for_page(#[trigger] runs[i], manifest, page),
        },
    decreases runs.len(),
{
    if runs.len() > 0 {
        let rest = runs.drop_last();
        let n = runs.len() - 1;
        lemma_top_of_page(rest, manifest, page);
        assert(runs.last() == runs[n]);
        let top = top_attempt(runs, manifest, page);
        let before = top_attempt(rest, manifest, page);
        if top is Some && top == before {
            let i = choose|i: int|
                0 <= i < rest.len() && is_for_page(#[trigger] rest[i], manifest, page)
                    && rest[i].run.attempt_no == top->0;
            assert(is_for_page(runs[i], manifest, page));
        } else if top is Some {
            assert(is_for_page(runs[n], manifest, page));
        } else {
            assert forall|i: int| 0 <= i < runs.len() implies !is_for_page(
                #[trigger] runs[i],
                manifest,
                page,
            ) by {
                if i < n {
                    assert(rest[i] == runs[i]);
                }
            }
        }
    }
}

/// The chapters of a receipt are put in order just where there is one, all were applied from one
/// revision of a plan that names its chapters, and every one of them is planned, once.
pub proof fn chapters_are_ordered_when_planned(rows: Seq<ChapterMapRow>)
    ensures
        ordered_chapters(rows) is Ok <==> {
            &&& rows.len() > 0
            &&& forall|i: int|
                0 <= i < rows.len() ==> (#[trigger] rows[i]).revision_id@ == rows[0].revision_id@
                    && rows[i].body_json@ == rows[0].body_json@
            &&& planned_keys(rows[0].body_json@) is Some
            &&& keys_agree(rows, planned_keys(rows[0].body_json@)->0)
        },
{
}

/// A run that waited for a configuration is followed by an attempt just where it is attempt
/// zero, nothing of it was ever sent, there is a number left, and what it asked for can be asked
/// for again.
pub proof fn waiting_run_is_followed_when_unsent(parent: ComicVisualPageRun, attempt: int)
    ensures
        blocked_parent_refusal(parent, attempt) is None <==> {
            &&& parent.attempt_no == 0
            &&& parent.submitted_at is None && parent.provider_request_id is None
                && parent.asset_id is None
            &&& 1 <= attempt <= i64::MAX
            &&& retry_request(parent) is Ok
        },
{
}

/// A failed run is followed by an attempt just where it is of the same page, manifest and
/// provider, and was frozen with the model and size of the batch.
pub proof fn failed_run_is_followed_when_it_fits(
    b: BatchView,
    m: MemberView,
    parent: ComicVisualPageRun,
    provider: Seq<char>,
)
    ensures
        ({
            let model = match b.authorization.model {
                Some(model) => Some(model),
                None => b.resolved_model,
            };
            let asked_model = text_at(parent.request_json@, "model"@);
            let asked_size = text_at(parent.request_json@, "size"@);
            parent_refusal(b, m, parent, provider) is None <==> {
                &&& parent.status@ == "failed"@
                &&& parent.production_page_id@ == m.production_page_id && parent.manifest_id@
                    == m.manifest_id
                &&& opt_view(parent.provider_id) == Some(provider) && provider
                    == b.authorization.provider_id
                &&& model is Some && !is_blank(model->0)
                &&& asked_model is Some && trimmed(asked_model->0) == trimmed(model->0)
                &&& asked_size is Some && !is_blank(asked_size->0) && trimmed(asked_size->0)
                    == b.authorization.size
            }
        }),
{
}

} // verus!
