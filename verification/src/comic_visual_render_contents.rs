//! What a page run sends, keeps and leaves behind.
use crate::comic_page_compiler::compiled;
use crate::comic_page_contents::compiled_request_answers_its_request;
use crate::comic_visual::ComicVisualManifest;
use crate::comic_visual_asset::{
    is_available, lineage_holds, AssetCandidateRow, ComicVisualPageAssetGetInput,
};
use crate::comic_visual_render::{
    asset_agrees, candidate_holds, candidate_metadata_value, dispatch_request, dispatched_reference,
    ending_spec, finish_spec, frozen_model, frozen_provider, frozen_reference, is_preflight_code,
    manifest_page, new_run_identity, new_run_state, node_asks, node_config_value,
    node_reference_value, page_has_id, preflight_failure_value, prepared_request,
    previous_is_scoped, previous_reference_value, retry_request, row_is_readable, run_is,
    start_answer, start_identity, start_repeats, with_previous, CandidateFacts, ComicVisualPageRun,
    ComicVisualPageRunStartInput, FinishView, NewRun, PreviousPage, ProviderOutcome, ReferenceAsset,
    RunNodeRequest, RunRow, StartAnswer, StartContext,
};
use crate::json::{
    bool_at, entered_member_is_found, field, int_at, items_at, json_parsed, json_same,
    lemma_lookup_push, lookup, no_members, other_members_stay, text_at, JsonView,
};
use crate::paths::lies_under;
use crate::sequence::lemma_first_index;
use crate::text::{is_blank, lowered, opt_view, texts_view, trimmed};
use vstd::prelude::*;

verus! {

// ---------------------------------------------------------------------------
// What is sent
// ---------------------------------------------------------------------------

/// A name that is found stands somewhere.
proof fn lemma_found(m: Seq<(Seq<char>, JsonView)>, key: Seq<char>) -> (i: int)
    requires
        lookup(m, key) is Some,
    ensures
        0 <= i < m.len(),
        m[i] == (key, lookup(m, key)->0),
    decreases m.len(),
{
    if m[0].0 == key {
        0
    } else {
        let rest = m.subrange(1, m.len() as int);
        1 + lemma_found(rest, key)
    }
}

/// Equal values hold the same texts: a text of the one stands under the same name in the other.
pub proof fn equal_values_hold_the_same_texts(a: JsonView, b: JsonView, key: Seq<char>)
    requires
        json_same(a, b),
        text_at(a, key) is Some,
    ensures
        text_at(b, key) == text_at(a, key),
{
    let m = a->Obj_0;
    let i = lemma_found(m, key);
    assert(json_same(m[i].1, lookup(b->Obj_0, m[i].0)->0));
}

/// Whether a request for the image service asks for what a run was frozen with: its prompt, its
/// model and its size, and its one reference where it has one.
pub open spec fn sends_what_was_frozen(run: ComicVisualPageRun, node: RunNodeRequest) -> bool {
    let frozen = run.request_json@;
    let chosen = field(run.reference_snapshot_json@, "autoSelectedReference"@);
    let sent = items_at(node.config@, "references"@);
    &&& node.node_type@ == "comicVisualPage"@
    &&& node.category@ == "generate"@
    &&& text_at(frozen, "compiledPrompt"@) is Some
    &&& text_at(node.config@, "prompt"@) == text_at(frozen, "compiledPrompt"@)
    &&& text_at(frozen, "model"@) is Some
    &&& text_at(node.config@, "model"@) == text_at(frozen, "model"@)
    &&& text_at(frozen, "size"@) is Some
    &&& text_at(node.config@, "size"@) == text_at(frozen, "size"@)
    &&& chosen is None ==> field(node.config@, "references"@) is None && node.input_assets@.len()
        == 0
    &&& chosen is Some ==> {
        &&& text_at(chosen->0, "path"@) is Some
        &&& text_at(chosen->0, "role"@) == Some("previous_panel"@)
        &&& int_at(chosen->0, "pageNo"@) is Some && int_at(chosen->0, "pageNo"@)->0 < run.page_no
        &&& sent is Some && sent->0.len() == 1
        &&& text_at(sent->0[0], "path"@) == text_at(chosen->0, "path"@)
        &&& text_at(sent->0[0], "role"@) == Some("previous_panel"@)
        &&& int_at(sent->0[0], "sortOrder"@) == Some(0int)
        &&& field(sent->0[0], "weight"@) == Some(JsonView::Float("1.0"@))
        &&& node.input_assets@.len() == 1
        &&& Some(node.input_assets@[0].path@) == text_at(chosen->0, "path"@)
        &&& node.input_assets@[0].kind@ == "image"@
    }
}

/// Whether the frozen request of a run is for its own page of its own manifest.
pub open spec fn frozen_request_is_of_run(
    run: ComicVisualPageRun,
    manifest: ComicVisualManifest,
) -> bool {
    let frozen = run.request_json@;
    &&& manifest.freshness@ == "ready"@
    &&& manifest.manifest_fingerprint@ == run.manifest_fingerprint@
    &&& text_at(frozen, "schemaVersion"@) == Some(run.compiler_contract_version@)
    &&& text_at(frozen, "manifestFingerprint"@) == Some(run.manifest_fingerprint@)
    &&& text_at(frozen, "productionPageId"@) == Some(run.production_page_id@)
}

proof fn lemma_reference_fields(path: Seq<char>)
    ensures
        text_at(node_reference_value(path), "path"@) == Some(path),
        text_at(node_reference_value(path), "role"@) == Some("previous_panel"@),
        field(node_reference_value(path), "weight"@) == Some(JsonView::Float("1.0"@)),
        int_at(node_reference_value(path), "sortOrder"@) == Some(0int),
{
    broadcast use lemma_lookup_push;

    reveal_strlit("path");
    reveal_strlit("role");
    reveal_strlit("weight");
    reveal_strlit("sortOrder");
    assert("path"@.len() == 4);
    assert("role"@.len() == 4);
    assert("path"@[0] == 'p');
    assert("role"@[0] == 'r');
    assert("weight"@.len() == 6);
    assert("sortOrder"@.len() == 9);
}

proof fn lemma_config_fields(value: JsonView, prompt: Seq<char>, reference: Option<Seq<char>>)
    ensures
        text_at(node_config_value(value, prompt, reference), "prompt"@) == Some(prompt),
        text_at(node_config_value(value, prompt, reference), "model"@) == text_at(value, "model"@),
        field(node_config_value(value, prompt, reference), "size"@) == field(value, "size"@),
        field(node_config_value(value, prompt, reference), "references"@) == match reference {
            Some(path) => Some(JsonView::Arr(Seq::empty().push(node_reference_value(path)))),
            None => None,
        },
{
    broadcast use lemma_lookup_push;

    reveal_strlit("prompt");
    reveal_strlit("model");
    reveal_strlit("size");
    reveal_strlit("references");
    assert("size"@.len() == 4);
    assert("model"@.len() == 5);
    assert("prompt"@.len() == 6);
    assert("references"@.len() == 10);
}

proof fn lemma_retry_fields(run: ComicVisualPageRun)
    requires
        retry_request(run) is Ok,
    ensures
        ({
            let r = retry_request(run)->Ok_0;
            &&& text_at(r, "schemaVersion"@) == Some(run.compiler_contract_version@)
            &&& text_at(r, "manifestFingerprint"@) == Some(run.manifest_fingerprint@)
            &&& text_at(r, "productionPageId"@) == Some(run.production_page_id@)
            &&& field(r, "model"@) == field(run.request_json@, "model"@)
            &&& field(r, "size"@) == field(run.request_json@, "size"@)
        }),
{
    broadcast use lemma_lookup_push;

    reveal_strlit("schemaVersion");
    reveal_strlit("manifestFingerprint");
    reveal_strlit("productionPageId");
    reveal_strlit("model");
    reveal_strlit("size");
    assert("size"@.len() == 4);
    assert("model"@.len() == 5);
    assert("schemaVersion"@.len() == 13);
    assert("productionPageId"@.len() == 16);
    assert("manifestFingerprint"@.len() == 19);
}

/// A run sends what it was frozen with and nothing else, and only while that is still the
/// request for its page of the present manifest.
pub proof fn claimed_run_sends_what_was_frozen(
    run: ComicVisualPageRun,
    manifest: ComicVisualManifest,
    layout_accepted: bool,
    project: Seq<char>,
    work: Seq<char>,
    row: Option<ReferenceAsset>,
    is_file: bool,
    node: RunNodeRequest,
)
    requires
        dispatch_request(run, manifest, layout_accepted) is Ok,
        dispatched_reference(run, project, work, row, is_file) is Ok,
        node_asks(
            node,
            dispatch_request(run, manifest, layout_accepted)->Ok_0,
            dispatched_reference(run, project, work, row, is_file)->Ok_0,
        ),
    ensures
        sends_what_was_frozen(run, node),
        frozen_request_is_of_run(run, manifest),
{
    let value = dispatch_request(run, manifest, layout_accepted)->Ok_0;
    let reference = dispatched_reference(run, project, work, row, is_file)->Ok_0;
    let page = manifest_page(manifest.manifest@, run.production_page_id@)->0;
    let k = lemma_first_index(
        items_at(manifest.manifest@, "pages"@)->0,
        page_has_id(run.production_page_id@),
    );
    assert(page_has_id(run.production_page_id@)(page));
    let model = text_at(run.request_json@, "model"@)->0;
    lemma_retry_fields(run);
    compiled_request_answers_its_request(
        run.compiler_contract_version@,
        retry_request(run)->Ok_0,
        manifest.manifest_fingerprint@,
        manifest.manifest@,
        page,
        model,
        layout_accepted,
    );
    equal_values_hold_the_same_texts(value, run.request_json@, "compiledPrompt"@);
    equal_values_hold_the_same_texts(value, run.request_json@, "model"@);
    equal_values_hold_the_same_texts(value, run.request_json@, "size"@);
    equal_values_hold_the_same_texts(value, run.request_json@, "schemaVersion"@);
    equal_values_hold_the_same_texts(value, run.request_json@, "manifestFingerprint"@);
    equal_values_hold_the_same_texts(value, run.request_json@, "productionPageId"@);
    lemma_config_fields(value, text_at(value, "compiledPrompt"@)->0, reference);
    if reference is Some {
        lemma_reference_fields(reference->0);
        let sent = items_at(node.config@, "references"@)->0;
        assert(sent[0] == node_reference_value(reference->0));
    }
}

/// A retry asks for the page that the run was frozen for, of the same manifest, under the same
/// contract, with the frozen model and size, and for nothing else.
pub proof fn retry_asks_for_the_frozen_page(
    input: ComicVisualPageRunStartInput,
    run: ComicVisualPageRun,
    project: Seq<char>,
    work: Seq<char>,
    key: Seq<char>,
)
    requires
        start_repeats(input, run, project, work, key),
    ensures
        input.project_id@ == project && input.novel_work_id@ == work,
        input.manifest_id@ == run.manifest_id@,
        input.idempotency_key@ == key,
        input.production_page_id@ == run.production_page_id@,
        input.manifest_fingerprint@ == run.manifest_fingerprint@,
        input.compiler_contract_version@ == run.compiler_contract_version@,
        text_at(input.request_json@, "schemaVersion"@) == Some(run.compiler_contract_version@),
        text_at(input.request_json@, "manifestFingerprint"@) == Some(run.manifest_fingerprint@),
        text_at(input.request_json@, "productionPageId"@) == Some(run.production_page_id@),
        text_at(input.request_json@, "model"@) == text_at(run.request_json@, "model"@),
        text_at(input.request_json@, "size"@) == text_at(run.request_json@, "size"@),
        input.request_json@->Obj_0.len() == 3 + (if field(run.request_json@, "model"@) is Some {
            1int
        } else {
            0
        }) + (if field(run.request_json@, "size"@) is Some {
            1int
        } else {
            0
        }),
        input.reference_snapshot_json@ == JsonView::Obj(Seq::empty()),
{
    lemma_retry_fields(run);
}

/// A start compiles the page it names: of the present manifest, under the contract that was
/// asked for.
pub proof fn start_compiles_the_page_it_names(
    input: ComicVisualPageRunStartInput,
    manifest: ComicVisualManifest,
    default_model: Seq<char>,
    layout_accepted: bool,
)
    requires
        prepared_request(input, manifest, default_model, layout_accepted) is Ok,
    ensures
        ({
            let out = prepared_request(input, manifest, default_model, layout_accepted)->Ok_0;
            &&& manifest.freshness@ == "ready"@
            &&& !is_blank(input.idempotency_key@)
            &&& text_at(out, "productionPageId"@) == Some(input.production_page_id@)
            &&& text_at(out, "manifestFingerprint"@) == Some(input.manifest_fingerprint@)
            &&& input.manifest_fingerprint@ == manifest.manifest_fingerprint@
            &&& text_at(out, "schemaVersion"@) == Some(input.compiler_contract_version@)
            &&& input.reference_snapshot_json@ is Obj
            &&& input.reference_snapshot_json@->Obj_0.len() == 0
        }),
{
    let page = manifest_page(manifest.manifest@, input.production_page_id@)->0;
    let k = lemma_first_index(
        items_at(manifest.manifest@, "pages"@)->0,
        page_has_id(input.production_page_id@),
    );
    assert(page_has_id(input.production_page_id@)(page));
    compiled_request_answers_its_request(
        input.compiler_contract_version@,
        input.request_json@,
        manifest.manifest_fingerprint@,
        manifest.manifest@,
        page,
        default_model,
        layout_accepted,
    );
}

// ---------------------------------------------------------------------------
// What a run is stored with
// ---------------------------------------------------------------------------

proof fn lemma_previous_fields(p: PreviousPage)
    ensures
        text_at(previous_reference_value(p), "runId"@) == Some(p.run_id@),
        text_at(previous_reference_value(p), "assetId"@) == Some(p.asset_id@),
        text_at(previous_reference_value(p), "path"@) == Some(p.path@),
        int_at(previous_reference_value(p), "pageNo"@) == Some(p.page_no as int),
        text_at(previous_reference_value(p), "role"@) == Some("previous_panel"@),
        text_at(previous_reference_value(p), "selection"@) == Some(
            "same_manifest_candidate_ready"@,
        ),
{
    broadcast use lemma_lookup_push;

    reveal_strlit("runId");
    reveal_strlit("assetId");
    reveal_strlit("path");
    reveal_strlit("pageNo");
    reveal_strlit("role");
    reveal_strlit("selection");
    assert("path"@.len() == 4);
    assert("role"@.len() == 4);
    assert("path"@[0] == 'p');
    assert("role"@[0] == 'r');
    assert("runId"@.len() == 5);
    assert("pageNo"@.len() == 6);
    assert("assetId"@.len() == 7);
    assert("selection"@.len() == 9);
}

/// A previous page that is put into a reference snapshot is the reference that a run with that
/// snapshot is claimed with; whatever else the snapshot holds stays as it was. It is put there
/// only where its file is there and its asset tells this manifest and that run.
pub proof fn previous_page_is_the_reference(
    manifest: ComicVisualManifest,
    m: Seq<(Seq<char>, JsonView)>,
    p: PreviousPage,
    metadata: Option<JsonView>,
    is_file: bool,
    run: ComicVisualPageRun,
)
    requires
        with_previous(manifest, m, p, metadata, is_file) == Ok::<JsonView, Seq<char>>(
            run.reference_snapshot_json@,
        ),
    ensures
        frozen_reference(run) == if p.page_no < run.page_no {
            Ok::<Option<(Seq<char>, Seq<char>, Seq<char>, int)>, Seq<char>>(
                Some((p.run_id@, p.asset_id@, p.path@, p.page_no as int)),
            )
        } else {
            Err("VISUAL_REFERENCE_SCOPE_MISMATCH"@)
        },
        forall|k: Seq<char>|
            k != "autoSelectedReference"@ ==> #[trigger] field(run.reference_snapshot_json@, k)
                == lookup(m, k),
        text_at(
            field(run.reference_snapshot_json@, "autoSelectedReference"@)->0,
            "selection"@,
        ) == Some("same_manifest_candidate_ready"@),
        is_file && !is_blank(p.path@),
        metadata is Some,
        text_at(metadata->0, "projectId"@) == Some(manifest.project_id@),
        text_at(metadata->0, "novelWorkId"@) == Some(manifest.novel_work_id@),
        text_at(metadata->0, "comicVisualManifestId"@) == Some(manifest.id@),
        text_at(metadata->0, "visualRunId"@) == Some(p.run_id@),
{
    lemma_previous_fields(p);
    entered_member_is_found(m, "autoSelectedReference"@, previous_reference_value(p));
    assert forall|k: Seq<char>| k != "autoSelectedReference"@ implies #[trigger] field(
        run.reference_snapshot_json@,
        k,
    ) == lookup(m, k) by {
        other_members_stay(m, "autoSelectedReference"@, previous_reference_value(p), k);
    }
}

proof fn lemma_candidate_fields(
    run: ComicVisualPageRun,
    project: Seq<char>,
    work: Seq<char>,
    chapter: Seq<char>,
)
    ensures
        ({
            let v = candidate_metadata_value(run, project, work, chapter);
            &&& text_at(v, "projectId"@) == Some(project)
            &&& text_at(v, "novelWorkId"@) == Some(work)
            &&& text_at(v, "productionChapterId"@) == Some(chapter)
            &&& text_at(v, "comicVisualManifestId"@) == Some(run.manifest_id@)
            &&& text_at(v, "productionPageId"@) == Some(run.production_page_id@)
            &&& text_at(v, "visualRunId"@) == Some(run.id@)
            &&& text_at(v, "generationAttemptId"@) == Some(run.generation_attempt_id@)
            &&& text_at(v, "manifestFingerprint"@) == Some(run.manifest_fingerprint@)
        }),
{
    broadcast use lemma_lookup_push;

    reveal_strlit("projectId");
    reveal_strlit("novelWorkId");
    reveal_strlit("productionChapterId");
    reveal_strlit("comicVisualManifestId");
    reveal_strlit("productionPageId");
    reveal_strlit("visualRunId");
    reveal_strlit("generationAttemptId");
    reveal_strlit("manifestFingerprint");
    assert("projectId"@.len() == 9);
    assert("novelWorkId"@.len() == 11);
    assert("visualRunId"@.len() == 11);
    assert("novelWorkId"@[0] == 'n');
    assert("visualRunId"@[0] == 'v');
    assert("productionPageId"@.len() == 16);
    assert("productionChapterId"@.len() == 19);
    assert("generationAttemptId"@.len() == 19);
    assert("manifestFingerprint"@.len() == 19);
    assert("productionChapterId"@[0] == 'p');
    assert("generationAttemptId"@[0] == 'g');
    assert("manifestFingerprint"@[0] == 'm');
    assert("comicVisualManifestId"@.len() == 21);
}

/// What a stored candidate tells of itself names the run that made it, its page and its
/// manifest; so it can become the reference of a later page of that manifest and of no other,
/// and passes as that reference when the later page is claimed.
pub proof fn stored_candidate_can_be_referred_to(
    made: ComicVisualPageRun,
    manifest: ComicVisualManifest,
    later: ComicVisualPageRun,
    row: ReferenceAsset,
    project: Seq<char>,
    work: Seq<char>,
    chapter: Seq<char>,
    is_file: bool,
)
    ensures
        ({
            let told = candidate_metadata_value(made, project, work, chapter);
            &&& text_at(told, "productionChapterId"@) == Some(chapter)
            &&& text_at(told, "productionPageId"@) == Some(made.production_page_id@)
            &&& text_at(told, "generationAttemptId"@) == Some(made.generation_attempt_id@)
            &&& text_at(told, "manifestFingerprint"@) == Some(made.manifest_fingerprint@)
            &&& previous_is_scoped(told, manifest, made.id@) <==> (manifest.id@ == made.manifest_id@
                && manifest.project_id@ == project && manifest.novel_work_id@ == work)
            &&& asset_agrees(later, made.id@, row.path@, project, work, row, Some(told), is_file)
                <==> (row.kind@ == "image"@ && is_file && later.manifest_id@ == made.manifest_id@)
        }),
{
    lemma_candidate_fields(made, project, work, chapter);
}

/// A candidate that is stored with what it tells of itself can be shown to its own project and
/// work, by its run, as long as what is stored of the run names the same page, manifest,
/// chapter and attempt; and to nobody else.
pub proof fn stored_candidate_can_be_shown(
    run: ComicVisualPageRun,
    project: Seq<char>,
    work: Seq<char>,
    chapter: Seq<char>,
    row: AssetCandidateRow,
    input: ComicVisualPageAssetGetInput,
)
    ensures
        lineage_holds(candidate_metadata_value(run, project, work, chapter), row, input) <==> (
        input.project_id@ == project && input.novel_work_id@ == work && input.run_id@ == run.id@
            && row.project_id@ == project && row.novel_work_id@ == work
            && row.production_chapter_id@ == chapter && row.manifest_id@ == run.manifest_id@
            && row.production_page_id@ == run.production_page_id@ && row.generation_attempt_id@
            == run.generation_attempt_id@ && row.run_fingerprint@ == run.manifest_fingerprint@),
{
    lemma_candidate_fields(run, project, work, chapter);
}

/// A page image that is accepted is an image file below the directory of its run, of a format
/// that was found in its bytes and is one of the four known ones; a declared format agrees with
/// it, whatever its case.
pub proof fn accepted_candidate_is_a_page_image(f: CandidateFacts)
    requires
        candidate_holds(f),
    ensures
        f.kind@ == "image"@,
        f.is_file && f.image_valid,
        f.path is Some && f.output_dir is Some,
        lies_under(texts_view(f.path->0@), texts_view(f.output_dir->0@)),
        f.detected_format is Some,
        f.detected_format->0@ == "png"@ || f.detected_format->0@ == "jpg"@ || f.detected_format->0@
            == "jpeg"@ || f.detected_format->0@ == "webp"@,
        f.declared_format is Some ==> lowered(f.declared_format->0@) == lowered(
            f.detected_format->0@,
        ),
{
}

/// A new run is one of the page that was asked for: with its compiled request, its key and its
/// number, and with the previous page as its reference, where there is one.
pub proof fn new_run_is_of_its_page(
    input: ComicVisualPageRunStartInput,
    manifest: ComicVisualManifest,
    page: JsonView,
    request: JsonView,
    hash: Seq<char>,
    previous: Option<PreviousPage>,
    previous_is_file: bool,
    active: bool,
    ctx: StartContext,
    run: NewRun,
)
    requires
        start_answer(
            input,
            manifest,
            page,
            hash,
            None,
            previous,
            previous_is_file,
            active,
            ctx.allow_legacy_version,
        ) matches Ok(StartAnswer::Insert { stable_key, page_no, snapshot }) && new_run_identity(
            run,
            ctx,
            request,
            hash,
            stable_key,
            page_no,
            snapshot,
        ),
    ensures
        !active,
        ctx.allow_legacy_version || input.compiler_contract_version@ == "comic-page-compiler.v3"@,
        run.id@ == ctx.run_id@,
        run.request_json@ == request,
        run.request_hash@ == hash,
        text_at(page, "stableKey"@) == Some(run.page_stable_key@),
        int_at(page, "pageNo"@) == Some(run.page_no as int),
        opt_view(run.parent_run_id) == opt_view(ctx.parent_run_id),
        run.generation_attempt_id@ == ctx.generation_attempt_id@,
        run.created_at == ctx.now,
        previous is None ==> run.reference_snapshot_json@ == JsonView::Obj(Seq::empty()),
        previous matches Some(p) ==> {
            let chosen = field(run.reference_snapshot_json@, "autoSelectedReference"@);
            &&& chosen is Some
            &&& text_at(chosen->0, "runId"@) == Some(p.run_id@)
            &&& text_at(chosen->0, "assetId"@) == Some(p.asset_id@)
            &&& text_at(chosen->0, "path"@) == Some(p.path@)
            &&& int_at(chosen->0, "pageNo"@) == Some(p.page_no as int)
            &&& text_at(chosen->0, "role"@) == Some("previous_panel"@)
            &&& previous_is_file
        },
{
    if previous is Some {
        let p = previous->0;
        lemma_previous_fields(p);
        entered_member_is_found(
            no_members(),
            "autoSelectedReference"@,
            previous_reference_value(p),
        );
    }
}

// ---------------------------------------------------------------------------
// How a run waits and ends
// ---------------------------------------------------------------------------

/// Whether a failure record says what went wrong and when, and whether to try again.
pub open spec fn failure_says(
    record: JsonView,
    code: Seq<char>,
    retryable: bool,
    now: int,
) -> bool {
    &&& text_at(record, "code"@) == Some(code)
    &&& bool_at(record, "retryable"@) == Some(retryable)
    &&& int_at(record, "observedAt"@) == Some(now)
}

/// A new run is ready to be claimed under a lease of fifteen minutes where the image service is
/// configured; else it waits as attempt zero, owned by nobody, and says that a configuration
/// is missing and that it may be tried again.
pub proof fn new_run_is_claimable_or_waits(run: NewRun, ctx: StartContext)
    requires
        new_run_state(run, ctx),
        0 <= ctx.now <= i64::MAX - 900_000,
    ensures
        ctx.configured ==> run.status@ == "queued"@ && run.attempt_no == ctx.attempt_no && opt_view(
            run.provider_id,
        ) == Some(ctx.provider_id@) && opt_view(run.owner_app_session_id) == Some(ctx.session@)
            && run.heartbeat_at == Some(ctx.now) && run.lease_expires_at is Some
            && run.lease_expires_at->0 == ctx.now + 900_000 && run.failure_json is None,
        !ctx.configured ==> run.status@ == "blocked_config"@ && run.attempt_no == 0
            && run.provider_id is None && run.owner_app_session_id is None && run.heartbeat_at is None
            && run.lease_expires_at is None && run.failure_json is Some && failure_says(
            run.failure_json->0@,
            "CONFIG_REQUIRED"@,
            true,
            ctx.now as int,
        ),
{
    broadcast use lemma_lookup_push;

    reveal_strlit("code");
    reveal_strlit("message");
    reveal_strlit("retryable");
    reveal_strlit("observedAt");
    assert("code"@.len() == 4);
    assert("message"@.len() == 7);
    assert("retryable"@.len() == 9);
    assert("observedAt"@.len() == 10);
}

proof fn lemma_ending_fields(step: FinishView, attempt_id: Seq<char>, output_dir: Seq<char>, now: int)
    requires
        i64::MIN <= now <= i64::MAX,
    ensures
        match (step, ending_spec(step, attempt_id, output_dir, now)) {
            (FinishView::Store, None) => true,
            (FinishView::Fail { code, message, retryable }, Some(end)) => end.0 == "failed"@
                && text_at(end.1, "code"@) == Some(code) && text_at(end.1, "message"@) == Some(
                message,
            ) && bool_at(end.1, "retryable"@) == Some(retryable) && int_at(end.1, "observedAt"@)
                == Some(now) && text_at(end.1, "outputDir"@) == Some(output_dir),
            (FinishView::Reconcile { code, message }, Some(end)) => end.0 == "needs_reconcile"@
                && text_at(end.1, "code"@) == Some(code) && text_at(end.1, "message"@) == Some(
                message,
            ) && bool_at(end.1, "retryable"@) == Some(false) && int_at(end.1, "observedAt"@) == Some(
                now,
            ) && text_at(end.1, "outputDir"@) == Some(output_dir) && text_at(
                end.1,
                "generationAttemptId"@,
            ) == Some(attempt_id),
            _ => false,
        },
{
    broadcast use lemma_lookup_push;

    reveal_strlit("code");
    reveal_strlit("message");
    reveal_strlit("retryable");
    reveal_strlit("observedAt");
    reveal_strlit("outputDir");
    reveal_strlit("generationAttemptId");
    assert("code"@.len() == 4);
    assert("message"@.len() == 7);
    assert("retryable"@.len() == 9);
    assert("outputDir"@.len() == 9);
    assert("retryable"@[0] == 'r');
    assert("outputDir"@[0] == 'o');
    assert("observedAt"@.len() == 10);
    assert("generationAttemptId"@.len() == 19);
}

/// Whether a service refused a run before anything was sent to it.
pub open spec fn was_never_sent(outcome: ProviderOutcome) -> bool {
    outcome matches ProviderOutcome::Failed(e) && e@ == "VISUAL_PROVIDER_UNAVAILABLE"@
}

/// A run is recorded as one to try again only where nothing was sent. It is recorded as failed
/// there and where the service answered without an image, and is left to be reconciled, with
/// the attempt it was, wherever it may have been paid for; only an image that holds ends it
/// without a failure.
pub proof fn ended_run_says_how_it_ended(
    outcome: ProviderOutcome,
    attempt_id: Seq<char>,
    output_dir: Seq<char>,
    now: int,
)
    requires
        i64::MIN <= now <= i64::MAX,
    ensures
        ({
            let ending = ending_spec(finish_spec(outcome), attempt_id, output_dir, now);
            let end = ending->0;
            let record = end.1;
            &&& ending is None <==> (outcome matches ProviderOutcome::Candidate(f)
                && candidate_holds(f))
            &&& ending is Some ==> {
                &&& bool_at(record, "retryable"@) == Some(was_never_sent(outcome))
                &&& int_at(record, "observedAt"@) == Some(now)
                &&& text_at(record, "outputDir"@) == Some(output_dir)
                &&& text_at(record, "message"@) is Some
                &&& was_never_sent(outcome) ==> end.0 == "failed"@ && text_at(record, "code"@)
                    == Some("PROVIDER_REJECTED_BEFORE_SUBMIT"@)
                &&& outcome is Empty ==> end.0 == "failed"@ && text_at(record, "code"@)
                    == Some("PROVIDER_EMPTY_RESULT"@)
                &&& outcome is Candidate ==> text_at(record, "code"@) == Some(
                    "PROVIDER_RESULT_INVALID"@,
                )
                &&& outcome is Failed && !was_never_sent(outcome) ==> text_at(record, "code"@)
                    == Some("PROVIDER_OUTCOME_UNKNOWN"@)
                &&& !was_never_sent(outcome) && !(outcome is Empty) ==> end.0
                    == "needs_reconcile"@ && text_at(record, "generationAttemptId"@) == Some(
                    attempt_id,
                )
            }
        }),
{
    lemma_ending_fields(finish_spec(outcome), attempt_id, output_dir, now);
}

/// A run that is read is the one that is stored: every column as it stands, and the JSON columns
/// by what their texts say.
pub proof fn read_run_is_the_stored_one(run: ComicVisualPageRun, row: RunRow)
    requires
        run_is(run, row),
    ensures
        run.id == row.id,
        run.manifest_id == row.manifest_id,
        run.production_page_id == row.production_page_id,
        run.manifest_fingerprint == row.manifest_fingerprint,
        run.page_stable_key == row.page_stable_key,
        run.page_no == row.page_no,
        run.compiler_contract_version == row.compiler_contract_version,
        run.provider_id == row.provider_id,
        run.provider_request_id == row.provider_request_id,
        run.asset_id == row.asset_id,
        run.status == row.status,
        run.attempt_no == row.attempt_no,
        run.parent_run_id == row.parent_run_id,
        run.generation_attempt_id == row.generation_attempt_id,
        run.owner_app_session_id == row.owner_app_session_id,
        run.submitted_at == row.submitted_at,
        run.heartbeat_at == row.heartbeat_at,
        run.lease_expires_at == row.lease_expires_at,
        run.created_at == row.created_at,
        run.finished_at == row.finished_at,
        json_parsed(row.request_json@) == Some(run.request_json@),
        json_parsed(row.reference_snapshot_json@) == Some(run.reference_snapshot_json@),
        row.failure_json is None ==> run.failure_json is None,
        row.failure_json matches Some(s) ==> json_parsed(s@) == opt_view(run.failure_json),
{
}

/// A stored run can be read just where its JSON columns are JSON.
pub proof fn run_is_readable_when_it_is_json(row: RunRow)
    ensures
        row_is_readable(row) <==> {
            &&& json_parsed(row.request_json@) is Some
            &&& json_parsed(row.reference_snapshot_json@) is Some
            &&& row.failure_json is None || json_parsed(row.failure_json->0@) is Some
        },
{
}

/// A run that failed a local check says which one, and that it is not to be tried again; only
/// the codes of local checks count as such, and never one that a service may have answered.
pub proof fn local_failure_is_final(code: Seq<char>, now: int)
    requires
        i64::MIN <= now <= i64::MAX,
    ensures
        failure_says(preflight_failure_value(code, now), code, false, now),
        is_preflight_code(code) <==> (code == "VISUAL_COMPILER_VERSION_OBSOLETE"@ || code
            == "VISUAL_MANIFEST_STALE_OR_SCOPE_MISMATCH"@ || code
            == "VISUAL_REQUEST_SOURCE_MISMATCH"@ || code == "VISUAL_REFERENCE_SCOPE_MISMATCH"@ || code
            == "VISUAL_RUN_OUTPUT_FAILED"@ || code == "VISUAL_PAGE_SCOPE_MISMATCH"@ || code
            == "VISUAL_PAGE_SEMANTICS_MISSING"@),
{
    broadcast use lemma_lookup_push;

    reveal_strlit("code");
    reveal_strlit("message");
    reveal_strlit("retryable");
    reveal_strlit("observedAt");
    assert("code"@.len() == 4);
    assert("message"@.len() == 7);
    assert("retryable"@.len() == 9);
    assert("observedAt"@.len() == 10);
}

/// A run goes to the service that it was frozen with, and is made again under the model that it
/// was frozen with, without the white space around it.
pub proof fn run_keeps_its_service_and_model(run: ComicVisualPageRun)
    ensures
        run.provider_id matches Some(id) ==> frozen_provider(run) == id@,
        run.provider_id is None ==> frozen_provider(run).len() == 0,
        match text_at(run.request_json@, "model"@) {
            Some(model) => if is_blank(model) {
                frozen_model(run.request_json@) is None
            } else {
                frozen_model(run.request_json@) == Some(trimmed(model))
            },
            None => frozen_model(run.request_json@) is None,
        },
{
}

/// What a start is told apart by names its scope, its page, its manifest and its contract, and
/// holds the request that was compiled.
pub proof fn start_is_told_apart_by_its_page(input: ComicVisualPageRunStartInput, request: JsonView)
    ensures
        ({
            let v = start_identity(input, request);
            &&& text_at(v, "projectId"@) == Some(input.project_id@)
            &&& text_at(v, "novelWorkId"@) == Some(input.novel_work_id@)
            &&& text_at(v, "manifestId"@) == Some(input.manifest_id@)
            &&& text_at(v, "productionPageId"@) == Some(input.production_page_id@)
            &&& text_at(v, "manifestFingerprint"@) == Some(input.manifest_fingerprint@)
            &&& text_at(v, "compilerContractVersion"@) == Some(input.compiler_contract_version@)
            &&& field(v, "requestJson"@) == Some(request)
            &&& field(v, "referenceSnapshotJson"@) == Some(JsonView::Obj(Seq::empty()))
        }),
{
    broadcast use lemma_lookup_push;

    reveal_strlit("projectId");
    reveal_strlit("novelWorkId");
    reveal_strlit("manifestId");
    reveal_strlit("productionPageId");
    reveal_strlit("manifestFingerprint");
    reveal_strlit("compilerContractVersion");
    reveal_strlit("requestJson");
    reveal_strlit("referenceSnapshotJson");
    assert("projectId"@.len() == 9);
    assert("manifestId"@.len() == 10);
    assert("novelWorkId"@.len() == 11);
    assert("requestJson"@.len() == 11);
    assert("novelWorkId"@[0] == 'n');
    assert("requestJson"@[0] == 'r');
    assert("productionPageId"@.len() == 16);
    assert("manifestFingerprint"@.len() == 19);
    assert("referenceSnapshotJson"@.len() == 21);
    assert("compilerContractVersion"@.len() == 23);
}

/// An asset is shown just where its run is a ready one of the caller, for a page of the chapter
/// of the present manifest, what it tells of itself is JSON that names the whole of that, and
/// its file is a page image.
pub proof fn asset_is_shown_when_it_belongs(
    row: AssetCandidateRow,
    facts: CandidateFacts,
    input: ComicVisualPageAssetGetInput,
)
    ensures
        is_available(row, facts, input) <==> {
            &&& row.run_id@ == input.run_id@ && row.run_status@ == "candidate_ready"@
            &&& row.run_project_id@ == input.project_id@ && row.project_id@ == input.project_id@
            &&& row.run_novel_work_id@ == input.novel_work_id@ && row.novel_work_id@
                == input.novel_work_id@
            &&& row.run_fingerprint@ == row.manifest_fingerprint@
            &&& row.page_chapter_id@ == row.production_chapter_id@
            &&& json_parsed(row.metadata@) is Some
            &&& tells_lineage(json_parsed(row.metadata@)->0, row, input)
            &&& candidate_holds(facts)
        },
{
}

/// Whether metadata name the page, the manifest, the run and the attempt of a row.
pub open spec fn tells_lineage(
    metadata: JsonView,
    row: AssetCandidateRow,
    input: ComicVisualPageAssetGetInput,
) -> bool {
    &&& text_at(metadata, "projectId"@) == Some(input.project_id@)
    &&& text_at(metadata, "novelWorkId"@) == Some(input.novel_work_id@)
    &&& text_at(metadata, "productionChapterId"@) == Some(row.production_chapter_id@)
    &&& text_at(metadata, "comicVisualManifestId"@) == Some(row.manifest_id@)
    &&& text_at(metadata, "productionPageId"@) == Some(row.production_page_id@)
    &&& text_at(metadata, "visualRunId"@) == Some(input.run_id@)
    &&& text_at(metadata, "generationAttemptId"@) == Some(row.generation_attempt_id@)
    &&& text_at(metadata, "manifestFingerprint"@) == Some(row.run_fingerprint@)
}

} // verus!
