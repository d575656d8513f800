//! Durable, manifest-scoped page rendering attempts.
//!
//! A run carries a frozen request. The library decides when a run may be started, replayed,
//! claimed, retried or finished; a submission whose outcome is unknown is never offered for an
//! automatic retry.
use crate::comic_page_compiler::{
    are_request_keys, compiled, is_supported, is_supported_compiler_contract,
    normalize_start_request, normalized_page_size_is_fixed, request_matches, request_options,
    request_text, COMPILER_CONTRACT, COMPILER_CONTRACT_V2,
};
use crate::comic_visual::{hash_tells_apart, ComicVisualManifest};
use crate::json::{
    field, fields, int_at, items_at, items_view, json_array, json_parsed, json_same,
    json_same_reflexive, lemma_lookup, members_view, names_distinct, no_members, parse, put_member,
    render, set_member, text_at, Fields, Json, JsonView,
};
use crate::paths::{lies_under, path_lies_under};
use crate::sequence::{find_first, lemma_find_first, lemma_find_first_push, lemma_first_index};
use crate::text::{
    blank, eq_ignore_ascii_case, is_blank, is_text, lowered, opt_view, owned, result_view, same,
    texts_view, trim, trim_is_idempotent, trimmed,
};
use vstd::prelude::*;

verus! {

/// How long a claimed run is leased, in milliseconds.
pub const LEASE_MS: i64 = 900_000;

#[derive(Debug)]
pub struct ComicVisualPageRunStartInput {
    pub project_id: String,
    pub novel_work_id: String,
    pub manifest_id: String,
    pub production_page_id: String,
    pub manifest_fingerprint: String,
    pub compiler_contract_version: String,
    pub request_json: Json,
    pub reference_snapshot_json: Json,
    pub idempotency_key: String,
}

#[derive(Debug)]
pub struct ComicVisualPageRunGetInput {
    pub project_id: String,
    pub novel_work_id: String,
    pub run_id: String,
}

#[derive(Debug)]
pub struct ComicVisualPageRunListInput {
    pub project_id: String,
    pub novel_work_id: String,
    pub manifest_id: String,
    pub production_page_id: Option<String>,
}

#[derive(Debug)]
pub struct ComicVisualPageRunRetryInput {
    pub project_id: String,
    pub novel_work_id: String,
    pub run_id: String,
    pub idempotency_key: String,
}

/// One attempt to render a page.
#[derive(Debug)]
pub struct ComicVisualPageRun {
    pub id: String,
    pub manifest_id: String,
    pub production_page_id: String,
    pub manifest_fingerprint: String,
    pub page_stable_key: String,
    pub page_no: i64,
    pub compiler_contract_version: String,
    pub request_json: Json,
    pub reference_snapshot_json: Json,
    pub provider_id: Option<String>,
    pub provider_request_id: Option<String>,
    pub asset_id: Option<String>,
    pub status: String,
    pub attempt_no: i64,
    pub parent_run_id: Option<String>,
    pub generation_attempt_id: String,
    pub owner_app_session_id: Option<String>,
    pub submitted_at: Option<i64>,
    pub heartbeat_at: Option<i64>,
    pub lease_expires_at: Option<i64>,
    pub failure_json: Option<Json>,
    pub created_at: i64,
    pub finished_at: Option<i64>,
}

/// A run as it is stored.
#[derive(Debug)]
pub struct RunRow {
    pub id: String,
    pub manifest_id: String,
    pub production_page_id: String,
    pub manifest_fingerprint: String,
    pub page_stable_key: String,
    pub page_no: i64,
    pub compiler_contract_version: String,
    pub request_json: String,
    pub reference_snapshot_json: String,
    pub provider_id: Option<String>,
    pub provider_request_id: Option<String>,
    pub asset_id: Option<String>,
    pub status: String,
    pub attempt_no: i64,
    pub parent_run_id: Option<String>,
    pub generation_attempt_id: String,
    pub owner_app_session_id: Option<String>,
    pub submitted_at: Option<i64>,
    pub heartbeat_at: Option<i64>,
    pub lease_expires_at: Option<i64>,
    pub failure_json: Option<String>,
    pub created_at: i64,
    pub finished_at: Option<i64>,
}

/// An asset handed to a node.
#[derive(Debug)]
pub struct AssetIn {
    pub path: String,
    pub kind: String,
}

/// A node request for the image service.
#[derive(Debug)]
pub struct RunNodeRequest {
    pub node_type: String,
    pub category: String,
    pub config: Json,
    pub input_assets: Vec<AssetIn>,
}

// ---------------------------------------------------------------------------
// Stored runs
// ---------------------------------------------------------------------------

/// Whether the JSON columns of a row can be read.
pub open spec fn row_is_readable(row: RunRow) -> bool {
    &&& json_parsed(row.request_json@) is Some
    &&& json_parsed(row.reference_snapshot_json@) is Some
    &&& row.failure_json is Some ==> json_parsed(row.failure_json->0@) is Some
}

/// Whether a run is a row with its JSON columns read.
pub open spec fn run_is(run: ComicVisualPageRun, row: RunRow) -> bool {
    run_holds(
        run,
        row,
        json_parsed(row.request_json@),
        json_parsed(row.reference_snapshot_json@),
        match row.failure_json {
            Some(s) => json_parsed(s@),
            None => None,
        },
    )
}

/// Whether a run is a row with the values of its JSON columns.
pub open spec fn run_holds(
    run: ComicVisualPageRun,
    row: RunRow,
    request: Option<JsonView>,
    snapshot: Option<JsonView>,
    failure: Option<JsonView>,
) -> bool {
    &&& run.id == row.id
    &&& run.manifest_id == row.manifest_id
    &&& run.production_page_id == row.production_page_id
    &&& run.manifest_fingerprint == row.manifest_fingerprint
    &&& run.page_stable_key == row.page_stable_key
    &&& run.page_no == row.page_no
    &&& run.compiler_contract_version == row.compiler_contract_version
    &&& Some(run.request_json@) == request
    &&& Some(run.reference_snapshot_json@) == snapshot
    &&& run.provider_id == row.provider_id
    &&& run.provider_request_id == row.provider_request_id
    &&& run.asset_id == row.asset_id
    &&& run.status == row.status
    &&& run.attempt_no == row.attempt_no
    &&& run.parent_run_id == row.parent_run_id
    &&& run.generation_attempt_id == row.generation_attempt_id
    &&& run.owner_app_session_id == row.owner_app_session_id
    &&& run.submitted_at == row.submitted_at
    &&& run.heartbeat_at == row.heartbeat_at
    &&& run.lease_expires_at == row.lease_expires_at
    &&& opt_view(run.failure_json) == failure
    &&& run.created_at == row.created_at
    &&& run.finished_at == row.finished_at
}

/// Reads a stored run.
pub fn run_from_row(row: RunRow) -> (r: Result<ComicVisualPageRun, String>)
    ensures
        r is Ok <==> row_is_readable(row),
        r matches Ok(run) ==> run_is(run, row),
        r matches Err(e) ==> e@ == "VISUAL_RUN_CORRUPT"@,
{
    let request = parse(row.request_json.as_str());
    let snapshot = parse(row.reference_snapshot_json.as_str());
    let failure = match &row.failure_json {
        Some(text) => parse(text.as_str()),
        None => None,
    };
    run_with_values(row, request, snapshot, failure)
}

/// Reads a stored run; the values of its JSON columns are given, where they are JSON.
pub fn run_with_values(
    row: RunRow,
    request: Option<Json>,
    snapshot: Option<Json>,
    failure: Option<Json>,
) -> (r: Result<ComicVisualPageRun, String>)
    ensures
        r is Ok <==> request is Some && snapshot is Some && (row.failure_json is Some
            ==> failure is Some),
        r matches Ok(run) ==> run_holds(
            run,
            row,
            opt_view(request),
            opt_view(snapshot),
            opt_view(failure),
        ),
        r matches Err(e) ==> e@ == "VISUAL_RUN_CORRUPT"@,
{
    if row.failure_json.is_some() && failure.is_none() {
        return Err(owned("VISUAL_RUN_CORRUPT"));
    }
    let (request, snapshot) = match (request, snapshot) {
        (Some(request), Some(snapshot)) => (request, snapshot),
        _ => return Err(owned("VISUAL_RUN_CORRUPT")),
    };
    Ok(
        ComicVisualPageRun {
            id: row.id,
            manifest_id: row.manifest_id,
            production_page_id: row.production_page_id,
            manifest_fingerprint: row.manifest_fingerprint,
            page_stable_key: row.page_stable_key,
            page_no: row.page_no,
            compiler_contract_version: row.compiler_contract_version,
            request_json: request,
            reference_snapshot_json: snapshot,
            provider_id: row.provider_id,
            provider_request_id: row.provider_request_id,
            asset_id: row.asset_id,
            status: row.status,
            attempt_no: row.attempt_no,
            parent_run_id: row.parent_run_id,
            generation_attempt_id: row.generation_attempt_id,
            owner_app_session_id: row.owner_app_session_id,
            submitted_at: row.submitted_at,
            heartbeat_at: row.heartbeat_at,
            lease_expires_at: row.lease_expires_at,
            failure_json: failure,
            created_at: row.created_at,
            finished_at: row.finished_at,
        },
    )
}

// ---------------------------------------------------------------------------
// Pages of a manifest
// ---------------------------------------------------------------------------

/// Whether a page carries an identifier.
pub open spec fn page_has_id(id: Seq<char>) -> spec_fn(JsonView) -> bool {
    |p: JsonView| text_at(p, "productionPageId"@) == Some(id)
}

/// The page of a manifest with an identifier.
pub open spec fn manifest_page(manifest: JsonView, id: Seq<char>) -> Option<JsonView> {
    match items_at(manifest, "pages"@) {
        Some(pages) => find_first(pages, page_has_id(id)),
        None => None,
    }
}

/// Finds the page of a manifest with an identifier.
pub fn find_manifest_page<'a>(manifest: &'a Json, id: &str) -> (r: Option<&'a Json>)
    ensures
        opt_view(r) == manifest_page(manifest@, id@),
{
    let pages = match manifest.items_at("pages") {
        Some(pages) => pages,
        None => return None,
    };
    let ghost views = items_view(pages@);
    let ghost p = page_has_id(id@);
    let mut i: usize = 0;
    while i < pages.len()
        invariant
            i <= pages.len(),
            views == items_view(pages@),
            items_at(manifest@, "pages"@) == Some(views),
            p == page_has_id(id@),
            forall|j: int| 0 <= j < i ==> !p(#[trigger] views[j]),
        decreases pages.len() - i,
    {
        assert(views[i as int] == pages@[i as int]@);
        if is_text(pages[i].text_at("productionPageId"), id) {
            proof {
                lemma_find_first(views, p, i as int);
            }
            return Some(&pages[i]);
        }
        i += 1;
    }
    proof {
        lemma_find_first(views, p, i as int);
    }
    None
}

// ---------------------------------------------------------------------------
// References
// ---------------------------------------------------------------------------

/// Whether a reference snapshot is an empty object: paths chosen by hand are not accepted.
pub open spec fn is_empty_snapshot(value: JsonView) -> bool {
    value matches JsonView::Obj(m) && m.len() == 0
}

/// Whether a reference snapshot is an empty object.
pub fn is_empty_reference_snapshot(value: &Json) -> (r: bool)
    ensures
        r == is_empty_snapshot(value@),
{
    match value.as_object() {
        Some(m) => m.len() == 0,
        None => false,
    }
}

/// The latest finished page before the one to be started, with its asset.
#[derive(Debug)]
pub struct PreviousPage {
    pub run_id: String,
    pub asset_id: String,
    pub path: String,
    pub page_no: i64,
    pub metadata_json: String,
}

/// Whether the metadata of an asset tell that a run made it for this manifest.
pub open spec fn previous_is_scoped(
    metadata: JsonView,
    manifest: ComicVisualManifest,
    run_id: Seq<char>,
) -> bool {
    &&& text_at(metadata, "projectId"@) == Some(manifest.project_id@)
    &&& text_at(metadata, "novelWorkId"@) == Some(manifest.novel_work_id@)
    &&& text_at(metadata, "comicVisualManifestId"@) == Some(manifest.id@)
    &&& text_at(metadata, "productionPageId"@) is Some
    &&& text_at(metadata, "visualRunId"@) == Some(run_id)
}

/// The reference that a previous page becomes.
pub open spec fn previous_reference_value(p: PreviousPage) -> JsonView {
    JsonView::Obj(
        no_members()
            .push(("runId"@, JsonView::Str(p.run_id@)))
            .push(("assetId"@, JsonView::Str(p.asset_id@)))
            .push(("path"@, JsonView::Str(p.path@)))
            .push(("pageNo"@, JsonView::Int(p.page_no as int)))
            .push(("role"@, JsonView::Str("previous_panel"@)))
            .push(("selection"@, JsonView::Str("same_manifest_candidate_ready"@))),
    )
}

/// The reference snapshot of a new run: the previous page, where there is one, and only where
/// its asset is still there and tells the same manifest.
pub open spec fn augmented_snapshot(
    manifest: ComicVisualManifest,
    base: JsonView,
    selected: Option<PreviousPage>,
    is_file: bool,
) -> Result<JsonView, Seq<char>> {
    match base {
        JsonView::Obj(m) => match selected {
            None => Ok(base),
            Some(p) => with_previous(manifest, m, p, json_parsed(p.metadata_json@), is_file),
        },
        _ => Err("VISUAL_REFERENCE_SNAPSHOT_INVALID"@),
    }
}

/// A reference snapshot with the previous page; `metadata` is what its asset tells.
pub open spec fn with_previous(
    manifest: ComicVisualManifest,
    m: Seq<(Seq<char>, JsonView)>,
    p: PreviousPage,
    metadata: Option<JsonView>,
    is_file: bool,
) -> Result<JsonView, Seq<char>> {
    match metadata {
        None => Err("VISUAL_REFERENCE_SCOPE_MISMATCH"@),
        Some(metadata) => if !previous_is_scoped(metadata, manifest, p.run_id@) || is_blank(p.path@)
            || !is_file {
            Err("VISUAL_REFERENCE_SCOPE_MISMATCH"@)
        } else {
            Ok(
                JsonView::Obj(
                    put_member(m, "autoSelectedReference"@, previous_reference_value(p)),
                ),
            )
        },
    }
}

/// Adds the previous page to the members of a reference snapshot; `metadata` is the value of
/// what its asset tells, where it is JSON.
pub fn add_previous(
    manifest: &ComicVisualManifest,
    members: Vec<(String, Json)>,
    p: PreviousPage,
    metadata: Option<Json>,
    is_file: bool,
) -> (r: Result<Json, String>)
    ensures
        result_view(r) == with_previous(
            *manifest,
            members_view(members@),
            p,
            opt_view(metadata),
            is_file,
        ),
{
    broadcast use {crate::json::lemma_arr_view, crate::json::lemma_obj_view};

    let metadata = match metadata {
        Some(metadata) => metadata,
        None => return Err(owned("VISUAL_REFERENCE_SCOPE_MISMATCH")),
    };
    let scoped = is_text(metadata.text_at("projectId"), manifest.project_id.as_str()) && is_text(
        metadata.text_at("novelWorkId"),
        manifest.novel_work_id.as_str(),
    ) && is_text(metadata.text_at("comicVisualManifestId"), manifest.id.as_str())
        && metadata.text_at("productionPageId").is_some() && is_text(
        metadata.text_at("visualRunId"),
        p.run_id.as_str(),
    );
    if !scoped || blank(p.path.as_str()) || !is_file {
        return Err(owned("VISUAL_REFERENCE_SCOPE_MISMATCH"));
    }
    let reference = fields().text("runId", p.run_id.as_str()).text(
        "assetId",
        p.asset_id.as_str(),
    ).text("path", p.path.as_str()).number("pageNo", p.page_no).text(
        "role",
        "previous_panel",
    ).text("selection", "same_manifest_candidate_ready").object();
    Ok(Json::Obj(set_member(members, "autoSelectedReference", reference)))
}

/// Adds the previous page to a reference snapshot; `is_file` tells whether its asset is there.
pub fn augment_auto_reference(
    manifest: &ComicVisualManifest,
    base: Json,
    selected: Option<PreviousPage>,
    is_file: bool,
) -> (r: Result<Json, String>)
    ensures
        result_view(r) == augmented_snapshot(*manifest, base@, selected, is_file),
{
    broadcast use {crate::json::lemma_arr_view, crate::json::lemma_obj_view};

    let members = match base {
        Json::Obj(members) => members,
        _ => return Err(owned("VISUAL_REFERENCE_SNAPSHOT_INVALID")),
    };
    match selected {
        None => Ok(Json::Obj(members)),
        Some(p) => {
            let metadata = parse(p.metadata_json.as_str());
            add_previous(manifest, members, p, metadata, is_file)
        },
    }
}

/// What a frozen reference names.
#[derive(Debug)]
pub struct ReferenceKey {
    pub run_id: String,
    pub asset_id: String,
    pub path: String,
    pub page_no: i64,
}

/// The reference that a run was frozen with: a previous panel of an earlier page, completely
/// named.
pub open spec fn frozen_reference(run: ComicVisualPageRun) -> Result<
    Option<(Seq<char>, Seq<char>, Seq<char>, int)>,
    Seq<char>,
> {
    match field(run.reference_snapshot_json@, "autoSelectedReference"@) {
        None => Ok(None),
        Some(reference) => match (
            text_at(reference, "runId"@),
            text_at(reference, "assetId"@),
            text_at(reference, "path"@),
            int_at(reference, "pageNo"@),
        ) {
            (Some(run_id), Some(asset_id), Some(path), Some(page_no)) => if text_at(
                reference,
                "role"@,
            ) == Some("previous_panel"@) && page_no < run.page_no {
                Ok(Some((run_id, asset_id, path, page_no)))
            } else {
                Err("VISUAL_REFERENCE_SCOPE_MISMATCH"@)
            },
            _ => Err("VISUAL_REFERENCE_SCOPE_MISMATCH"@),
        },
    }
}

/// Reads the reference that a run was frozen with.
pub fn read_frozen_reference(run: &ComicVisualPageRun) -> (r: Result<Option<ReferenceKey>, String>)
    ensures
        (match r {
            Ok(Some(k)) => Ok(Some((k.run_id@, k.asset_id@, k.path@, k.page_no as int))),
            Ok(None) => Ok(None),
            Err(e) => Err(e@),
        }) == frozen_reference(*run),
{
    let reference = match run.reference_snapshot_json.get("autoSelectedReference") {
        Some(reference) => reference,
        None => return Ok(None),
    };
    let run_id = match reference.text_at("runId") {
        Some(s) => s,
        None => return Err(owned("VISUAL_REFERENCE_SCOPE_MISMATCH")),
    };
    let asset_id = match reference.text_at("assetId") {
        Some(s) => s,
        None => return Err(owned("VISUAL_REFERENCE_SCOPE_MISMATCH")),
    };
    let path = match reference.text_at("path") {
        Some(s) => s,
        None => return Err(owned("VISUAL_REFERENCE_SCOPE_MISMATCH")),
    };
    let found: Option<i64> = reference.int_at("pageNo");
    match found {
        Some(page_no) => {
            if !is_text(reference.text_at("role"), "previous_panel") || page_no >= run.page_no {
                return Err(owned("VISUAL_REFERENCE_SCOPE_MISMATCH"));
            }
            Ok(
                Some(
                    ReferenceKey {
                        run_id: owned(run_id),
                        asset_id: owned(asset_id),
                        path: owned(path),
                        page_no,
                    },
                ),
            )
        },
        None => Err(owned("VISUAL_REFERENCE_SCOPE_MISMATCH")),
    }
}

/// The asset that a frozen reference points to, as it is stored now.
#[derive(Debug)]
pub struct ReferenceAsset {
    pub path: String,
    pub kind: String,
    pub metadata_json: String,
}

/// Whether the stored asset is still the image that was frozen as a reference.
pub open spec fn reference_holds(
    run: ComicVisualPageRun,
    reference_run: Seq<char>,
    reference_path: Seq<char>,
    project: Seq<char>,
    work: Seq<char>,
    row: ReferenceAsset,
    is_file: bool,
) -> bool {
    asset_agrees(
        run,
        reference_run,
        reference_path,
        project,
        work,
        row,
        json_parsed(row.metadata_json@),
        is_file,
    )
}

/// Whether a stored asset is the frozen reference; `metadata` is what it tells.
pub open spec fn asset_agrees(
    run: ComicVisualPageRun,
    reference_run: Seq<char>,
    reference_path: Seq<char>,
    project: Seq<char>,
    work: Seq<char>,
    row: ReferenceAsset,
    metadata: Option<JsonView>,
    is_file: bool,
) -> bool {
    match metadata {
        None => false,
        Some(metadata) => {
            &&& row.kind@ == "image"@
            &&& row.path@ == reference_path
            &&& is_file
            &&& text_at(metadata, "projectId"@) == Some(project)
            &&& text_at(metadata, "novelWorkId"@) == Some(work)
            &&& text_at(metadata, "comicVisualManifestId"@) == Some(run.manifest_id@)
            &&& text_at(metadata, "visualRunId"@) == Some(reference_run)
        },
    }
}

/// Decides whether a stored asset is the frozen reference; `metadata` is the value of what it
/// tells, where it is JSON.
pub fn reference_agrees(
    run: &ComicVisualPageRun,
    key: &ReferenceKey,
    project_id: &str,
    novel_work_id: &str,
    row: &ReferenceAsset,
    metadata: Option<&Json>,
    is_file: bool,
) -> (r: bool)
    ensures
        r == asset_agrees(
            *run,
            key.run_id@,
            key.path@,
            project_id@,
            novel_work_id@,
            *row,
            opt_view(metadata),
            is_file,
        ),
{
    match metadata {
        None => false,
        Some(metadata) => same(row.kind.as_str(), "image") && same(
            row.path.as_str(),
            key.path.as_str(),
        ) && is_file && is_text(metadata.text_at("projectId"), project_id) && is_text(
            metadata.text_at("novelWorkId"),
            novel_work_id,
        ) && is_text(metadata.text_at("comicVisualManifestId"), run.manifest_id.as_str())
            && is_text(metadata.text_at("visualRunId"), key.run_id.as_str()),
    }
}

/// Checks a frozen reference against the stored asset. `row` is what the reference key finds
/// among finished runs of the same manifest and scope, and `is_file` tells whether the asset
/// is there.
pub fn validated_reference_asset(
    run: &ComicVisualPageRun,
    project_id: &str,
    novel_work_id: &str,
    row: Option<ReferenceAsset>,
    is_file: bool,
) -> (r: Result<Option<AssetIn>, String>)
    ensures
        match frozen_reference(*run) {
            Err(e) => r matches Err(f) && f@ == e,
            Ok(None) => r matches Ok(None),
            Ok(Some(key)) => if row is Some && reference_holds(
                *run,
                key.0,
                key.2,
                project_id@,
                novel_work_id@,
                row->0,
                is_file,
            ) {
                r matches Ok(Some(a)) && a.path@ == row->0.path@ && a.kind@ == "image"@
            } else {
                r matches Err(f) && f@ == "VISUAL_REFERENCE_SCOPE_MISMATCH"@
            },
        },
{
    let key = match read_frozen_reference(run) {
        Ok(Some(key)) => key,
        Ok(None) => return Ok(None),
        Err(e) => return Err(e),
    };
    let row = match row {
        Some(row) => row,
        None => return Err(owned("VISUAL_REFERENCE_SCOPE_MISMATCH")),
    };
    let metadata = parse(row.metadata_json.as_str());
    if !reference_agrees(
        run,
        &key,
        project_id,
        novel_work_id,
        &row,
        metadata.as_ref(),
        is_file,
    ) {
        return Err(owned("VISUAL_REFERENCE_SCOPE_MISMATCH"));
    }
    Ok(Some(AssetIn { path: row.path, kind: owned("image") }))
}

// ---------------------------------------------------------------------------
// Starting a run
// ---------------------------------------------------------------------------

/// A start whose request has been compiled.
#[derive(Debug)]
pub struct PreparedStart {
    /// The compiled request.
    pub request: Json,
    /// What the request hash is taken of.
    pub identity: Json,
}

/// What the request hash of a start is taken of.
pub open spec fn start_identity(input: ComicVisualPageRunStartInput, request: JsonView) -> JsonView {
    JsonView::Obj(
        no_members()
            .push(("projectId"@, JsonView::Str(input.project_id@)))
            .push(("novelWorkId"@, JsonView::Str(input.novel_work_id@)))
            .push(("manifestId"@, JsonView::Str(input.manifest_id@)))
            .push(("productionPageId"@, JsonView::Str(input.production_page_id@)))
            .push(("manifestFingerprint"@, JsonView::Str(input.manifest_fingerprint@)))
            .push(("compilerContractVersion"@, JsonView::Str(input.compiler_contract_version@)))
            .push(("requestJson"@, request))
            .push(("referenceSnapshotJson"@, JsonView::Obj(no_members()))),
    )
}

/// Whether a manifest is current and is the one that was named.
pub open spec fn manifest_current(manifest: ComicVisualManifest, fingerprint: Seq<char>) -> bool {
    manifest.freshness@ == "ready"@ && manifest.manifest_fingerprint@ == fingerprint
}

/// The compiled request of a start: only from a current manifest, a known contract version, a
/// page of the manifest, and without references chosen by hand.
pub open spec fn prepared_request(
    input: ComicVisualPageRunStartInput,
    manifest: ComicVisualManifest,
    default_model: Seq<char>,
    layout_accepted: bool,
) -> Result<JsonView, Seq<char>> {
    if is_blank(input.idempotency_key@) {
        Err("IDEMPOTENCY_KEY_REQUIRED"@)
    } else if !manifest_current(manifest, input.manifest_fingerprint@) {
        Err("VISUAL_MANIFEST_STALE_OR_SCOPE_MISMATCH"@)
    } else if !is_supported(input.compiler_contract_version@) {
        Err("VISUAL_COMPILER_VERSION_UNSUPPORTED"@)
    } else {
        match manifest_page(manifest.manifest@, input.production_page_id@) {
            None => Err("VISUAL_PAGE_SCOPE_MISMATCH"@),
            Some(page) => if !is_empty_snapshot(input.reference_snapshot_json@) {
                Err("VISUAL_REFERENCE_INPUT_UNSUPPORTED"@)
            } else {
                compiled(
                    input.compiler_contract_version@,
                    input.request_json@,
                    manifest.manifest_fingerprint@,
                    manifest.manifest@,
                    page,
                    default_model,
                    layout_accepted,
                )
            },
        }
    }
}

/// Compiles the request of a start.
pub fn prepare_start(
    input: &ComicVisualPageRunStartInput,
    manifest: &ComicVisualManifest,
    default_model: &str,
    layout_accepted: bool,
) -> (r: Result<PreparedStart, String>)
    ensures
        match prepared_request(*input, *manifest, default_model@, layout_accepted) {
            Err(e) => r matches Err(f) && f@ == e,
            Ok(request) => r matches Ok(p) && p.request@ == request && p.identity@
                == start_identity(*input, request),
        },
{
    if blank(input.idempotency_key.as_str()) {
        return Err(owned("IDEMPOTENCY_KEY_REQUIRED"));
    }
    if !same(manifest.freshness.as_str(), "ready") || !same(
        manifest.manifest_fingerprint.as_str(),
        input.manifest_fingerprint.as_str(),
    ) {
        return Err(owned("VISUAL_MANIFEST_STALE_OR_SCOPE_MISMATCH"));
    }
    if !is_supported_compiler_contract(input.compiler_contract_version.as_str()) {
        return Err(owned("VISUAL_COMPILER_VERSION_UNSUPPORTED"));
    }
    let page = match find_manifest_page(&manifest.manifest, input.production_page_id.as_str()) {
        Some(page) => page,
        None => return Err(owned("VISUAL_PAGE_SCOPE_MISMATCH")),
    };
    if !is_empty_reference_snapshot(&input.reference_snapshot_json) {
        return Err(owned("VISUAL_REFERENCE_INPUT_UNSUPPORTED"));
    }
    let request = match normalize_start_request(
        input.compiler_contract_version.as_str(),
        &input.request_json,
        manifest,
        page,
        default_model,
        layout_accepted,
    ) {
        Ok(request) => request,
        Err(e) => return Err(e),
    };
    let identity = fields().text("projectId", input.project_id.as_str()).text(
        "novelWorkId",
        input.novel_work_id.as_str(),
    ).text("manifestId", input.manifest_id.as_str()).text(
        "productionPageId",
        input.production_page_id.as_str(),
    ).text("manifestFingerprint", input.manifest_fingerprint.as_str()).text(
        "compilerContractVersion",
        input.compiler_contract_version.as_str(),
    ).with("requestJson", request.copy()).with("referenceSnapshotJson", fields().object()).object();
    Ok(PreparedStart { request, identity })
}

/// A run that already carries the idempotency key.
#[derive(Debug)]
pub struct StoredStart {
    pub request_hash: String,
    pub id: String,
}

impl View for StoredStart {
    type V = (Seq<char>, Seq<char>);

    /// The request hash and the identifier of the run.
    open spec fn view(&self) -> (Seq<char>, Seq<char>) {
        (self.request_hash@, self.id@)
    }
}

/// What surrounds a start: who starts it, as which attempt, and with which new identifiers.
#[derive(Debug)]
pub struct StartContext {
    pub allow_legacy_version: bool,
    pub configured: bool,
    pub session: String,
    pub provider_id: String,
    pub attempt_no: i64,
    pub parent_run_id: Option<String>,
    pub run_id: String,
    pub generation_attempt_id: String,
    pub now: i64,
}

/// A run to be stored.
#[derive(Debug)]
pub struct NewRun {
    pub id: String,
    pub page_stable_key: String,
    pub page_no: i64,
    pub request_json: Json,
    pub reference_snapshot_json: Json,
    pub request_hash: String,
    pub provider_id: Option<String>,
    pub status: String,
    pub attempt_no: i64,
    pub parent_run_id: Option<String>,
    pub generation_attempt_id: String,
    pub owner_app_session_id: Option<String>,
    pub heartbeat_at: Option<i64>,
    pub lease_expires_at: Option<i64>,
    pub failure_json: Option<Json>,
    pub created_at: i64,
}

/// What a start does.
#[derive(Debug)]
pub enum StartStep {
    /// The key was used for the same request: hand out its run.
    Replay(String),
    /// Store a new run.
    Insert(NewRun),
}

/// The failure of a run that waits for a configuration.
pub open spec fn config_failure_value(now: int) -> JsonView {
    JsonView::Obj(
        no_members()
            .push(("code"@, JsonView::Str("CONFIG_REQUIRED"@)))
            .push(("message"@, JsonView::Str("请先配置图像服务后再开始生成"@)))
            .push(("retryable"@, JsonView::Bool(true)))
            .push(("observedAt"@, JsonView::Int(now))),
    )
}

/// The identity part of a new run.
pub open spec fn new_run_identity(
    run: NewRun,
    ctx: StartContext,
    request: JsonView,
    hash: Seq<char>,
    key: Seq<char>,
    page_no: int,
    snapshot: JsonView,
) -> bool {
    &&& run.id@ == ctx.run_id@
    &&& run.page_stable_key@ == key
    &&& run.page_no == page_no
    &&& run.request_json@ == request
    &&& run.reference_snapshot_json@ == snapshot
    &&& run.request_hash@ == hash
    &&& opt_view(run.parent_run_id) == opt_view(ctx.parent_run_id)
    &&& run.generation_attempt_id@ == ctx.generation_attempt_id@
    &&& run.created_at == ctx.now
}

/// The state of a new run: queued under a lease where the service is configured, else blocked
/// as attempt zero, which nobody owns.
pub open spec fn new_run_state(run: NewRun, ctx: StartContext) -> bool {
    if ctx.configured {
        &&& run.status@ == "queued"@
        &&& run.attempt_no == ctx.attempt_no
        &&& opt_view(run.provider_id) == Some(ctx.provider_id@)
        &&& opt_view(run.owner_app_session_id) == Some(ctx.session@)
        &&& run.heartbeat_at == Some(ctx.now)
        &&& run.lease_expires_at == Some((ctx.now + LEASE_MS) as i64)
        &&& run.failure_json is None
    } else {
        &&& run.status@ == "blocked_config"@
        &&& run.attempt_no == 0
        &&& run.provider_id is None
        &&& run.owner_app_session_id is None
        &&& run.heartbeat_at is None
        &&& run.lease_expires_at is None
        &&& opt_view(run.failure_json) == Some(config_failure_value(ctx.now as int))
    }
}

/// The error of a start that is not a replay, where it has one: a legacy contract version, a
/// page without key or number, a lost reference, or a page that is already being rendered.
pub open spec fn start_error(
    input: ComicVisualPageRunStartInput,
    page: JsonView,
    snapshot: Result<JsonView, Seq<char>>,
    active: bool,
    allow_legacy: bool,
) -> Option<Seq<char>> {
    if !allow_legacy && input.compiler_contract_version@ != COMPILER_CONTRACT@ {
        Some("VISUAL_COMPILER_VERSION_UNSUPPORTED"@)
    } else if text_at(page, "stableKey"@) is None || int_at(page, "pageNo"@) is None {
        Some("VISUAL_PAGE_SCOPE_MISMATCH"@)
    } else if snapshot is Err {
        Some(snapshot->Err_0)
    } else if active {
        Some("VISUAL_PAGE_ALREADY_ACTIVE"@)
    } else {
        None
    }
}

/// What a start comes to.
pub enum StartAnswer {
    /// The key was used for the same request: its run.
    Replay(Seq<char>),
    /// A new run of the page with this key and number, on these references.
    Insert { stable_key: Seq<char>, page_no: int, snapshot: JsonView },
}

/// What a start comes to: a used key is replayed for the same request and refused for another
/// one, whatever else holds; a new key makes a run where nothing speaks against it.
pub open spec fn start_answer(
    input: ComicVisualPageRunStartInput,
    manifest: ComicVisualManifest,
    page: JsonView,
    request_hash: Seq<char>,
    stored: Option<(Seq<char>, Seq<char>)>,
    previous: Option<PreviousPage>,
    previous_is_file: bool,
    active: bool,
    allow_legacy: bool,
) -> Result<StartAnswer, Seq<char>> {
    match stored {
        Some(s) => if s.0 != request_hash {
            Err("IDEMPOTENCY_MISMATCH"@)
        } else {
            Ok(StartAnswer::Replay(s.1))
        },
        None => {
            let snapshot = augmented_snapshot(
                manifest,
                JsonView::Obj(no_members()),
                previous,
                previous_is_file,
            );
            match start_error(input, page, snapshot, active, allow_legacy) {
                Some(code) => Err(code),
                None => Ok(
                    StartAnswer::Insert {
                        stable_key: text_at(page, "stableKey"@)->0,
                        page_no: int_at(page, "pageNo"@)->0,
                        snapshot: snapshot->Ok_0,
                    },
                ),
            }
        },
    }
}

fn copy_opt(o: &Option<String>) -> (r: Option<String>)
    ensures
        opt_view(r) == opt_view(*o),
{
    match o {
        Some(s) => Some(s.clone()),
        None => None,
    }
}

/// Decides a start whose request has been compiled and hashed. `stored` is the run that
/// already carries the idempotency key, `previous` the latest finished page before this one,
/// `previous_is_file` whether its asset is there, and `active` whether the page has a run that
/// is queued, running or to be reconciled.
pub fn decide_start(
    input: &ComicVisualPageRunStartInput,
    manifest: &ComicVisualManifest,
    page: &Json,
    prepared: PreparedStart,
    request_hash: &str,
    stored: Option<StoredStart>,
    previous: Option<PreviousPage>,
    previous_is_file: bool,
    active: bool,
    ctx: &StartContext,
) -> (r: Result<StartStep, String>)
    requires
        ctx.now <= i64::MAX - LEASE_MS,
    ensures
        match start_answer(
            *input,
            *manifest,
            page@,
            request_hash@,
            opt_view(stored),
            previous,
            previous_is_file,
            active,
            ctx.allow_legacy_version,
        ) {
            Err(code) => r matches Err(e) && e@ == code,
            Ok(StartAnswer::Replay(id)) => r matches Ok(StartStep::Replay(run)) && run@ == id,
            Ok(StartAnswer::Insert { stable_key, page_no, snapshot }) => r matches Ok(
                StartStep::Insert(run),
            ) && new_run_identity(
                run,
                *ctx,
                prepared.request@,
                request_hash@,
                stable_key,
                page_no,
                snapshot,
            ) && new_run_state(run, *ctx),
        },
{
    match stored {
        Some(s) => {
            if !same(s.request_hash.as_str(), request_hash) {
                return Err(owned("IDEMPOTENCY_MISMATCH"));
            }
            return Ok(StartStep::Replay(s.id));
        },
        None => {},
    }
    if !ctx.allow_legacy_version && !same(
        input.compiler_contract_version.as_str(),
        COMPILER_CONTRACT,
    ) {
        return Err(owned("VISUAL_COMPILER_VERSION_UNSUPPORTED"));
    }
    let key = match page.text_at("stableKey") {
        Some(key) => owned(key),
        None => return Err(owned("VISUAL_PAGE_SCOPE_MISMATCH")),
    };
    let found: Option<i64> = page.int_at("pageNo");
    let page_no: i64 = match found {
        Some(no) => no,
        None => return Err(owned("VISUAL_PAGE_SCOPE_MISMATCH")),
    };
    let snapshot = match augment_auto_reference(
        manifest,
        fields().object(),
        previous,
        previous_is_file,
    ) {
        Ok(snapshot) => snapshot,
        Err(e) => return Err(e),
    };
    if active {
        return Err(owned("VISUAL_PAGE_ALREADY_ACTIVE"));
    }
    let run = if ctx.configured {
        NewRun {
            id: ctx.run_id.clone(),
            page_stable_key: key,
            page_no,
            request_json: prepared.request,
            reference_snapshot_json: snapshot,
            request_hash: owned(request_hash),
            provider_id: Some(ctx.provider_id.clone()),
            status: owned("queued"),
            attempt_no: ctx.attempt_no,
            parent_run_id: copy_opt(&ctx.parent_run_id),
            generation_attempt_id: ctx.generation_attempt_id.clone(),
            owner_app_session_id: Some(ctx.session.clone()),
            heartbeat_at: Some(ctx.now),
            lease_expires_at: Some(ctx.now + LEASE_MS),
            failure_json: None,
            created_at: ctx.now,
        }
    } else {
        NewRun {
            id: ctx.run_id.clone(),
            page_stable_key: key,
            page_no,
            request_json: prepared.request,
            reference_snapshot_json: snapshot,
            request_hash: owned(request_hash),
            provider_id: None,
            status: owned("blocked_config"),
            attempt_no: 0,
            parent_run_id: copy_opt(&ctx.parent_run_id),
            generation_attempt_id: ctx.generation_attempt_id.clone(),
            owner_app_session_id: None,
            heartbeat_at: None,
            lease_expires_at: None,
            failure_json: Some(
                fields().text("code", "CONFIG_REQUIRED").text(
                    "message",
                    "请先配置图像服务后再开始生成",
                ).flag("retryable", true).number("observedAt", ctx.now).object(),
            ),
            created_at: ctx.now,
        }
    };
    Ok(StartStep::Insert(run))
}

/// Whether two starts ask for the same thing, under whatever keys.
pub open spec fn same_start(
    a: ComicVisualPageRunStartInput,
    b: ComicVisualPageRunStartInput,
) -> bool {
    &&& a.project_id@ == b.project_id@
    &&& a.novel_work_id@ == b.novel_work_id@
    &&& a.manifest_id@ == b.manifest_id@
    &&& a.production_page_id@ == b.production_page_id@
    &&& a.manifest_fingerprint@ == b.manifest_fingerprint@
    &&& a.compiler_contract_version@ == b.compiler_contract_version@
    &&& a.request_json@ == b.request_json@
    &&& a.reference_snapshot_json@ == b.reference_snapshot_json@
}

/// What a request hash is taken of tells starts for different pages, manifests or contract
/// versions apart.
pub proof fn start_identity_tells_pages_apart(
    a: ComicVisualPageRunStartInput,
    x: JsonView,
    b: ComicVisualPageRunStartInput,
    y: JsonView,
)
    requires
        start_identity(a, x) == start_identity(b, y),
    ensures
        a.project_id@ == b.project_id@,
        a.novel_work_id@ == b.novel_work_id@,
        a.manifest_id@ == b.manifest_id@,
        a.production_page_id@ == b.production_page_id@,
        a.manifest_fingerprint@ == b.manifest_fingerprint@,
        a.compiler_contract_version@ == b.compiler_contract_version@,
        x == y,
{
    let p = start_identity(a, x)->Obj_0;
    let q = start_identity(b, y)->Obj_0;
    assert(p[0] == ("projectId"@, JsonView::Str(a.project_id@)));
    assert(q[0] == ("projectId"@, JsonView::Str(b.project_id@)));
    assert(p[1] == ("novelWorkId"@, JsonView::Str(a.novel_work_id@)));
    assert(q[1] == ("novelWorkId"@, JsonView::Str(b.novel_work_id@)));
    assert(p[2] == ("manifestId"@, JsonView::Str(a.manifest_id@)));
    assert(q[2] == ("manifestId"@, JsonView::Str(b.manifest_id@)));
    assert(p[3] == ("productionPageId"@, JsonView::Str(a.production_page_id@)));
    assert(q[3] == ("productionPageId"@, JsonView::Str(b.production_page_id@)));
    assert(p[4] == ("manifestFingerprint"@, JsonView::Str(a.manifest_fingerprint@)));
    assert(q[4] == ("manifestFingerprint"@, JsonView::Str(b.manifest_fingerprint@)));
    assert(p[5] == ("compilerContractVersion"@, JsonView::Str(a.compiler_contract_version@)));
    assert(q[5] == ("compilerContractVersion"@, JsonView::Str(b.compiler_contract_version@)));
    assert(p[6] == ("requestJson"@, x) && q[6] == ("requestJson"@, y));
}

/// A stored run as far as starts see it: its key, what its request hash was taken of, its
/// identifier, its page and its status.
pub struct RunRecord {
    pub key: Seq<char>,
    pub identity: JsonView,
    pub id: Seq<char>,
    pub manifest_id: Seq<char>,
    pub page_id: Seq<char>,
    pub status: Seq<char>,
}

/// Whether a stored run has a key.
pub open spec fn has_start_key(key: Seq<char>) -> spec_fn(RunRecord) -> bool {
    |r: RunRecord| r.key == key
}

/// The run under a key, with its request hash.
pub open spec fn start_at(
    runs: Seq<RunRecord>,
    key: Seq<char>,
    hash: spec_fn(JsonView) -> Seq<char>,
) -> Option<(Seq<char>, Seq<char>)> {
    match find_first(runs, has_start_key(key)) {
        Some(r) => Some((hash(r.identity), r.id)),
        None => None,
    }
}

/// Whether a run holds its page: it is queued, under way or to be reconciled.
pub open spec fn holds_page(r: RunRecord) -> bool {
    r.status == "queued"@ || r.status == "running"@ || r.status == "needs_reconcile"@
}

/// Whether a page has a run that holds it.
pub open spec fn page_is_active(
    runs: Seq<RunRecord>,
    manifest_id: Seq<char>,
    page_id: Seq<char>,
) -> bool {
    exists|i: int|
        0 <= i < runs.len() && holds_page(#[trigger] runs[i]) && runs[i].manifest_id == manifest_id
            && runs[i].page_id == page_id
}

/// What a start is given besides its request.
pub struct StartFacts {
    pub default_model: Seq<char>,
    pub layout_accepted: bool,
    pub previous: Option<PreviousPage>,
    pub previous_is_file: bool,
    pub allow_legacy: bool,
    pub configured: bool,
    pub run_id: Seq<char>,
}

/// What a start makes of the stored runs, in its one transaction, and its result: the run.
/// `hash` stands for the request hash.
pub open spec fn started(
    runs: Seq<RunRecord>,
    input: ComicVisualPageRunStartInput,
    manifest: ComicVisualManifest,
    hash: spec_fn(JsonView) -> Seq<char>,
    facts: StartFacts,
) -> (Seq<RunRecord>, Result<Seq<char>, Seq<char>>) {
    match prepared_request(input, manifest, facts.default_model, facts.layout_accepted) {
        Err(e) => (runs, Err(e)),
        Ok(request) => {
            let identity = start_identity(input, request);
            match start_answer(
                input,
                manifest,
                manifest_page(manifest.manifest@, input.production_page_id@)->0,
                hash(identity),
                start_at(runs, input.idempotency_key@, hash),
                facts.previous,
                facts.previous_is_file,
                page_is_active(runs, input.manifest_id@, input.production_page_id@),
                facts.allow_legacy,
            ) {
                Err(e) => (runs, Err(e)),
                Ok(StartAnswer::Replay(id)) => (runs, Ok(id)),
                Ok(StartAnswer::Insert { .. }) => (
                    runs.push(
                        RunRecord {
                            key: input.idempotency_key@,
                            identity,
                            id: facts.run_id,
                            manifest_id: input.manifest_id@,
                            page_id: input.production_page_id@,
                            status: if facts.configured {
                                "queued"@
                            } else {
                                "blocked_config"@
                            },
                        },
                    ),
                    Ok(facts.run_id),
                ),
            }
        },
    }
}

/// Whether a stored run names the page that its request hash was taken of.
pub open spec fn names_its_page(r: RunRecord) -> bool {
    &&& r.identity is Obj
    &&& r.identity->Obj_0.len() == 8
    &&& r.identity->Obj_0[2] == ("manifestId"@, JsonView::Str(r.manifest_id))
    &&& r.identity->Obj_0[3] == ("productionPageId"@, JsonView::Str(r.page_id))
}

/// Whether all stored runs name the pages that their request hashes were taken of.
pub open spec fn runs_valid(runs: Seq<RunRecord>) -> bool {
    forall|i: int| 0 <= i < runs.len() ==> names_its_page(#[trigger] runs[i])
}

/// Whether stored runs are those of an earlier time: none is gone, whatever became of them, and
/// new ones stand behind them.
pub open spec fn runs_later(earlier: Seq<RunRecord>, runs: Seq<RunRecord>) -> bool {
    &&& earlier.len() <= runs.len()
    &&& forall|i: int|
        0 <= i < earlier.len() ==> (#[trigger] runs[i]) == (RunRecord {
            status: runs[i].status,
            ..earlier[i]
        })
}

proof fn lemma_start_stays(
    earlier: Seq<RunRecord>,
    runs: Seq<RunRecord>,
    key: Seq<char>,
    hash: spec_fn(JsonView) -> Seq<char>,
)
    requires
        runs_later(earlier, runs),
        start_at(earlier, key, hash) is Some,
    ensures
        start_at(runs, key, hash) == start_at(earlier, key, hash),
{
    let p = has_start_key(key);
    let k = lemma_first_index(earlier, p);
    assert forall|i: int| 0 <= i < k implies !p(#[trigger] runs[i]) by {
        assert(!p(earlier[i]));
    }
    lemma_find_first(runs, p, k);
}

/// A start that has given a run gives that run however often it is repeated, at any later time,
/// whatever has become of the runs: `later` are the runs by then. The same request under the
/// same key compiles to the same request and is answered with the run, also where its contract
/// version is no longer accepted of new starts; the same key for another request, as one for
/// another page, is refused. Under a new key, a request of the earlier contract version is
/// refused, and so is one for the same page as long as the run holds it. None of these adds a
/// run.
pub proof fn repeated_start_gives_the_same_run(
    runs: Seq<RunRecord>,
    input: ComicVisualPageRunStartInput,
    manifest: ComicVisualManifest,
    hash: spec_fn(JsonView) -> Seq<char>,
    facts: StartFacts,
    later: Seq<RunRecord>,
    again: ComicVisualPageRunStartInput,
    other: ComicVisualPageRunStartInput,
    other_manifest: ComicVisualManifest,
    renewed: ComicVisualPageRunStartInput,
    later_facts: StartFacts,
)
    requires
        hash_tells_apart(hash),
        runs_valid(runs),
        started(runs, input, manifest, hash, facts).1 is Ok,
        runs_later(started(runs, input, manifest, hash, facts).0, later),
        later_facts.default_model == facts.default_model,
        later_facts.layout_accepted == facts.layout_accepted,
        same_start(again, input),
        again.idempotency_key@ == input.idempotency_key@,
        other.idempotency_key@ == input.idempotency_key@,
        prepared_request(
            other,
            other_manifest,
            facts.default_model,
            facts.layout_accepted,
        ) is Ok,
        other.production_page_id@ != input.production_page_id@,
        prepared_request(renewed, manifest, facts.default_model, facts.layout_accepted) is Ok,
        renewed.production_page_id@ == input.production_page_id@,
        renewed.manifest_id@ == input.manifest_id@,
        start_at(later, renewed.idempotency_key@, hash) is None,
    ensures
        ({
            let (after, result) = started(runs, input, manifest, hash, facts);
            let fresh = started(later, renewed, manifest, hash, later_facts);
            let without = start_answer(
                renewed,
                manifest,
                manifest_page(manifest.manifest@, renewed.production_page_id@)->0,
                Seq::empty(),
                None,
                later_facts.previous,
                later_facts.previous_is_file,
                false,
                later_facts.allow_legacy,
            );
            let run = find_first(later, has_start_key(input.idempotency_key@));
            let active = holds_page(run->0);
            &&& runs_valid(after)
            &&& run matches Some(r) && r.id == result->Ok_0
            &&& started(later, again, manifest, hash, later_facts) == (later, result)
            &&& started(later, other, other_manifest, hash, later_facts) == (later, Err::<
                Seq<char>,
                _,
            >("IDEMPOTENCY_MISMATCH"@))
            &&& renewed.compiler_contract_version@ == COMPILER_CONTRACT_V2@
                && !later_facts.allow_legacy ==> fresh == (later, Err::<Seq<char>, _>(
                "VISUAL_COMPILER_VERSION_UNSUPPORTED"@,
            ))
            &&& active ==> fresh.0 == later && fresh.1 is Err
            &&& active && without is Ok ==> fresh == (later, Err::<Seq<char>, _>(
                "VISUAL_PAGE_ALREADY_ACTIVE"@,
            ))
        }),
{
    reveal_strlit("comic-page-compiler.v2");
    reveal_strlit("comic-page-compiler.v3");
    assert("comic-page-compiler.v2"@[21] == '2' && "comic-page-compiler.v3"@[21] == '3');
    let (after, result) = started(runs, input, manifest, hash, facts);
    let key = input.idempotency_key@;
    let request = prepared_request(
        input,
        manifest,
        facts.default_model,
        facts.layout_accepted,
    )->Ok_0;
    let identity = start_identity(input, request);
    assert(identity->Obj_0.len() == 8);
    assert(identity->Obj_0[2] == ("manifestId"@, JsonView::Str(input.manifest_id@)));
    assert(identity->Obj_0[3] == ("productionPageId"@, JsonView::Str(input.production_page_id@)));
    let p = has_start_key(key);
    if after != runs {
        lemma_find_first_push(runs, after.last(), p);
        assert(start_at(runs, key, hash) is None);
    }
    assert(start_at(after, key, hash) == Some((hash(identity), result->Ok_0)));
    lemma_start_stays(after, later, key, hash);
    assert(start_identity(again, request) == identity);
    let k = lemma_first_index(later, p);
    let a = lemma_first_index(after, p);
    assert(!p(later[a]) || k <= a);
    assert(later[k].identity == identity);
    assert(names_its_page(after[a]));
    assert(!(k < a) || !p(after[k]));
    assert(names_its_page(later[k]));
    let other_request = prepared_request(
        other,
        other_manifest,
        facts.default_model,
        facts.layout_accepted,
    )->Ok_0;
    if hash(start_identity(other, other_request)) == hash(identity) {
        start_identity_tells_pages_apart(other, other_request, input, request);
    }
}

// ---------------------------------------------------------------------------
// Retrying a run
// ---------------------------------------------------------------------------

/// Adds an option of a frozen request where it has one.
pub open spec fn put_option(
    m: Seq<(Seq<char>, JsonView)>,
    frozen: JsonView,
    key: Seq<char>,
) -> Seq<(Seq<char>, JsonView)> {
    match field(frozen, key) {
        Some(v) => m.push((key, v)),
        None => m,
    }
}

/// Whether an option of a frozen request is absent or a text.
pub open spec fn option_is_text(frozen: JsonView, key: Seq<char>) -> bool {
    field(frozen, key) is Some ==> text_at(frozen, key) is Some
}

/// The request that a retry of a frozen run makes: the same page, contract version and
/// options, and nothing else of what was compiled.
pub open spec fn retry_request(run: ComicVisualPageRun) -> Result<JsonView, Seq<char>> {
    if !is_supported(run.compiler_contract_version@) || !option_is_text(
        run.request_json@,
        "model"@,
    ) || !option_is_text(run.request_json@, "size"@) {
        Err("VISUAL_RETRY_REQUIRES_NEW_COMPILER_RUN"@)
    } else {
        Ok(
            JsonView::Obj(
                put_option(
                    put_option(
                        no_members()
                            .push(("schemaVersion"@, JsonView::Str(run.compiler_contract_version@)))
                            .push(("manifestFingerprint"@, JsonView::Str(run.manifest_fingerprint@)))
                            .push(("productionPageId"@, JsonView::Str(run.production_page_id@))),
                        run.request_json@,
                        "model"@,
                    ),
                    run.request_json@,
                    "size"@,
                ),
            ),
        )
    }
}

fn add_option(m: Fields, frozen: &Json, key: &str) -> (r: Option<Fields>)
    ensures
        r is Some <==> option_is_text(frozen@, key@),
        r matches Some(f) ==> f@ == put_option(m@, frozen@, key@),
{
    match frozen.get(key) {
        Some(v) => match v.as_str() {
            Some(_) => Some(m.with(key, v.copy())),
            None => None,
        },
        None => Some(m),
    }
}

/// The request that a retry of a frozen run makes.
pub fn retry_client_request(run: &ComicVisualPageRun) -> (r: Result<Json, String>)
    ensures
        result_view(r) == retry_request(*run),
{
    if !is_supported_compiler_contract(run.compiler_contract_version.as_str()) {
        return Err(owned("VISUAL_RETRY_REQUIRES_NEW_COMPILER_RUN"));
    }
    let base = fields().text("schemaVersion", run.compiler_contract_version.as_str()).text(
        "manifestFingerprint",
        run.manifest_fingerprint.as_str(),
    ).text("productionPageId", run.production_page_id.as_str());
    let with_model = match add_option(base, &run.request_json, "model") {
        Some(m) => m,
        None => return Err(owned("VISUAL_RETRY_REQUIRES_NEW_COMPILER_RUN")),
    };
    match add_option(with_model, &run.request_json, "size") {
        Some(m) => Ok(m.object()),
        None => Err(owned("VISUAL_RETRY_REQUIRES_NEW_COMPILER_RUN")),
    }
}

/// Whether a start repeats a run in its scope.
pub open spec fn start_repeats(
    input: ComicVisualPageRunStartInput,
    run: ComicVisualPageRun,
    project: Seq<char>,
    work: Seq<char>,
    key: Seq<char>,
) -> bool {
    &&& input.project_id@ == project
    &&& input.novel_work_id@ == work
    &&& input.manifest_id@ == run.manifest_id@
    &&& input.production_page_id@ == run.production_page_id@
    &&& input.manifest_fingerprint@ == run.manifest_fingerprint@
    &&& input.compiler_contract_version@ == run.compiler_contract_version@
    &&& retry_request(run) == Ok::<JsonView, Seq<char>>(input.request_json@)
    &&& input.reference_snapshot_json@ == JsonView::Obj(no_members())
    &&& input.idempotency_key@ == key
}

fn repeat_start(
    run: &ComicVisualPageRun,
    project_id: &str,
    novel_work_id: &str,
    idempotency_key: &str,
) -> (r: Result<ComicVisualPageRunStartInput, String>)
    ensures
        match retry_request(*run) {
            Err(e) => r matches Err(f) && f@ == e,
            Ok(_) => r matches Ok(input) && start_repeats(
                input,
                *run,
                project_id@,
                novel_work_id@,
                idempotency_key@,
            ),
        },
{
    let request_json = match retry_client_request(run) {
        Ok(request) => request,
        Err(e) => return Err(e),
    };
    Ok(
        ComicVisualPageRunStartInput {
            project_id: owned(project_id),
            novel_work_id: owned(novel_work_id),
            manifest_id: run.manifest_id.clone(),
            production_page_id: run.production_page_id.clone(),
            manifest_fingerprint: run.manifest_fingerprint.clone(),
            compiler_contract_version: run.compiler_contract_version.clone(),
            request_json,
            reference_snapshot_json: fields().object(),
            idempotency_key: owned(idempotency_key),
        },
    )
}

/// Decides a retry by hand: of a failed run only, and not where a batch manages the page.
pub fn retry_start(
    old: &ComicVisualPageRun,
    input: &ComicVisualPageRunRetryInput,
    batch_managed: bool,
) -> (r: Result<ComicVisualPageRunStartInput, String>)
    ensures
        if old.status@ != "failed"@ {
            r matches Err(e) && e@ == "VISUAL_RETRY_ONLY_FAILED"@
        } else if batch_managed {
            r matches Err(e) && e@ == "VISUAL_BATCH_MEMBER_RETRY_REQUIRED"@
        } else {
            match retry_request(*old) {
                Err(e) => r matches Err(f) && f@ == e,
                Ok(_) => r matches Ok(start) && start_repeats(
                    start,
                    *old,
                    input.project_id@,
                    input.novel_work_id@,
                    input.idempotency_key@,
                ),
            }
        },
{
    if !same(old.status.as_str(), "failed") {
        return Err(owned("VISUAL_RETRY_ONLY_FAILED"));
    }
    if batch_managed {
        return Err(owned("VISUAL_BATCH_MEMBER_RETRY_REQUIRED"));
    }
    repeat_start(
        old,
        input.project_id.as_str(),
        input.novel_work_id.as_str(),
        input.idempotency_key.as_str(),
    )
}

/// The model of a frozen request, trimmed and not empty.
pub open spec fn frozen_model(frozen: JsonView) -> Option<Seq<char>> {
    match text_at(frozen, "model"@) {
        Some(model) => if trimmed(model).len() > 0 {
            Some(trimmed(model))
        } else {
            None
        },
        None => None,
    }
}

/// Decides the child attempt of a confirmed batch retry: of a failed parent of the same
/// provider, under the model that the parent was frozen with.
pub fn retry_failed_child(
    parent: &ComicVisualPageRun,
    project_id: &str,
    novel_work_id: &str,
    idempotency_key: &str,
    provider_id: &str,
) -> (r: Result<(ComicVisualPageRunStartInput, String), String>)
    ensures
        if parent.status@ != "failed"@ {
            r matches Err(e) && e@ == "VISUAL_RETRY_ONLY_FAILED"@
        } else if opt_view(parent.provider_id) != Some(provider_id@) {
            r matches Err(e) && e@ == "VISUAL_RETRY_PROVIDER_MISMATCH"@
        } else {
            match (frozen_model(parent.request_json@), retry_request(*parent)) {
                (None, _) => r matches Err(e) && e@ == "VISUAL_RETRY_REQUIRES_NEW_COMPILER_RUN"@,
                (Some(_), Err(e)) => r matches Err(f) && f@ == e,
                (Some(model), Ok(_)) => r matches Ok(p) && p.1@ == model && start_repeats(
                    p.0,
                    *parent,
                    project_id@,
                    novel_work_id@,
                    idempotency_key@,
                ),
            }
        },
{
    if !same(parent.status.as_str(), "failed") {
        return Err(owned("VISUAL_RETRY_ONLY_FAILED"));
    }
    let same_provider = match &parent.provider_id {
        Some(id) => same(id.as_str(), provider_id),
        None => false,
    };
    if !same_provider {
        return Err(owned("VISUAL_RETRY_PROVIDER_MISMATCH"));
    }
    let model = match parent.request_json.text_at("model") {
        Some(model) => trim(model),
        None => return Err(owned("VISUAL_RETRY_REQUIRES_NEW_COMPILER_RUN")),
    };
    if model.as_str().is_empty() {
        return Err(owned("VISUAL_RETRY_REQUIRES_NEW_COMPILER_RUN"));
    }
    match repeat_start(parent, project_id, novel_work_id, idempotency_key) {
        Ok(start) => Ok((start, model)),
        Err(e) => Err(e),
    }
}

/// Whether nothing of a run ever reached the service.
pub open spec fn never_submitted(run: ComicVisualPageRun) -> bool {
    run.submitted_at is None && run.provider_request_id is None && run.asset_id is None
}

/// Decides the first attempt of a run that waited for a configuration: only where it is still
/// attempt zero and nothing of it was ever submitted.
pub fn resume_blocked_config_child(
    parent: &ComicVisualPageRun,
    project_id: &str,
    novel_work_id: &str,
    idempotency_key: &str,
    next_attempt: i64,
) -> (r: Result<ComicVisualPageRunStartInput, String>)
    ensures
        if parent.status@ != "blocked_config"@ || parent.attempt_no != 0 {
            r matches Err(e) && e@ == "VISUAL_CONFIG_RESUME_PARENT_INVALID"@
        } else if !never_submitted(*parent) {
            r matches Err(e) && e@ == "VISUAL_CONFIG_RESUME_RECONCILE_REQUIRED"@
        } else if next_attempt <= 0 {
            r matches Err(e) && e@ == "VISUAL_CONFIG_RESUME_ATTEMPT_INVALID"@
        } else {
            match retry_request(*parent) {
                Err(e) => r matches Err(f) && f@ == e,
                Ok(_) => r matches Ok(start) && start_repeats(
                    start,
                    *parent,
                    project_id@,
                    novel_work_id@,
                    idempotency_key@,
                ),
            }
        },
{
    if !same(parent.status.as_str(), "blocked_config") || parent.attempt_no != 0 {
        return Err(owned("VISUAL_CONFIG_RESUME_PARENT_INVALID"));
    }
    if parent.submitted_at.is_some() || parent.provider_request_id.is_some()
        || parent.asset_id.is_some() {
        return Err(owned("VISUAL_CONFIG_RESUME_RECONCILE_REQUIRED"));
    }
    if next_attempt <= 0 {
        return Err(owned("VISUAL_CONFIG_RESUME_ATTEMPT_INVALID"));
    }
    repeat_start(parent, project_id, novel_work_id, idempotency_key)
}

// ---------------------------------------------------------------------------
// Claiming a run
// ---------------------------------------------------------------------------

/// The frozen request of a run, where compiling it again gives the same request.
pub open spec fn verified_request(
    run: ComicVisualPageRun,
    manifest: ComicVisualManifest,
    page: JsonView,
    layout_accepted: bool,
) -> Result<JsonView, Seq<char>> {
    match retry_request(run) {
        Err(e) => Err(e),
        Ok(request) => match text_at(run.request_json@, "model"@) {
            None => Err("VISUAL_REQUEST_SOURCE_MISMATCH"@),
            Some(model) => match compiled(
                run.compiler_contract_version@,
                request,
                manifest.manifest_fingerprint@,
                manifest.manifest@,
                page,
                model,
                layout_accepted,
            ) {
                Err(e) => Err(e),
                Ok(expected) => if json_same(expected, run.request_json@) {
                    Ok(expected)
                } else {
                    Err("VISUAL_REQUEST_SOURCE_MISMATCH"@)
                },
            },
        },
    }
}

/// Compiles the request of a run again and compares it with the frozen one.
pub fn verify_frozen_compiler_request(
    run: &ComicVisualPageRun,
    manifest: &ComicVisualManifest,
    page: &Json,
    layout_accepted: bool,
) -> (r: Result<Json, String>)
    ensures
        result_view(r) == verified_request(*run, *manifest, page@, layout_accepted),
{
    let request = match retry_client_request(run) {
        Ok(request) => request,
        Err(e) => return Err(e),
    };
    let default_model = match run.request_json.text_at("model") {
        Some(model) => model,
        None => return Err(owned("VISUAL_REQUEST_SOURCE_MISMATCH")),
    };
    let expected = match normalize_start_request(
        run.compiler_contract_version.as_str(),
        &request,
        manifest,
        page,
        default_model,
        layout_accepted,
    ) {
        Ok(expected) => expected,
        Err(e) => return Err(e),
    };
    if !expected.same(&run.request_json) {
        return Err(owned("VISUAL_REQUEST_SOURCE_MISMATCH"));
    }
    Ok(expected)
}

/// The request that may be dispatched for a run: from a current manifest only.
pub open spec fn dispatch_request(
    run: ComicVisualPageRun,
    manifest: ComicVisualManifest,
    layout_accepted: bool,
) -> Result<JsonView, Seq<char>> {
    if !is_supported(run.compiler_contract_version@) {
        Err("VISUAL_COMPILER_VERSION_OBSOLETE"@)
    } else if !manifest_current(manifest, run.manifest_fingerprint@) {
        Err("VISUAL_MANIFEST_STALE_OR_SCOPE_MISMATCH"@)
    } else {
        match manifest_page(manifest.manifest@, run.production_page_id@) {
            None => Err("VISUAL_PAGE_SCOPE_MISMATCH"@),
            Some(page) => verified_request(run, manifest, page, layout_accepted),
        }
    }
}

/// Verifies the request of a run before it is dispatched.
pub fn verify_dispatch_request(
    run: &ComicVisualPageRun,
    manifest: &ComicVisualManifest,
    layout_accepted: bool,
) -> (r: Result<Json, String>)
    ensures
        result_view(r) == dispatch_request(*run, *manifest, layout_accepted),
{
    if !is_supported_compiler_contract(run.compiler_contract_version.as_str()) {
        return Err(owned("VISUAL_COMPILER_VERSION_OBSOLETE"));
    }
    if !same(manifest.freshness.as_str(), "ready") || !same(
        manifest.manifest_fingerprint.as_str(),
        run.manifest_fingerprint.as_str(),
    ) {
        return Err(owned("VISUAL_MANIFEST_STALE_OR_SCOPE_MISMATCH"));
    }
    let page = match find_manifest_page(&manifest.manifest, run.production_page_id.as_str()) {
        Some(page) => page,
        None => return Err(owned("VISUAL_PAGE_SCOPE_MISMATCH")),
    };
    verify_frozen_compiler_request(run, manifest, page, layout_accepted)
}

/// The reference that a node request carries.
pub open spec fn node_reference_value(path: Seq<char>) -> JsonView {
    JsonView::Obj(
        no_members()
            .push(("path"@, JsonView::Str(path)))
            .push(("role"@, JsonView::Str("previous_panel"@)))
            .push(("weight"@, JsonView::Float("1.0"@)))
            .push(("sortOrder"@, JsonView::Int(0))),
    )
}

/// The configuration of a node request.
pub open spec fn node_config_value(
    value: JsonView,
    prompt: Seq<char>,
    reference: Option<Seq<char>>,
) -> JsonView {
    let base = no_members().push(("prompt"@, JsonView::Str(prompt)));
    let with_model = match text_at(value, "model"@) {
        Some(model) => base.push(("model"@, JsonView::Str(model))),
        None => base,
    };
    let with_size = match field(value, "size"@) {
        Some(size) => with_model.push(("size"@, size)),
        None => with_model,
    };
    let with_reference = match reference {
        Some(path) => with_size.push(
            ("references"@, JsonView::Arr(Seq::empty().push(node_reference_value(path)))),
        ),
        None => with_size,
    };
    JsonView::Obj(with_reference)
}

/// Turns a compiled request into a node request for the image service.
pub fn parse_run_node(value: &Json, reference: Option<AssetIn>) -> (r: Result<
    RunNodeRequest,
    String,
>)
    ensures
        match text_at(value@, "compiledPrompt"@) {
            None => r matches Err(e) && e@ == "VISUAL_REQUEST_SOURCE_MISMATCH"@,
            Some(prompt) => r matches Ok(node) && node.node_type@ == "comicVisualPage"@
                && node.category@ == "generate"@ && node.config@ == node_config_value(
                value@,
                prompt,
                match reference {
                    Some(a) => Some(a.path@),
                    None => None,
                },
            ) && node.input_assets@ == match reference {
                Some(a) => Seq::empty().push(a),
                None => Seq::empty(),
            },
        },
{
    let prompt = match value.text_at("compiledPrompt") {
        Some(prompt) => prompt,
        None => return Err(owned("VISUAL_REQUEST_SOURCE_MISMATCH")),
    };
    let base = fields().text("prompt", prompt);
    let with_model = match value.text_at("model") {
        Some(model) => base.text("model", model),
        None => base,
    };
    let with_size = match value.get("size") {
        Some(size) => with_model.with("size", size.copy()),
        None => with_model,
    };
    let mut input_assets: Vec<AssetIn> = Vec::new();
    let whole = match reference {
        Some(asset) => {
            let entry = fields().text("path", asset.path.as_str()).text(
                "role",
                "previous_panel",
            ).with("weight", Json::Float(owned("1.0"))).number("sortOrder", 0).object();
            let mut list: Vec<Json> = Vec::new();
            list.push(entry);
            assert(items_view(list@) =~= Seq::empty().push(entry@));
            input_assets.push(asset);
            with_size.with("references", json_array(list))
        },
        None => with_size,
    };
    Ok(
        RunNodeRequest {
            node_type: owned("comicVisualPage"),
            category: owned("generate"),
            config: whole.object(),
            input_assets,
        },
    )
}

/// Whether a node request asks for a compiled request with a reference.
pub open spec fn node_asks(node: RunNodeRequest, value: JsonView, reference: Option<Seq<char>>) -> bool {
    &&& node.node_type@ == "comicVisualPage"@
    &&& node.category@ == "generate"@
    &&& text_at(value, "compiledPrompt"@) is Some
    &&& node.config@ == node_config_value(
        value,
        text_at(value, "compiledPrompt"@)->0,
        reference,
    )
    &&& match reference {
        Some(path) => node.input_assets@.len() == 1 && node.input_assets@[0].path@ == path
            && node.input_assets@[0].kind@ == "image"@,
        None => node.input_assets@.len() == 0,
    }
}

/// The path of the reference that a run is dispatched with, where it has one. `row` is what
/// its key finds, and `is_file` tells whether the asset is there.
pub open spec fn dispatched_reference(
    run: ComicVisualPageRun,
    project: Seq<char>,
    work: Seq<char>,
    row: Option<ReferenceAsset>,
    is_file: bool,
) -> Result<Option<Seq<char>>, Seq<char>> {
    match frozen_reference(run) {
        Err(e) => Err(e),
        Ok(None) => Ok(None),
        Ok(Some(key)) => if row is Some && reference_holds(
            run,
            key.0,
            key.2,
            project,
            work,
            row->0,
            is_file,
        ) {
            Ok(Some(row->0.path@))
        } else {
            Err("VISUAL_REFERENCE_SCOPE_MISMATCH"@)
        },
    }
}

/// Fails unless a start has an idempotency key, before anything is read for it.
pub fn check_start_key(input: &ComicVisualPageRunStartInput) -> (r: Result<(), String>)
    ensures
        r is Ok <==> !is_blank(input.idempotency_key@),
        r matches Err(e) ==> e@ == "IDEMPOTENCY_KEY_REQUIRED"@,
{
    if blank(input.idempotency_key.as_str()) {
        Err(owned("IDEMPOTENCY_KEY_REQUIRED"))
    } else {
        Ok(())
    }
}

/// Fails unless a run is queued, before anything is made for its dispatch.
pub fn check_queued(run: &ComicVisualPageRun) -> (r: Result<(), String>)
    ensures
        r is Ok <==> run.status@ == "queued"@,
        r matches Err(e) ==> e@ == "VISUAL_RUN_NOT_QUEUED"@,
{
    if same(run.status.as_str(), "queued") {
        Ok(())
    } else {
        Err(owned("VISUAL_RUN_NOT_QUEUED"))
    }
}

/// The service that a run was frozen with; nothing where it has none.
pub open spec fn frozen_provider(run: ComicVisualPageRun) -> Seq<char> {
    match run.provider_id {
        Some(id) => id@,
        None => Seq::empty(),
    }
}

/// Fails unless the service that a run was frozen with is one of those that are there; its
/// request goes to no other.
pub fn check_provider(run: &ComicVisualPageRun, known: &Vec<String>) -> (r: Result<(), String>)
    ensures
        r is Ok <==> texts_view(known@).contains(frozen_provider(*run)),
        r matches Err(e) ==> e@ == "VISUAL_PROVIDER_UNAVAILABLE"@,
{
    let wanted = match &run.provider_id {
        Some(id) => id.clone(),
        None => String::new(),
    };
    assert(wanted@ =~= frozen_provider(*run));
    let ghost views = texts_view(known@);
    let mut i: usize = 0;
    while i < known.len()
        invariant
            i <= known.len(),
            views == texts_view(known@),
            wanted@ == frozen_provider(*run),
            forall|j: int| 0 <= j < i ==> #[trigger] views[j] != wanted@,
        decreases known.len() - i,
    {
        assert(views[i as int] == known@[i as int]@);
        if same(known[i].as_str(), wanted.as_str()) {
            return Ok(());
        }
        i += 1;
    }
    Err(owned("VISUAL_PROVIDER_UNAVAILABLE"))
}

/// Decides whether a run may be dispatched: it is queued, its frozen request verifies against
/// the current manifest, and its frozen reference is still there. The result is the request
/// for the image service.
pub fn claim_dispatch(
    run: &ComicVisualPageRun,
    manifest: &ComicVisualManifest,
    layout_accepted: bool,
    project_id: &str,
    novel_work_id: &str,
    row: Option<ReferenceAsset>,
    is_file: bool,
) -> (r: Result<RunNodeRequest, String>)
    ensures
        if run.status@ != "queued"@ {
            r matches Err(e) && e@ == "VISUAL_RUN_NOT_QUEUED"@
        } else {
            match dispatch_request(*run, *manifest, layout_accepted) {
                Err(e) => r matches Err(f) && f@ == e,
                Ok(value) => match dispatched_reference(
                    *run,
                    project_id@,
                    novel_work_id@,
                    row,
                    is_file,
                ) {
                    Err(e) => r matches Err(f) && f@ == e,
                    Ok(reference) => if text_at(value, "compiledPrompt"@) is None {
                        r matches Err(f) && f@ == "VISUAL_REQUEST_SOURCE_MISMATCH"@
                    } else {
                        r matches Ok(node) && node_asks(node, value, reference)
                    },
                },
            }
        },
{
    if !same(run.status.as_str(), "queued") {
        return Err(owned("VISUAL_RUN_NOT_QUEUED"));
    }
    let value = match verify_dispatch_request(run, manifest, layout_accepted) {
        Ok(value) => value,
        Err(e) => return Err(e),
    };
    let reference = match validated_reference_asset(run, project_id, novel_work_id, row, is_file) {
        Ok(reference) => reference,
        Err(e) => return Err(e),
    };
    parse_run_node(&value, reference)
}

// ---------------------------------------------------------------------------
// Finishing a run
// ---------------------------------------------------------------------------

/// Whether an error was raised before anything was sent. Only the library's own code counts:
/// a remote message may hold the same words after a paid request was accepted.
pub fn is_explicit_pre_submit_error(error: &str) -> (r: bool)
    ensures
        r == (error@ == "VISUAL_PROVIDER_UNAVAILABLE"@),
{
    same(error, "VISUAL_PROVIDER_UNAVAILABLE")
}

/// What is known of the first asset that the service returned: the components of its resolved
/// path and of the resolved output directory, the format found in its bytes, and whether its
/// bytes are an image.
#[derive(Debug)]
pub struct CandidateFacts {
    pub kind: String,
    pub declared_format: Option<String>,
    pub output_dir: Option<Vec<String>>,
    pub path: Option<Vec<String>>,
    pub is_file: bool,
    pub detected_format: Option<String>,
    pub image_valid: bool,
}

/// The formats of page candidates.
pub open spec fn is_candidate_format(s: Seq<char>) -> bool {
    s == "png"@ || s == "jpg"@ || s == "jpeg"@ || s == "webp"@
}

/// Whether a returned asset is a verifiable page image of this run.
pub open spec fn candidate_holds(f: CandidateFacts) -> bool {
    &&& f.kind@ == "image"@
    &&& f.output_dir is Some
    &&& f.path is Some
    &&& lies_under(texts_view(f.path->0@), texts_view(f.output_dir->0@))
    &&& f.is_file
    &&& f.detected_format is Some
    &&& is_candidate_format(f.detected_format->0@)
    &&& f.image_valid
    &&& f.declared_format is Some ==> lowered(f.declared_format->0@) == lowered(
        f.detected_format->0@,
    )
}

/// Checks a returned asset.
pub fn validate_candidate_asset(facts: &CandidateFacts) -> (r: Result<(), String>)
    ensures
        r is Ok <==> candidate_holds(*facts),
        r matches Err(e) ==> e@ == "VISUAL_PROVIDER_RESULT_INVALID"@,
{
    if !same(facts.kind.as_str(), "image") {
        return Err(owned("VISUAL_PROVIDER_RESULT_INVALID"));
    }
    match (&facts.output_dir, &facts.path) {
        (Some(dir), Some(path)) => {
            if !path_lies_under(path, dir) || !facts.is_file {
                return Err(owned("VISUAL_PROVIDER_RESULT_INVALID"));
            }
        },
        _ => return Err(owned("VISUAL_PROVIDER_RESULT_INVALID")),
    }
    match &facts.detected_format {
        Some(format) => {
            let format = format.as_str();
            if !(same(format, "png") || same(format, "jpg") || same(format, "jpeg") || same(
                format,
                "webp",
            )) || !facts.image_valid {
                return Err(owned("VISUAL_PROVIDER_RESULT_INVALID"));
            }
            match &facts.declared_format {
                Some(declared) => {
                    if !eq_ignore_ascii_case(declared.as_str(), format) {
                        return Err(owned("VISUAL_PROVIDER_RESULT_INVALID"));
                    }
                },
                None => {},
            }
            Ok(())
        },
        None => Err(owned("VISUAL_PROVIDER_RESULT_INVALID")),
    }
}

/// What the service returned for a run.
#[derive(Debug)]
pub enum ProviderOutcome {
    /// An error text.
    Failed(String),
    /// No asset.
    Empty,
    /// A first asset, with what is known of it.
    Candidate(CandidateFacts),
}

/// How a run ends.
#[derive(Debug)]
pub enum FinishStep {
    /// Store the asset and mark the run ready.
    Store,
    /// Mark the run failed.
    Fail { code: String, message: String, retryable: bool },
    /// Mark the run as one whose outcome has to be reconciled by hand.
    Reconcile { code: String, message: String },
}

/// How a run ends, in characters.
pub enum FinishView {
    Store,
    Fail { code: Seq<char>, message: Seq<char>, retryable: bool },
    Reconcile { code: Seq<char>, message: Seq<char> },
}

impl View for FinishStep {
    type V = FinishView;

    open spec fn view(&self) -> FinishView {
        match self {
            FinishStep::Store => FinishView::Store,
            FinishStep::Fail { code, message, retryable } => FinishView::Fail {
                code: code@,
                message: message@,
                retryable: *retryable,
            },
            FinishStep::Reconcile { code, message } => FinishView::Reconcile {
                code: code@,
                message: message@,
            },
        }
    }
}

/// How a run ends: stored only with a verified candidate, retryable only where nothing was
/// sent, and to be reconciled wherever a paid outcome is unknown or unusable.
pub open spec fn finish_spec(outcome: ProviderOutcome) -> FinishView {
    match outcome {
        ProviderOutcome::Empty => FinishView::Fail {
            code: "PROVIDER_EMPTY_RESULT"@,
            message: "图像服务已结束，但没有返回页面候选图片。"@,
            retryable: false,
        },
        ProviderOutcome::Candidate(facts) => if candidate_holds(facts) {
            FinishView::Store
        } else {
            FinishView::Reconcile {
                code: "PROVIDER_RESULT_INVALID"@,
                message: "图像服务已返回结果，但本地文件不是本次可验证的页面图片。请先核对后再决定是否重发。"@,
            }
        },
        ProviderOutcome::Failed(error) => if error@ == "VISUAL_PROVIDER_UNAVAILABLE"@ {
            FinishView::Fail {
                code: "PROVIDER_REJECTED_BEFORE_SUBMIT"@,
                message: "图像服务在提交前拒绝了本次请求，可检查配置后重试。"@,
                retryable: true,
            }
        } else {
            FinishView::Reconcile {
                code: "PROVIDER_OUTCOME_UNKNOWN"@,
                message: "图像服务连接中断或超时，无法确认是否已提交。请先核对结果后再决定是否重发。"@,
            }
        },
    }
}

/// Decides how a run ends.
pub fn finish_dispatch(outcome: &ProviderOutcome) -> (r: FinishStep)
    ensures
        r@ == finish_spec(*outcome),
{
    match outcome {
        ProviderOutcome::Empty => FinishStep::Fail {
            code: owned("PROVIDER_EMPTY_RESULT"),
            message: owned("图像服务已结束，但没有返回页面候选图片。"),
            retryable: false,
        },
        ProviderOutcome::Candidate(facts) => {
            if validate_candidate_asset(facts).is_ok() {
                FinishStep::Store
            } else {
                FinishStep::Reconcile {
                    code: owned("PROVIDER_RESULT_INVALID"),
                    message: owned(
                        "图像服务已返回结果，但本地文件不是本次可验证的页面图片。请先核对后再决定是否重发。",
                    ),
                }
            }
        },
        ProviderOutcome::Failed(error) => {
            if is_explicit_pre_submit_error(error.as_str()) {
                FinishStep::Fail {
                    code: owned("PROVIDER_REJECTED_BEFORE_SUBMIT"),
                    message: owned("图像服务在提交前拒绝了本次请求，可检查配置后重试。"),
                    retryable: true,
                }
            } else {
                FinishStep::Reconcile {
                    code: owned("PROVIDER_OUTCOME_UNKNOWN"),
                    message: owned(
                        "图像服务连接中断或超时，无法确认是否已提交。请先核对结果后再决定是否重发。",
                    ),
                }
            }
        },
    }
}

/// How a run ends whose result could not be stored.
pub fn persist_failed() -> (r: FinishStep)
    ensures
        r@ == (FinishView::Reconcile {
            code: "RESULT_PERSIST_FAILED"@,
            message: "图像服务已返回结果，但本地候选入库未确认。请先核对后再决定是否重发。"@,
        }),
{
    FinishStep::Reconcile {
        code: owned("RESULT_PERSIST_FAILED"),
        message: owned("图像服务已返回结果，但本地候选入库未确认。请先核对后再决定是否重发。"),
    }
}

/// The status and the failure record with which a running run ends; none where it is stored.
pub open spec fn ending_spec(
    step: FinishView,
    attempt_id: Seq<char>,
    output_dir: Seq<char>,
    now: int,
) -> Option<(Seq<char>, JsonView)> {
    match step {
        FinishView::Store => None,
        FinishView::Fail { code, message, retryable } => Some(
            (
                "failed"@,
                JsonView::Obj(
                    no_members()
                        .push(("code"@, JsonView::Str(code)))
                        .push(("message"@, JsonView::Str(message)))
                        .push(("retryable"@, JsonView::Bool(retryable)))
                        .push(("observedAt"@, JsonView::Int(now)))
                        .push(("outputDir"@, JsonView::Str(output_dir))),
                ),
            ),
        ),
        FinishView::Reconcile { code, message } => Some(
            (
                "needs_reconcile"@,
                JsonView::Obj(
                    no_members()
                        .push(("code"@, JsonView::Str(code)))
                        .push(("message"@, JsonView::Str(message)))
                        .push(("retryable"@, JsonView::Bool(false)))
                        .push(("observedAt"@, JsonView::Int(now)))
                        .push(("outputDir"@, JsonView::Str(output_dir)))
                        .push(("generationAttemptId"@, JsonView::Str(attempt_id))),
                ),
            ),
        ),
    }
}

/// The status and the failure record with which a running run ends.
pub fn ending_of(step: &FinishStep, run: &ComicVisualPageRun, output_dir: &str, now: i64) -> (r:
    Option<(String, Json)>)
    ensures
        (match r {
            Some(p) => Some((p.0@, p.1@)),
            None => None,
        }) == ending_spec(step@, run.generation_attempt_id@, output_dir@, now as int),
{
    match step {
        FinishStep::Store => None,
        FinishStep::Fail { code, message, retryable } => Some(
            (
                owned("failed"),
                fields().text("code", code.as_str()).text("message", message.as_str()).flag(
                    "retryable",
                    *retryable,
                ).number("observedAt", now).text("outputDir", output_dir).object(),
            ),
        ),
        FinishStep::Reconcile { code, message } => Some(
            (
                owned("needs_reconcile"),
                fields().text("code", code.as_str()).text("message", message.as_str()).flag(
                    "retryable",
                    false,
                ).number("observedAt", now).text("outputDir", output_dir).text(
                    "generationAttemptId",
                    run.generation_attempt_id.as_str(),
                ).object(),
            ),
        ),
    }
}

/// The metadata that tie a stored candidate to its run.
pub open spec fn candidate_metadata_value(
    run: ComicVisualPageRun,
    project: Seq<char>,
    work: Seq<char>,
    chapter: Seq<char>,
) -> JsonView {
    JsonView::Obj(
        no_members()
            .push(("projectId"@, JsonView::Str(project)))
            .push(("novelWorkId"@, JsonView::Str(work)))
            .push(("productionChapterId"@, JsonView::Str(chapter)))
            .push(("comicVisualManifestId"@, JsonView::Str(run.manifest_id@)))
            .push(("productionPageId"@, JsonView::Str(run.production_page_id@)))
            .push(("visualRunId"@, JsonView::Str(run.id@)))
            .push(("generationAttemptId"@, JsonView::Str(run.generation_attempt_id@)))
            .push(("manifestFingerprint"@, JsonView::Str(run.manifest_fingerprint@))),
    )
}

/// The metadata that tie a stored candidate to its run.
pub fn candidate_metadata(
    run: &ComicVisualPageRun,
    project_id: &str,
    novel_work_id: &str,
    production_chapter_id: &str,
) -> (r: Json)
    ensures
        r@ == candidate_metadata_value(
            *run,
            project_id@,
            novel_work_id@,
            production_chapter_id@,
        ),
{
    fields().text("projectId", project_id).text("novelWorkId", novel_work_id).text(
        "productionChapterId",
        production_chapter_id,
    ).text("comicVisualManifestId", run.manifest_id.as_str()).text(
        "productionPageId",
        run.production_page_id.as_str(),
    ).text("visualRunId", run.id.as_str()).text(
        "generationAttemptId",
        run.generation_attempt_id.as_str(),
    ).text("manifestFingerprint", run.manifest_fingerprint.as_str()).object()
}

/// The codes of local checks before anything is sent.
pub open spec fn is_preflight_code(code: Seq<char>) -> bool {
    ||| code == "VISUAL_COMPILER_VERSION_OBSOLETE"@
    ||| code == "VISUAL_MANIFEST_STALE_OR_SCOPE_MISMATCH"@
    ||| code == "VISUAL_REQUEST_SOURCE_MISMATCH"@
    ||| code == "VISUAL_REFERENCE_SCOPE_MISMATCH"@
    ||| code == "VISUAL_RUN_OUTPUT_FAILED"@
    ||| code == "VISUAL_PAGE_SCOPE_MISMATCH"@
    ||| code == "VISUAL_PAGE_SEMANTICS_MISSING"@
}

/// The failure record of a run that failed a local check.
pub open spec fn preflight_failure_value(code: Seq<char>, now: int) -> JsonView {
    JsonView::Obj(
        no_members()
            .push(("code"@, JsonView::Str(code)))
            .push(
                (
                    "message"@,
                    JsonView::Str("提交图像服务前的本地校验未通过，未向服务发送请求。"@),
                ),
            )
            .push(("retryable"@, JsonView::Bool(false)))
            .push(("observedAt"@, JsonView::Int(now))),
    )
}

/// The failure record of a queued run whose claim failed a local check; a run that failed for
/// another reason keeps its state.
pub fn queued_preflight_failure(code: &str, now: i64) -> (r: Option<Json>)
    ensures
        opt_view(r) == if is_preflight_code(code@) {
            Some(preflight_failure_value(code@, now as int))
        } else {
            None
        },
{
    let known = same(code, "VISUAL_COMPILER_VERSION_OBSOLETE") || same(
        code,
        "VISUAL_MANIFEST_STALE_OR_SCOPE_MISMATCH",
    ) || same(code, "VISUAL_REQUEST_SOURCE_MISMATCH") || same(
        code,
        "VISUAL_REFERENCE_SCOPE_MISMATCH",
    ) || same(code, "VISUAL_RUN_OUTPUT_FAILED") || same(code, "VISUAL_PAGE_SCOPE_MISMATCH") || same(
        code,
        "VISUAL_PAGE_SEMANTICS_MISSING",
    );
    if !known {
        return None;
    }
    Some(
        fields().text("code", code).text(
            "message",
            "提交图像服务前的本地校验未通过，未向服务发送请求。",
        ).flag("retryable", false).number("observedAt", now).object(),
    )
}

/// Where the output of a run goes, below the directory of the assets.
pub fn run_output_path(id: &str) -> (r: Vec<String>)
    ensures
        texts_view(r@) == seq!["漫画"@, "小说生产"@, id@],
{
    let mut out: Vec<String> = Vec::new();
    out.push(owned("漫画"));
    out.push(owned("小说生产"));
    out.push(owned(id));
    assert(texts_view(out@) =~= seq!["漫画"@, "小说生产"@, id@]);
    out
}

// ---------------------------------------------------------------------------
// Laws
// ---------------------------------------------------------------------------

/// A run is offered for a retry only where nothing was sent: any other error text, whatever
/// it says, leaves the run to be reconciled.
pub proof fn unknown_outcome_is_never_retryable(error: String)
    requires
        error@ != "VISUAL_PROVIDER_UNAVAILABLE"@,
    ensures
        finish_spec(ProviderOutcome::Failed(error)) is Reconcile,
{
}

/// Only a verified candidate ends a run as ready.
pub proof fn only_a_verified_candidate_is_stored(outcome: ProviderOutcome)
    ensures
        finish_spec(outcome) is Store <==> (outcome matches ProviderOutcome::Candidate(f)
            && candidate_holds(f)),
{
}

/// A request that was compiled and frozen verifies again: as long as manifest and page are the
/// same, compiling the retry of a run gives back the frozen request, whatever model the
/// configuration names by now. A model of more than 160 characters, which only a default
/// model can be, is not accepted in the retry.
pub proof fn frozen_request_verifies(
    run: ComicVisualPageRun,
    manifest: ComicVisualManifest,
    request: JsonView,
    page: JsonView,
    default_model: Seq<char>,
    layout_accepted: bool,
)
    requires
        compiled(
            run.compiler_contract_version@,
            request,
            manifest.manifest_fingerprint@,
            manifest.manifest@,
            page,
            default_model,
            layout_accepted,
        ) == Ok::<JsonView, Seq<char>>(run.request_json@),
        run.manifest_fingerprint@ == manifest.manifest_fingerprint@,
        text_at(page, "productionPageId"@) == Some(run.production_page_id@),
        trimmed(default_model).len() <= 160,
        names_distinct(run.request_json@),
    ensures
        verified_request(run, manifest, page, layout_accepted) == Ok::<JsonView, Seq<char>>(
            run.request_json@,
        ),
{
    let version = run.compiler_contract_version@;
    let fingerprint = manifest.manifest_fingerprint@;
    let out = run.request_json@;
    let options = request_options(request, version, fingerprint, page, default_model)->Ok_0;
    let model = options.0;
    let size = options.1;
    lemma_request_names();
    let frozen = out->Obj_0;
    assert(frozen.len() == 7);
    assert(frozen[0].0 == "schemaVersion"@ && frozen[1].0 == "manifestFingerprint"@);
    assert(frozen[2].0 == "productionPageId"@ && frozen[3].0 == "compilerInput"@);
    assert(frozen[4].0 == "compiledPrompt"@ && frozen[5] == ("model"@, JsonView::Str(model)));
    assert(frozen[6] == ("size"@, JsonView::Str(size)));
    lemma_lookup(frozen, "model"@, 5);
    lemma_lookup(frozen, "size"@, 6);
    let retry = retry_request(run)->Ok_0;
    let m = retry->Obj_0;
    assert(m.len() == 5);
    assert(m[0] == ("schemaVersion"@, JsonView::Str(version)));
    assert(m[1] == ("manifestFingerprint"@, JsonView::Str(fingerprint)));
    assert(m[2] == ("productionPageId"@, JsonView::Str(run.production_page_id@)));
    assert(m[3] == ("model"@, JsonView::Str(model)));
    assert(m[4] == ("size"@, JsonView::Str(size)));
    lemma_lookup(m, "schemaVersion"@, 0);
    lemma_lookup(m, "manifestFingerprint"@, 1);
    lemma_lookup(m, "productionPageId"@, 2);
    lemma_lookup(m, "model"@, 3);
    lemma_lookup(m, "size"@, 4);
    assert(are_request_keys(m));
    assert(request_matches(retry, version, fingerprint, page));
    match request_text(request, "model"@)->Ok_0 {
        Some(_) => {
            trim_is_idempotent(text_at(request, "model"@)->0);
        },
        None => {
            trim_is_idempotent(default_model);
        },
    }
    assert(trimmed(model) == model);
    let wanted = match request_text(request, "size"@)->Ok_0 {
        Some(s) => s,
        None => "1024x1536"@,
    };
    normalized_page_size_is_fixed(wanted);
    assert(request_options(retry, version, fingerprint, page, model) == Ok::<
        (Seq<char>, Seq<char>),
        Seq<char>,
    >((model, size)));
    json_same_reflexive(out);
}

proof fn lemma_request_names()
    ensures
        "schemaVersion"@ != "model"@,
        "manifestFingerprint"@ != "model"@,
        "productionPageId"@ != "model"@,
        "compilerInput"@ != "model"@,
        "compiledPrompt"@ != "model"@,
        "schemaVersion"@ != "size"@,
        "manifestFingerprint"@ != "size"@,
        "productionPageId"@ != "size"@,
        "compilerInput"@ != "size"@,
        "compiledPrompt"@ != "size"@,
        "model"@ != "size"@,
        "schemaVersion"@ != "manifestFingerprint"@,
        "schemaVersion"@ != "productionPageId"@,
        "manifestFingerprint"@ != "productionPageId"@,
{
    reveal_strlit("schemaVersion");
    reveal_strlit("manifestFingerprint");
    reveal_strlit("productionPageId");
    reveal_strlit("compilerInput");
    reveal_strlit("compiledPrompt");
    reveal_strlit("model");
    reveal_strlit("size");
    assert("schemaVersion"@.len() == 13 && "manifestFingerprint"@.len() == 19);
    assert("productionPageId"@.len() == 16 && "compilerInput"@.len() == 13);
    assert("compiledPrompt"@.len() == 14 && "model"@.len() == 5 && "size"@.len() == 4);
}

} // verus!
