//! Durable, explicitly authorized sequential rendering for a production job.
//!
//! A batch exists only after an authorized production request. It freezes its image options
//! and advances one manifest page at a time from durable renderer outcomes. The library works
//! on a snapshot of the batch and of the runs in its scope; the caller reads the snapshot,
//! stores what changed, and stamps the time of the update.
use crate::comic_visual_render::{
    frozen_model, resume_blocked_config_child, retry_failed_child, retry_request, start_repeats,
    ComicVisualPageRun, ComicVisualPageRunStartInput,
};
use crate::json::{fields, json_text_value, no_members, text_at, Json, JsonView};
use crate::sequence::{
    find_first, is_order_relation, lemma_find_first, lemma_first_index, lemma_insert_ordered,
    sort_ordered, sorting_orders,
};
use crate::text::{
    blank, concat3, contains, is_blank, occurs_in, opt_view, owned, result_view, same, trim,
    trimmed,
};
use vstd::prelude::*;

verus! {

/// How long a driver holds a batch, in milliseconds.
pub const BATCH_LEASE_MS: i64 = 60_000;

/// The only output that can be authorized.
pub const TARGET_COMIC_PAGES: &'static str = "comic_pages";

/// The only page size that can be authorized.
pub const PAGE_SIZE: &'static str = "1024x1536";

/// The command name of resumes.
pub const COMMAND_RESUME: &'static str = "comic_visual_batch_resume";

/// The command name of member retries.
pub const COMMAND_MEMBER_RETRY: &'static str = "comic_visual_batch_member_retry";

#[derive(Debug)]
pub struct VisualImageOptionsInput {
    pub model: Option<String>,
    pub size: Option<String>,
}

#[derive(Debug)]
pub struct VisualOutputInput {
    pub target: String,
    pub image_options: Option<VisualImageOptionsInput>,
}

#[derive(Debug)]
pub struct ComicVisualBatchGetInput {
    pub project_id: String,
    pub novel_work_id: String,
    pub production_job_id: String,
}

#[derive(Debug)]
pub struct ComicVisualBatchResumeInput {
    pub project_id: String,
    pub novel_work_id: String,
    pub production_job_id: String,
    pub idempotency_key: String,
}

/// Retries one failed page through its batch: names the run that is linked now and
/// acknowledges that the new attempt may be charged.
#[derive(Debug)]
pub struct ComicVisualBatchMemberRetryInput {
    pub project_id: String,
    pub novel_work_id: String,
    pub production_job_id: String,
    pub batch_id: String,
    pub member_id: String,
    pub production_page_id: String,
    pub expected_parent_run_id: String,
    pub confirm_possible_charge: bool,
    pub idempotency_key: String,
}

#[derive(Debug)]
pub struct NovelProductionVisualAuthorizeInput {
    pub project_id: String,
    pub novel_work_id: String,
    pub production_job_id: String,
    pub visual_output: VisualOutputInput,
    pub idempotency_key: String,
}

#[derive(Debug)]
pub struct ComicVisualBatchMember {
    pub member_id: String,
    pub ordinal: i64,
    pub manifest_id: String,
    pub production_chapter_id: String,
    pub production_page_id: String,
    pub page_no: i64,
    pub page_stable_key: String,
    pub status: String,
    pub page_run_id: Option<String>,
}

#[derive(Debug)]
pub struct ComicVisualBatch {
    pub id: String,
    pub project_id: String,
    pub novel_work_id: String,
    pub novel_chapter_id: String,
    pub source_revision_id: String,
    pub production_job_id: String,
    pub output_target: String,
    pub status: String,
    pub total_members: i64,
    pub completed_members: i64,
    pub current_member_ordinal: Option<i64>,
    pub safe_error_code: Option<String>,
    pub safe_user_message: Option<String>,
    pub created_at: i64,
    pub updated_at: i64,
    pub finished_at: Option<i64>,
    pub members: Vec<ComicVisualBatchMember>,
}

/// A production job as far as a batch depends on it.
#[derive(Debug)]
pub struct ProductionJob {
    pub id: String,
    pub project_id: String,
    pub novel_work_id: String,
    pub novel_chapter_id: String,
    pub source_revision_id: String,
    pub status: String,
    pub default_adaptation_id: Option<String>,
    pub apply_operation_id: Option<String>,
}

/// The receipt of an earlier command under the same idempotency key.
#[derive(Debug)]
pub struct CommandReceipt {
    pub request_hash: String,
    pub batch_id: String,
}

impl View for CommandReceipt {
    type V = (Seq<char>, Seq<char>);

    /// The request hash and the batch of a receipt.
    open spec fn view(&self) -> (Seq<char>, Seq<char>) {
        (self.request_hash@, self.batch_id@)
    }
}

// ---------------------------------------------------------------------------
// Authorization
// ---------------------------------------------------------------------------

/// What a user authorized: no credentials are part of it.
#[derive(Debug)]
pub struct FrozenAuthorization {
    pub target: String,
    pub provider_id: String,
    pub model: Option<String>,
    pub size: String,
}

/// What an authorization says.
pub struct AuthorizationView {
    pub target: Seq<char>,
    pub provider_id: Seq<char>,
    pub model: Option<Seq<char>>,
    pub size: Seq<char>,
}

impl View for FrozenAuthorization {
    type V = AuthorizationView;

    open spec fn view(&self) -> AuthorizationView {
        AuthorizationView {
            target: self.target@,
            provider_id: self.provider_id@,
            model: opt_view(self.model),
            size: self.size@,
        }
    }
}

/// A text that is there and not blank, trimmed.
pub open spec fn given(o: Option<Seq<char>>) -> Option<Seq<char>> {
    match o {
        Some(s) => if trimmed(s).len() > 0 {
            Some(trimmed(s))
        } else {
            None
        },
        None => None,
    }
}

fn given_text(o: &Option<String>) -> (r: Option<String>)
    ensures
        opt_view(r) == given(opt_view(*o)),
{
    match o {
        Some(s) => {
            let t = trim(s.as_str());
            if t.as_str().is_empty() {
                None
            } else {
                Some(t)
            }
        },
        None => None,
    }
}

/// The model that a request asks for.
pub open spec fn requested_model(input: VisualOutputInput) -> Option<Seq<char>> {
    match input.image_options {
        Some(o) => given(opt_view(o.model)),
        None => None,
    }
}

/// The size that a request asks for.
pub open spec fn requested_size(input: VisualOutputInput) -> Option<Seq<char>> {
    match input.image_options {
        Some(o) => given(opt_view(o.size)),
        None => None,
    }
}

/// The authorization of a request: comic pages of the one page size, under the requested
/// model, else the configured one, else none yet.
pub open spec fn authorization_of(
    input: VisualOutputInput,
    provider: Seq<char>,
    configured_model: Seq<char>,
) -> Result<AuthorizationView, Seq<char>> {
    if input.target@ != TARGET_COMIC_PAGES@ {
        Err("VISUAL_OUTPUT_TARGET_UNSUPPORTED"@)
    } else if requested_size(input) is Some && requested_size(input) != Some(PAGE_SIZE@) {
        Err("VISUAL_IMAGE_SIZE_UNSUPPORTED"@)
    } else {
        Ok(
            AuthorizationView {
                target: TARGET_COMIC_PAGES@,
                provider_id: provider,
                model: match requested_model(input) {
                    Some(model) => Some(model),
                    None => given(Some(configured_model)),
                },
                size: PAGE_SIZE@,
            },
        )
    }
}

/// Freezes the authorization of a request.
pub fn freeze_authorization(
    input: &VisualOutputInput,
    provider_id: &str,
    configured_model: &str,
) -> (r: Result<FrozenAuthorization, String>)
    ensures
        result_view(r) == authorization_of(*input, provider_id@, configured_model@),
{
    if !same(input.target.as_str(), TARGET_COMIC_PAGES) {
        return Err(owned("VISUAL_OUTPUT_TARGET_UNSUPPORTED"));
    }
    let (model, size) = match &input.image_options {
        Some(o) => (given_text(&o.model), given_text(&o.size)),
        None => (None, None),
    };
    match &size {
        Some(size) => if !same(size.as_str(), PAGE_SIZE) {
            return Err(owned("VISUAL_IMAGE_SIZE_UNSUPPORTED"));
        },
        None => {},
    }
    let model = match model {
        Some(model) => Some(model),
        None => given_text(&Some(owned(configured_model))),
    };
    Ok(
        FrozenAuthorization {
            target: owned(TARGET_COMIC_PAGES),
            provider_id: owned(provider_id),
            model,
            size: owned(PAGE_SIZE),
        },
    )
}

/// An authorization as JSON.
pub open spec fn authorization_value(a: AuthorizationView) -> JsonView {
    JsonView::Obj(
        no_members()
            .push(("target"@, JsonView::Str(a.target)))
            .push(("providerId"@, JsonView::Str(a.provider_id)))
            .push(
                (
                    "model"@,
                    match a.model {
                        Some(model) => JsonView::Str(model),
                        None => JsonView::Null,
                    },
                ),
            )
            .push(("size"@, JsonView::Str(a.size))),
    )
}

impl FrozenAuthorization {
    /// The authorization as JSON.
    pub fn to_json(&self) -> (r: Json)
        ensures
            r@ == authorization_value(self@),
    {
        let model = match &self.model {
            Some(model) => json_text_value(model.as_str()),
            None => Json::Null,
        };
        fields().text("target", self.target.as_str()).text(
            "providerId",
            self.provider_id.as_str(),
        ).with("model", model).text("size", self.size.as_str()).object()
    }
}

/// A text or null.
pub open spec fn text_or_null(o: Option<Seq<char>>) -> JsonView {
    match o {
        Some(s) => JsonView::Str(s),
        None => JsonView::Null,
    }
}

fn json_or_null(o: &Option<String>) -> (r: Json)
    ensures
        r@ == text_or_null(opt_view(*o)),
{
    match o {
        Some(s) => json_text_value(s.as_str()),
        None => Json::Null,
    }
}

/// The output that a request asks for, as JSON.
pub open spec fn output_value(input: VisualOutputInput) -> JsonView {
    JsonView::Obj(
        no_members()
            .push(("target"@, JsonView::Str(input.target@)))
            .push(
                (
                    "imageOptions"@,
                    match input.image_options {
                        Some(o) => JsonView::Obj(
                            no_members()
                                .push(("model"@, text_or_null(opt_view(o.model))))
                                .push(("size"@, text_or_null(opt_view(o.size)))),
                        ),
                        None => JsonView::Null,
                    },
                ),
            ),
    )
}

/// The intent under which a finished job is authorized.
pub open spec fn authorize_intent_value(input: NovelProductionVisualAuthorizeInput) -> JsonView {
    JsonView::Obj(
        no_members()
            .push(("productionJobId"@, JsonView::Str(input.production_job_id@)))
            .push(("visualOutput"@, output_value(input.visual_output))),
    )
}

/// The intent under which a finished job is authorized; its hash guards the idempotency key.
pub fn authorize_intent(input: &NovelProductionVisualAuthorizeInput) -> (r: Json)
    ensures
        r@ == authorize_intent_value(*input),
{
    let options = match &input.visual_output.image_options {
        Some(o) => fields().with("model", json_or_null(&o.model)).with(
            "size",
            json_or_null(&o.size),
        ).object(),
        None => Json::Null,
    };
    let output = fields().text("target", input.visual_output.target.as_str()).with(
        "imageOptions",
        options,
    ).object();
    fields().text("productionJobId", input.production_job_id.as_str()).with(
        "visualOutput",
        output,
    ).object()
}

/// The intent under which a new job is authorized.
pub open spec fn new_job_intent_value(job: Seq<char>, authorization: AuthorizationView) -> JsonView {
    JsonView::Obj(
        no_members()
            .push(("productionJobId"@, JsonView::Str(job)))
            .push(("authorization"@, authorization_value(authorization))),
    )
}

/// The intent under which a new job is authorized.
pub fn new_job_intent(job_id: &str, authorization: &FrozenAuthorization) -> (r: Json)
    ensures
        r@ == new_job_intent_value(job_id@, authorization@),
{
    fields().text("productionJobId", job_id).with("authorization", authorization.to_json()).object()
}

/// The batch that a job already has.
#[derive(Debug)]
pub struct StoredBatch {
    pub id: String,
    pub request_hash: String,
}

/// Decides the authorization of a job: a job has one batch, which another request does not
/// change. The result is the identifier of the batch that is there, or none where one is to be
/// stored.
pub fn insert_batch_step(
    authorization: &FrozenAuthorization,
    request_hash: &str,
    existing: Option<StoredBatch>,
) -> (r: Result<Option<String>, String>)
    ensures
        if authorization@.target != TARGET_COMIC_PAGES@ || authorization@.size != PAGE_SIZE@ {
            r matches Err(e) && e@ == "VISUAL_AUTHORIZATION_INVALID"@
        } else {
            match existing {
                Some(b) => if b.request_hash@ != request_hash@ {
                    r matches Err(e) && e@ == "VISUAL_BATCH_AUTHORIZATION_MISMATCH"@
                } else {
                    r matches Ok(Some(id)) && id@ == b.id@
                },
                None => r matches Ok(None),
            }
        },
{
    if !same(authorization.target.as_str(), TARGET_COMIC_PAGES) || !same(
        authorization.size.as_str(),
        PAGE_SIZE,
    ) {
        return Err(owned("VISUAL_AUTHORIZATION_INVALID"));
    }
    match existing {
        Some(b) => if !same(b.request_hash.as_str(), request_hash) {
            Err(owned("VISUAL_BATCH_AUTHORIZATION_MISMATCH"))
        } else {
            Ok(Some(b.id))
        },
        None => Ok(None),
    }
}

/// Decides an authorization after the fact: only of a finished production, and a used key
/// replays its own request only. The result is the identifier of the batch to hand out, or
/// none where the authorization goes on.
pub fn authorize_step(job_status: &str, intent_hash: &str, replay: Option<StoredBatch>) -> (r:
    Result<Option<String>, String>)
    ensures
        if job_status@ != "succeeded"@ {
            r matches Err(e) && e@ == "VISUAL_AUTHORIZATION_REQUIRES_SUCCEEDED_PRODUCTION"@
        } else {
            match replay {
                Some(b) => if b.request_hash@ != intent_hash@ {
                    r matches Err(e) && e@ == "IDEMPOTENCY_MISMATCH"@
                } else {
                    r matches Ok(Some(id)) && id@ == b.id@
                },
                None => r matches Ok(None),
            }
        },
{
    if !same(job_status, "succeeded") {
        return Err(owned("VISUAL_AUTHORIZATION_REQUIRES_SUCCEEDED_PRODUCTION"));
    }
    match replay {
        Some(b) => if !same(b.request_hash.as_str(), intent_hash) {
            Err(owned("IDEMPOTENCY_MISMATCH"))
        } else {
            Ok(Some(b.id))
        },
        None => Ok(None),
    }
}

// ---------------------------------------------------------------------------
// The snapshot of a batch
// ---------------------------------------------------------------------------

/// A member of a batch: one page.
#[derive(Debug)]
pub struct MemberState {
    pub id: String,
    pub ordinal: i64,
    pub manifest_id: String,
    pub production_chapter_id: String,
    pub production_page_id: String,
    pub page_no: i64,
    pub page_stable_key: String,
    pub predecessor_member_id: Option<String>,
    pub page_run_id: Option<String>,
    pub dispatch_key: String,
    pub status: String,
    pub finished_at: Option<i64>,
}

/// What a member says.
pub struct MemberView {
    pub id: Seq<char>,
    pub ordinal: int,
    pub manifest_id: Seq<char>,
    pub production_chapter_id: Seq<char>,
    pub production_page_id: Seq<char>,
    pub page_no: int,
    pub page_stable_key: Seq<char>,
    pub predecessor_member_id: Option<Seq<char>>,
    pub page_run_id: Option<Seq<char>>,
    pub dispatch_key: Seq<char>,
    pub status: Seq<char>,
    pub finished_at: Option<i64>,
}

impl View for MemberState {
    type V = MemberView;

    open spec fn view(&self) -> MemberView {
        MemberView {
            id: self.id@,
            ordinal: self.ordinal as int,
            manifest_id: self.manifest_id@,
            production_chapter_id: self.production_chapter_id@,
            production_page_id: self.production_page_id@,
            page_no: self.page_no as int,
            page_stable_key: self.page_stable_key@,
            predecessor_member_id: opt_view(self.predecessor_member_id),
            page_run_id: opt_view(self.page_run_id),
            dispatch_key: self.dispatch_key@,
            status: self.status@,
            finished_at: self.finished_at,
        }
    }
}

/// The views of a list of members.
pub open spec fn members_of(v: Seq<MemberState>) -> Seq<MemberView> {
    v.map_values(|m: MemberState| m@)
}

/// A batch with its members in the order of their ordinals.
#[derive(Debug)]
pub struct BatchState {
    pub id: String,
    pub project_id: String,
    pub novel_work_id: String,
    pub novel_chapter_id: String,
    pub source_revision_id: String,
    pub production_job_id: String,
    pub comic_adaptation_id: Option<String>,
    pub apply_operation_id: Option<String>,
    pub output_target: String,
    pub authorization: FrozenAuthorization,
    pub resolved_model: Option<String>,
    pub status: String,
    pub total_members: i64,
    pub completed_members: i64,
    pub current_member_ordinal: Option<i64>,
    pub lease_owner: Option<String>,
    pub lease_expires_at: Option<i64>,
    pub safe_error_code: Option<String>,
    pub safe_user_message: Option<String>,
    pub created_at: i64,
    pub updated_at: i64,
    pub finished_at: Option<i64>,
    pub members: Vec<MemberState>,
}

/// What a batch says.
pub struct BatchView {
    pub id: Seq<char>,
    pub project_id: Seq<char>,
    pub novel_work_id: Seq<char>,
    pub novel_chapter_id: Seq<char>,
    pub source_revision_id: Seq<char>,
    pub production_job_id: Seq<char>,
    pub comic_adaptation_id: Option<Seq<char>>,
    pub apply_operation_id: Option<Seq<char>>,
    pub output_target: Seq<char>,
    pub authorization: AuthorizationView,
    pub resolved_model: Option<Seq<char>>,
    pub status: Seq<char>,
    pub total_members: int,
    pub completed_members: int,
    pub current_member_ordinal: Option<i64>,
    pub lease_owner: Option<Seq<char>>,
    pub lease_expires_at: Option<i64>,
    pub safe_error_code: Option<Seq<char>>,
    pub safe_user_message: Option<Seq<char>>,
    pub created_at: int,
    pub updated_at: int,
    pub finished_at: Option<i64>,
    pub members: Seq<MemberView>,
}

impl View for BatchState {
    type V = BatchView;

    open spec fn view(&self) -> BatchView {
        BatchView {
            id: self.id@,
            project_id: self.project_id@,
            novel_work_id: self.novel_work_id@,
            novel_chapter_id: self.novel_chapter_id@,
            source_revision_id: self.source_revision_id@,
            production_job_id: self.production_job_id@,
            comic_adaptation_id: opt_view(self.comic_adaptation_id),
            apply_operation_id: opt_view(self.apply_operation_id),
            output_target: self.output_target@,
            authorization: self.authorization@,
            resolved_model: opt_view(self.resolved_model),
            status: self.status@,
            total_members: self.total_members as int,
            completed_members: self.completed_members as int,
            current_member_ordinal: self.current_member_ordinal,
            lease_owner: opt_view(self.lease_owner),
            lease_expires_at: self.lease_expires_at,
            safe_error_code: opt_view(self.safe_error_code),
            safe_user_message: opt_view(self.safe_user_message),
            created_at: self.created_at as int,
            updated_at: self.updated_at as int,
            finished_at: self.finished_at,
            members: members_of(self.members@),
        }
    }
}

fn copy_opt(o: &Option<String>) -> (r: Option<String>)
    ensures
        opt_view(r) == opt_view(*o),
{
    match o {
        Some(s) => Some(s.clone()),
        None => None,
    }
}

impl MemberState {
    /// Copies a member.
    pub fn copy(&self) -> (r: MemberState)
        ensures
            r@ == self@,
    {
        MemberState {
            id: self.id.clone(),
            ordinal: self.ordinal,
            manifest_id: self.manifest_id.clone(),
            production_chapter_id: self.production_chapter_id.clone(),
            production_page_id: self.production_page_id.clone(),
            page_no: self.page_no,
            page_stable_key: self.page_stable_key.clone(),
            predecessor_member_id: copy_opt(&self.predecessor_member_id),
            page_run_id: copy_opt(&self.page_run_id),
            dispatch_key: self.dispatch_key.clone(),
            status: self.status.clone(),
            finished_at: self.finished_at,
        }
    }
}

fn copy_member_list(v: &Vec<MemberState>) -> (r: Vec<MemberState>)
    ensures
        members_of(r@) == members_of(v@),
{
    let mut out: Vec<MemberState> = Vec::new();
    let mut i: usize = 0;
    while i < v.len()
        invariant
            i <= v.len(),
            out.len() == i,
            forall|j: int| 0 <= j < i ==> (#[trigger] out@[j])@ == v@[j]@,
        decreases v.len() - i,
    {
        out.push(v[i].copy());
        i += 1;
    }
    assert(members_of(out@) =~= members_of(v@));
    out
}

impl FrozenAuthorization {
    /// Copies an authorization.
    pub fn copy(&self) -> (r: FrozenAuthorization)
        ensures
            r@ == self@,
    {
        FrozenAuthorization {
            target: self.target.clone(),
            provider_id: self.provider_id.clone(),
            model: copy_opt(&self.model),
            size: self.size.clone(),
        }
    }
}

/// The batch with which an authorized job begins: it waits for the text of the job and has no
/// members yet.
pub open spec fn first_state(
    id: Seq<char>,
    job: ProductionJob,
    authorization: AuthorizationView,
    now: i64,
) -> BatchView {
    BatchView {
        id,
        project_id: job.project_id@,
        novel_work_id: job.novel_work_id@,
        novel_chapter_id: job.novel_chapter_id@,
        source_revision_id: job.source_revision_id@,
        production_job_id: job.id@,
        comic_adaptation_id: None,
        apply_operation_id: None,
        output_target: TARGET_COMIC_PAGES@,
        authorization,
        resolved_model: None,
        status: "waiting_text"@,
        total_members: 0,
        completed_members: 0,
        current_member_ordinal: None,
        lease_owner: None,
        lease_expires_at: None,
        safe_error_code: None,
        safe_user_message: None,
        created_at: now as int,
        updated_at: now as int,
        finished_at: None,
        members: Seq::empty(),
    }
}

/// The batch that is stored for a job where `insert_batch_step` finds none.
pub fn new_batch(
    id: &str,
    job: &ProductionJob,
    authorization: &FrozenAuthorization,
    now: i64,
) -> (r: BatchState)
    ensures
        r@ == first_state(id@, *job, authorization@, now),
{
    let members: Vec<MemberState> = Vec::new();
    assert(members_of(members@) =~= Seq::empty());
    BatchState {
        id: owned(id),
        project_id: job.project_id.clone(),
        novel_work_id: job.novel_work_id.clone(),
        novel_chapter_id: job.novel_chapter_id.clone(),
        source_revision_id: job.source_revision_id.clone(),
        production_job_id: job.id.clone(),
        comic_adaptation_id: None,
        apply_operation_id: None,
        output_target: owned(TARGET_COMIC_PAGES),
        authorization: authorization.copy(),
        resolved_model: None,
        status: owned("waiting_text"),
        total_members: 0,
        completed_members: 0,
        current_member_ordinal: None,
        lease_owner: None,
        lease_expires_at: None,
        safe_error_code: None,
        safe_user_message: None,
        created_at: now,
        updated_at: now,
        finished_at: None,
        members,
    }
}

impl BatchState {
    /// Copies a batch.
    pub fn copy(&self) -> (r: BatchState)
        ensures
            r@ == self@,
    {
        BatchState {
            id: self.id.clone(),
            project_id: self.project_id.clone(),
            novel_work_id: self.novel_work_id.clone(),
            novel_chapter_id: self.novel_chapter_id.clone(),
            source_revision_id: self.source_revision_id.clone(),
            production_job_id: self.production_job_id.clone(),
            comic_adaptation_id: copy_opt(&self.comic_adaptation_id),
            apply_operation_id: copy_opt(&self.apply_operation_id),
            output_target: self.output_target.clone(),
            authorization: self.authorization.copy(),
            resolved_model: copy_opt(&self.resolved_model),
            status: self.status.clone(),
            total_members: self.total_members,
            completed_members: self.completed_members,
            current_member_ordinal: self.current_member_ordinal,
            lease_owner: copy_opt(&self.lease_owner),
            lease_expires_at: self.lease_expires_at,
            safe_error_code: copy_opt(&self.safe_error_code),
            safe_user_message: copy_opt(&self.safe_user_message),
            created_at: self.created_at,
            updated_at: self.updated_at,
            finished_at: self.finished_at,
            members: copy_member_list(&self.members),
        }
    }
}

/// A run in the scope of a batch with its idempotency key.
#[derive(Debug)]
pub struct ScopedRun {
    pub idempotency_key: String,
    pub run: ComicVisualPageRun,
}

/// Whether a run has an identifier.
pub open spec fn run_has_id(id: Seq<char>) -> spec_fn(ScopedRun) -> bool {
    |r: ScopedRun| r.run.id@ == id
}

/// Whether a run has an idempotency key.
pub open spec fn run_has_key(key: Seq<char>) -> spec_fn(ScopedRun) -> bool {
    |r: ScopedRun| r.idempotency_key@ == key
}

/// The run with an identifier.
pub open spec fn run_by_id(runs: Seq<ScopedRun>, id: Seq<char>) -> Option<ScopedRun> {
    find_first(runs, run_has_id(id))
}

/// The run with an idempotency key.
pub open spec fn run_by_key(runs: Seq<ScopedRun>, key: Seq<char>) -> Option<ScopedRun> {
    find_first(runs, run_has_key(key))
}

/// Finds the run with an identifier.
pub fn find_run<'a>(runs: &'a Vec<ScopedRun>, id: &str) -> (r: Option<&'a ScopedRun>)
    ensures
        (match r {
            Some(s) => Some(*s),
            None => None,
        }) == run_by_id(runs@, id@),
{
    let ghost p = run_has_id(id@);
    let mut i: usize = 0;
    while i < runs.len()
        invariant
            i <= runs.len(),
            p == run_has_id(id@),
            forall|j: int| 0 <= j < i ==> !p(#[trigger] runs@[j]),
        decreases runs.len() - i,
    {
        if same(runs[i].run.id.as_str(), id) {
            proof {
                lemma_find_first(runs@, p, i as int);
            }
            return Some(&runs[i]);
        }
        i += 1;
    }
    proof {
        lemma_find_first(runs@, p, i as int);
    }
    None
}

fn find_run_by_key<'a>(runs: &'a Vec<ScopedRun>, key: &str) -> (r: Option<&'a ScopedRun>)
    ensures
        (match r {
            Some(s) => Some(*s),
            None => None,
        }) == run_by_key(runs@, key@),
{
    let ghost p = run_has_key(key@);
    let mut i: usize = 0;
    while i < runs.len()
        invariant
            i <= runs.len(),
            p == run_has_key(key@),
            forall|j: int| 0 <= j < i ==> !p(#[trigger] runs@[j]),
        decreases runs.len() - i,
    {
        if same(runs[i].idempotency_key.as_str(), key) {
            proof {
                lemma_find_first(runs@, p, i as int);
            }
            return Some(&runs[i]);
        }
        i += 1;
    }
    proof {
        lemma_find_first(runs@, p, i as int);
    }
    None
}

// ---------------------------------------------------------------------------
// Status
// ---------------------------------------------------------------------------

/// Whether a batch of this status stops for good, until somebody looks at it.
pub open spec fn is_terminal(status: Seq<char>) -> bool {
    status == "needs_reconcile"@ || status == "blocked_stale"@
}

/// Whether a status ends a batch.
pub open spec fn is_finished(status: Seq<char>) -> bool {
    ||| status == "candidate_ready"@
    ||| status == "failed"@
    ||| status == "needs_reconcile"@
    ||| status == "blocked_stale"@
}

/// A batch with a new status: its error is replaced, and it is finished where the status ends
/// it.
pub open spec fn with_status(
    b: BatchView,
    status: Seq<char>,
    error: Option<(Seq<char>, Seq<char>)>,
    now: i64,
) -> BatchView {
    BatchView {
        status,
        safe_error_code: match error {
            Some(e) => Some(e.0),
            None => None,
        },
        safe_user_message: match error {
            Some(e) => Some(e.1),
            None => None,
        },
        finished_at: if is_finished(status) {
            Some(now)
        } else {
            b.finished_at
        },
        ..b
    }
}

fn finished_status(status: &str) -> (r: bool)
    ensures
        r == is_finished(status@),
{
    same(status, "candidate_ready") || same(status, "failed") || same(status, "needs_reconcile")
        || same(status, "blocked_stale")
}

fn terminal_status(status: &str) -> (r: bool)
    ensures
        r == is_terminal(status@),
{
    same(status, "needs_reconcile") || same(status, "blocked_stale")
}

/// Gives a batch a new status.
pub fn set_batch_status(
    batch: &mut BatchState,
    status: &str,
    error: Option<(&str, &str)>,
    now: i64,
)
    ensures
        final(batch)@ == with_status(
            old(batch)@,
            status@,
            match error {
                Some(e) => Some((e.0@, e.1@)),
                None => None,
            },
            now,
        ),
{
    batch.status = owned(status);
    match error {
        Some(e) => {
            batch.safe_error_code = Some(owned(e.0));
            batch.safe_user_message = Some(owned(e.1));
        },
        None => {
            batch.safe_error_code = None;
            batch.safe_user_message = None;
        },
    }
    if finished_status(status) {
        batch.finished_at = Some(now);
    }
}

// ---------------------------------------------------------------------------
// The order of members
// ---------------------------------------------------------------------------

/// Whether the members of a batch stand in the order of their ordinals, of which none occurs
/// twice.
pub open spec fn members_in_order(b: BatchView) -> bool {
    forall|i: int, j: int|
        0 <= i < j < b.members.len() ==> (#[trigger] b.members[i]).ordinal < (
        #[trigger] b.members[j]).ordinal
}

/// Whether members have the ordinals of others, place by place.
pub open spec fn keeps_places(a: Seq<MemberView>, b: Seq<MemberView>) -> bool {
    a.len() == b.len() && forall|i: int|
        0 <= i < a.len() ==> (#[trigger] b[i]).ordinal == a[i].ordinal
}

/// Members that keep their places stay in order.
pub proof fn lemma_places_keep_order(a: BatchView, b: BatchView)
    requires
        keeps_places(a.members, b.members),
    ensures
        members_in_order(a) ==> members_in_order(b),
{
    if members_in_order(a) {
        assert forall|i: int, j: int| 0 <= i < j < b.members.len() implies (
        #[trigger] b.members[i]).ordinal < (#[trigger] b.members[j]).ordinal by {
            assert(a.members[i].ordinal < a.members[j].ordinal);
        }
    }
}

/// Whether a member comes before another: by its ordinal.
pub open spec fn member_before() -> spec_fn(MemberView, MemberView) -> bool {
    |a: MemberView, b: MemberView| a.ordinal < b.ordinal
}

/// Puts stored members in the order of their ordinals.
pub fn order_members(members: Vec<MemberState>) -> (r: Vec<MemberState>)
    ensures
        members_of(r@) == sort_ordered(members_of(members@), member_before()),
{
    let ghost views = members_of(members@);
    let mut out: Vec<MemberState> = Vec::new();
    let mut i: usize = 0;
    assert(members_of(out@) =~= sort_ordered(views.take(0), member_before()));
    while i < members.len()
        invariant
            i <= members.len(),
            views == members_of(members@),
            members_of(out@) == sort_ordered(views.take(i as int), member_before()),
        decreases members.len() - i,
    {
        let m = members[i].copy();
        let ghost before = members_of(out@);
        let mut k: usize = out.len();
        while k > 0 && out[k - 1].ordinal > m.ordinal
            invariant
                k <= out.len(),
                before == members_of(out@),
                forall|j: int|
                    k <= j < out.len() ==> member_before()(m@, #[trigger] before[j]),
            decreases k,
        {
            k -= 1;
        }
        proof {
            lemma_insert_ordered(before, m@, member_before(), k as int);
            assert(views.take(i + 1).drop_last() =~= views.take(i as int));
            assert(views.take(i + 1).last() == members@[i as int]@);
        }
        out.insert(k, m);
        assert(members_of(out@) =~= before.insert(k as int, m@));
        i += 1;
    }
    assert(views.take(i as int) =~= views);
    out
}

/// Ordered members stand in the order of their ordinals, and none is lost or added. A batch
/// whose ordinals are distinct is in order.
pub proof fn ordered_members_are_in_order(b: BatchView, members: Seq<MemberView>)
    requires
        b.members == sort_ordered(members, member_before()),
        forall|i: int, j: int|
            0 <= i < j < members.len() ==> (#[trigger] members[i]).ordinal != (
            #[trigger] members[j]).ordinal,
    ensures
        b.members.to_multiset() == members.to_multiset(),
        members_in_order(b),
{
    let before = member_before();
    assert(is_order_relation(before));
    sorting_orders(members, before);
    let sorted = b.members;
    lemma_distinct_ordinals(members, sorted);
    assert forall|i: int, j: int| 0 <= i < j < sorted.len() implies (#[trigger] sorted[i]).ordinal
        < (#[trigger] sorted[j]).ordinal by {
        assert(!before(sorted[j], sorted[i]));
        assert(sorted[i].ordinal != sorted[j].ordinal);
    }
}

proof fn lemma_distinct_ordinals(a: Seq<MemberView>, b: Seq<MemberView>)
    requires
        a.to_multiset() == b.to_multiset(),
        forall|i: int, j: int|
            0 <= i < j < a.len() ==> (#[trigger] a[i]).ordinal != (#[trigger] a[j]).ordinal,
    ensures
        forall|i: int, j: int|
            0 <= i < j < b.len() ==> (#[trigger] b[i]).ordinal != (#[trigger] b[j]).ordinal,
    decreases b.len(),
{
    broadcast use vstd::seq_lib::group_to_multiset_ensures;

    assert(a.len() == a.to_multiset().len() && b.len() == b.to_multiset().len());
    if b.len() > 0 {
        let x = b.last();
        assert(b.contains(x));
        assert(b.to_multiset().count(x) > 0);
        assert(a.contains(x));
        let k = choose|k: int| 0 <= k < a.len() && a[k] == x;
        let p = a.remove(k);
        let q = b.drop_last();
        assert(a =~= p.insert(k, x));
        assert(b =~= q.push(x));
        assert(p.to_multiset() =~= a.to_multiset().remove(x));
        assert(q.to_multiset() =~= b.to_multiset().remove(x));
        assert forall|i: int, j: int| 0 <= i < j < p.len() implies (#[trigger] p[i]).ordinal != (
        #[trigger] p[j]).ordinal by {
            let s = if i < k {
                i
            } else {
                i + 1
            };
            let t = if j < k {
                j
            } else {
                j + 1
            };
            assert(a[s].ordinal != a[t].ordinal);
        }
        lemma_distinct_ordinals(p, q);
        assert forall|i: int| 0 <= i < q.len() implies (#[trigger] q[i]).ordinal != x.ordinal by {
            assert(q.contains(q[i]));
            assert(q.to_multiset().count(q[i]) > 0);
            assert(p.contains(q[i]));
            let t = choose|t: int| 0 <= t < p.len() && p[t] == q[i];
            let u = if t < k {
                t
            } else {
                t + 1
            };
            assert(a[u] == q[i] && u != k);
            if u < k {
                assert(a[u].ordinal != a[k].ordinal);
            } else {
                assert(a[k].ordinal != a[u].ordinal);
            }
        }
        assert forall|i: int, j: int| 0 <= i < j < b.len() implies (#[trigger] b[i]).ordinal != (
        #[trigger] b[j]).ordinal by {
            if j < q.len() {
                assert(q[i].ordinal != q[j].ordinal);
            } else {
                assert(q[i].ordinal != x.ordinal);
            }
        }
    }
}

/// In a batch whose members are in order, the first open member is the open one of the least
/// ordinal.
pub proof fn first_open_member_is_the_least(b: BatchView, i: int)
    requires
        members_in_order(b),
        0 <= i < b.members.len(),
        is_open(b.members[i]),
    ensures
        first_open(b.members) matches Some(m) && is_open(m) && m.ordinal <= b.members[i].ordinal,
{
    let p = |m: MemberView| is_open(m);
    let k = lemma_first_index(b.members, p);
    if k > i {
        assert(!p(b.members[i]));
    }
    if k < i {
        assert(b.members[k].ordinal < b.members[i].ordinal);
    }
}

/// Linking members to runs, taking over outcomes and handing members to children leaves the
/// members in their order.
pub proof fn members_stay_in_order(
    b: BatchView,
    runs: Seq<ScopedRun>,
    k: int,
    now: i64,
    configured: Seq<char>,
    index: int,
    child: Seq<char>,
)
    requires
        members_in_order(b),
        0 <= k <= b.members.len(),
        0 <= index < b.members.len(),
    ensures
        members_in_order(relinked(b, runs)),
        members_in_order(synced_upto(b, runs, k, now)),
        members_in_order(synced(b, runs, now)),
        members_in_order(brought_up(b, runs, now)),
        members_in_order(resume_basis(b, runs, configured, now)),
        members_in_order(retry_linked(b, index, child)),
        members_in_order(resume_linked(b, index, child)),
{
    let n = b.members.len() as int;
    lemma_places_keep_order(b, relinked(b, runs));
    lemma_synced_upto_members(b, runs, k, now);
    lemma_places_keep_order(b, synced_upto(b, runs, k, now));
    lemma_synced_upto_members(b, runs, n, now);
    lemma_places_keep_order(b, synced(b, runs, now));
    let x = relinked(unleased(b), runs);
    lemma_synced_upto_members(x, runs, n, now);
    lemma_places_keep_order(b, brought_up(b, runs, now));
    let y = relinked(model_resolved(unleased(b), configured), runs);
    lemma_synced_upto_members(y, runs, n, now);
    lemma_places_keep_order(b, resume_basis(b, runs, configured, now));
    lemma_places_keep_order(b, retry_linked(b, index, child));
    lemma_places_keep_order(b, resume_linked(b, index, child));
}

// ---------------------------------------------------------------------------
// Linking runs that were started before a crash
// ---------------------------------------------------------------------------

/// A member with the run that carries its dispatch key, where it has none yet.
pub open spec fn linked_member(m: MemberView, runs: Seq<ScopedRun>) -> MemberView {
    if m.page_run_id is Some {
        m
    } else {
        match run_by_key(runs, m.dispatch_key) {
            Some(r) => MemberView { page_run_id: Some(r.run.id@), status: r.run.status@, ..m },
            None => m,
        }
    }
}

/// A batch whose members are linked to the runs that carry their dispatch keys.
pub open spec fn relinked(b: BatchView, runs: Seq<ScopedRun>) -> BatchView {
    BatchView { members: b.members.map_values(|m: MemberView| linked_member(m, runs)), ..b }
}

/// Links members to runs that were started but not linked. The dispatch key makes this a
/// lookup, never a new paid attempt.
pub fn reconcile_unlinked_members(batch: &mut BatchState, runs: &Vec<ScopedRun>)
    ensures
        final(batch)@ == relinked(old(batch)@, runs@),
        members_in_order(old(batch)@) ==> members_in_order(final(batch)@),
{
    let ghost before = batch@;
    let ghost want = relinked(batch@, runs@).members;
    let mut i: usize = 0;
    while i < batch.members.len()
        invariant
            i <= batch.members.len(),
            batch.members.len() == before.members.len(),
            want == relinked(before, runs@).members,
            batch@ == (BatchView { members: batch@.members, ..before }),
            forall|j: int| 0 <= j < i ==> (#[trigger] batch.members@[j])@ == want[j],
            forall|j: int|
                i <= j < batch.members.len() ==> (#[trigger] batch.members@[j])@
                    == before.members[j],
        decreases batch.members.len() - i,
    {
        assert(want[i as int] == linked_member(before.members[i as int], runs@));
        let mut m = batch.members[i].copy();
        if m.page_run_id.is_none() {
            match find_run_by_key(runs, m.dispatch_key.as_str()) {
                Some(r) => {
                    m.page_run_id = Some(r.run.id.clone());
                    m.status = r.run.status.clone();
                },
                None => {},
            }
        }
        assert(m@ == want[i as int]);
        batch.members.set(i, m);
        i += 1;
    }
    assert(batch@.members =~= want);
    proof {
        lemma_places_keep_order(before, batch@);
    }
}

// ---------------------------------------------------------------------------
// Taking over the outcomes of runs
// ---------------------------------------------------------------------------

/// The statuses that a run can have.
pub open spec fn is_run_status(s: Seq<char>) -> bool {
    ||| s == "candidate_ready"@
    ||| s == "queued"@
    ||| s == "running"@
    ||| s == "needs_reconcile"@
    ||| s == "blocked_config"@
    ||| s == "failed"@
}

/// The status of the run that a member is linked to.
pub open spec fn run_status(m: MemberView, runs: Seq<ScopedRun>) -> Option<Seq<char>> {
    match m.page_run_id {
        Some(id) => match run_by_id(runs, id) {
            Some(r) => Some(r.run.status@),
            None => None,
        },
        None => None,
    }
}

/// Whether the run of a member has a known status, or the member has no run.
pub open spec fn outcome_known(m: MemberView, runs: Seq<ScopedRun>) -> bool {
    run_status(m, runs) is Some ==> is_run_status(run_status(m, runs)->0)
}

/// A member that has taken over the outcome of its run.
pub open spec fn synced_member(m: MemberView, outcome: Option<Seq<char>>, now: i64) -> MemberView {
    match outcome {
        None => m,
        Some(s) => if s == "candidate_ready"@ {
            if m.status == "candidate_ready"@ {
                m
            } else {
                MemberView { status: s, finished_at: Some(now), ..m }
            }
        } else if s == "queued"@ || s == "running"@ {
            MemberView { status: s, ..m }
        } else if s == "blocked_config"@ {
            MemberView { status: s, finished_at: None, ..m }
        } else {
            MemberView { status: s, finished_at: Some(now), ..m }
        },
    }
}

/// The status with which a batch answers the outcome of one of its runs; a batch that has
/// stopped for good keeps its own.
pub open spec fn answered(b: BatchView, outcome: Option<Seq<char>>, now: i64) -> BatchView {
    if is_terminal(b.status) {
        b
    } else if outcome == Some("needs_reconcile"@) {
        with_status(
            b,
            "needs_reconcile"@,
            Some(("VISUAL_BATCH_RECONCILE_REQUIRED"@, "某页图像结果未知，已暂停后续生成。"@)),
            now,
        )
    } else if outcome == Some("blocked_config"@) {
        with_status(
            b,
            "blocked_config"@,
            Some(("VISUAL_BATCH_CONFIG_REQUIRED"@, "某页图像配置不足，已暂停后续生成。"@)),
            now,
        )
    } else if outcome == Some("failed"@) {
        with_status(
            b,
            "failed"@,
            Some(("VISUAL_BATCH_PAGE_FAILED"@, "某页生成失败，已保留已有页面。"@)),
            now,
        )
    } else {
        b
    }
}

/// A batch whose first `k` members have taken over the outcomes of their runs, in order.
pub open spec fn synced_upto(b: BatchView, runs: Seq<ScopedRun>, k: int, now: i64) -> BatchView
    decreases k,
{
    if k <= 0 {
        b
    } else {
        let done = synced_upto(b, runs, k - 1, now);
        let outcome = run_status(b.members[k - 1], runs);
        answered(
            BatchView {
                members: done.members.update(
                    k - 1,
                    synced_member(b.members[k - 1], outcome, now),
                ),
                ..done
            },
            outcome,
            now,
        )
    }
}

/// How many members are ready.
pub open spec fn ready_count(members: Seq<MemberView>) -> int
    decreases members.len(),
{
    if members.len() == 0 {
        0
    } else {
        ready_count(members.drop_last()) + if members.last().status == "candidate_ready"@ {
            1int
        } else {
            0int
        }
    }
}

/// Whether a member is not ready yet.
pub open spec fn is_open(m: MemberView) -> bool {
    m.status != "candidate_ready"@
}

/// The first member that is not ready yet.
pub open spec fn first_open(members: Seq<MemberView>) -> Option<MemberView> {
    find_first(members, |m: MemberView| is_open(m))
}

/// A batch with its progress counted.
pub open spec fn counted(b: BatchView) -> BatchView {
    BatchView {
        completed_members: ready_count(b.members),
        current_member_ordinal: match first_open(b.members) {
            Some(m) => Some(m.ordinal as i64),
            None => None,
        },
        ..b
    }
}

/// Whether all runs have known statuses.
pub open spec fn outcomes_known(b: BatchView, runs: Seq<ScopedRun>) -> bool {
    forall|i: int| 0 <= i < b.members.len() ==> outcome_known(#[trigger] b.members[i], runs)
}

/// A batch that has taken over the outcomes of all its runs.
pub open spec fn synced(b: BatchView, runs: Seq<ScopedRun>, now: i64) -> BatchView {
    counted(synced_upto(b, runs, b.members.len() as int, now))
}

pub proof fn lemma_synced_upto_members(b: BatchView, runs: Seq<ScopedRun>, k: int, now: i64)
    requires
        0 <= k <= b.members.len(),
    ensures
        synced_upto(b, runs, k, now).members.len() == b.members.len(),
        forall|i: int|
            0 <= i < k ==> (#[trigger] synced_upto(b, runs, k, now).members[i]) == synced_member(
                b.members[i],
                run_status(b.members[i], runs),
                now,
            ),
        forall|i: int|
            k <= i < b.members.len() ==> (#[trigger] synced_upto(b, runs, k, now).members[i])
                == b.members[i],
    decreases k,
{
    if k > 0 {
        lemma_synced_upto_members(b, runs, k - 1, now);
    }
}

/// The index of the first member that is not ready yet.
pub fn first_open_index(members: &Vec<MemberState>) -> (r: Option<usize>)
    ensures
        match r {
            Some(i) => i < members.len() && first_open(members_of(members@)) == Some(
                members@[i as int]@,
            ) && is_open(members@[i as int]@) && forall|j: int|
                0 <= j < i ==> !is_open(#[trigger] members_of(members@)[j]),
            None => first_open(members_of(members@)) is None,
        },
{
    let ghost views = members_of(members@);
    let ghost p = |m: MemberView| is_open(m);
    let mut i: usize = 0;
    while i < members.len()
        invariant
            i <= members.len(),
            views == members_of(members@),
            p == (|m: MemberView| is_open(m)),
            forall|j: int| 0 <= j < i ==> !p(#[trigger] views[j]),
        decreases members.len() - i,
    {
        assert(views[i as int] == members@[i as int]@);
        if !same(members[i].status.as_str(), "candidate_ready") {
            proof {
                lemma_find_first(views, p, i as int);
                assert forall|j: int| 0 <= j < i implies !is_open(#[trigger] views[j]) by {
                    assert(!p(views[j]));
                }
            }
            return Some(i);
        }
        i += 1;
    }
    proof {
        lemma_find_first(views, p, i as int);
    }
    None
}

fn count_ready(members: &Vec<MemberState>) -> (r: usize)
    ensures
        r == ready_count(members_of(members@)),
        r <= members.len(),
{
    let ghost views = members_of(members@);
    let mut n: usize = 0;
    let mut i: usize = 0;
    assert(views.take(0) =~= Seq::<MemberView>::empty());
    while i < members.len()
        invariant
            i <= members.len(),
            n <= i,
            views == members_of(members@),
            n == ready_count(views.take(i as int)),
        decreases members.len() - i,
    {
        proof {
            assert(views.take(i + 1).drop_last() =~= views.take(i as int));
            assert(views.take(i + 1).last() == members@[i as int]@);
        }
        if same(members[i].status.as_str(), "candidate_ready") {
            n += 1;
        }
        i += 1;
    }
    assert(views.take(i as int) =~= views);
    n
}

fn sync_one(batch: &mut BatchState, i: usize, status: &str, now: i64)
    requires
        i < old(batch).members.len(),
        is_run_status(status@),
    ensures
        final(batch)@ == answered(
            BatchView {
                members: old(batch)@.members.update(
                    i as int,
                    synced_member(old(batch)@.members[i as int], Some(status@), now),
                ),
                ..old(batch)@
            },
            Some(status@),
            now,
        ),
{
    let ghost before = batch@;
    proof {
        reveal_strlit("candidate_ready");
        reveal_strlit("queued");
        reveal_strlit("running");
        reveal_strlit("needs_reconcile");
        reveal_strlit("blocked_config");
        reveal_strlit("failed");
        assert("candidate_ready"@.len() == 15 && "needs_reconcile"@.len() == 15);
        assert("candidate_ready"@[0] == 'c' && "needs_reconcile"@[0] == 'n');
        assert("queued"@.len() == 6 && "failed"@.len() == 6);
        assert("queued"@[0] == 'q' && "failed"@[0] == 'f');
        assert("running"@.len() == 7 && "blocked_config"@.len() == 14);
    }
    let mut m = batch.members[i].copy();
    if same(status, "candidate_ready") {
        if !same(m.status.as_str(), "candidate_ready") {
            m.status = owned(status);
            m.finished_at = Some(now);
        }
    } else if same(status, "queued") || same(status, "running") {
        m.status = owned(status);
    } else if same(status, "blocked_config") {
        m.status = owned(status);
        m.finished_at = None;
    } else {
        m.status = owned(status);
        m.finished_at = Some(now);
    }
    assert(m@ == synced_member(before.members[i as int], Some(status@), now));
    batch.members.set(i, m);
    assert(batch@.members =~= before.members.update(i as int, m@));
    if !terminal_status(batch.status.as_str()) {
        if same(status, "needs_reconcile") {
            set_batch_status(
                batch,
                "needs_reconcile",
                Some(("VISUAL_BATCH_RECONCILE_REQUIRED", "某页图像结果未知，已暂停后续生成。")),
                now,
            );
        } else if same(status, "blocked_config") {
            set_batch_status(
                batch,
                "blocked_config",
                Some(("VISUAL_BATCH_CONFIG_REQUIRED", "某页图像配置不足，已暂停后续生成。")),
                now,
            );
        } else if same(status, "failed") {
            set_batch_status(
                batch,
                "failed",
                Some(("VISUAL_BATCH_PAGE_FAILED", "某页生成失败，已保留已有页面。")),
                now,
            );
        }
    }
}

fn linked_run<'a>(m: &MemberState, runs: &'a Vec<ScopedRun>) -> (r: Option<&'a ScopedRun>)
    ensures
        (match r {
            Some(s) => Some(s.run.status@),
            None => None,
        }) == run_status(m@, runs@),
{
    match &m.page_run_id {
        Some(id) => find_run(runs, id.as_str()),
        None => None,
    }
}

/// Whether an index is that of the first member whose run has an unknown status.
pub open spec fn first_unknown(b: BatchView, runs: Seq<ScopedRun>, k: int) -> bool {
    &&& 0 <= k < b.members.len()
    &&& !outcome_known(b.members[k], runs)
    &&& forall|j: int| 0 <= j < k ==> outcome_known(#[trigger] b.members[j], runs)
}

/// Takes over the outcomes of the linked runs, member by member. A run of an unknown status
/// stops the walk: what was taken over before it stays.
pub fn sync_member_outcomes(batch: &mut BatchState, runs: &Vec<ScopedRun>, now: i64) -> (r: Result<
    (),
    String,
>)
    requires
        old(batch).members.len() <= i64::MAX,
    ensures
        r is Ok <==> outcomes_known(old(batch)@, runs@),
        r is Ok ==> final(batch)@ == synced(old(batch)@, runs@, now),
        r matches Err(e) ==> e@ == "VISUAL_BATCH_RUN_STATUS_INVALID"@ && exists|k: int| #[trigger]
            first_unknown(old(batch)@, runs@, k) && final(batch)@ == synced_upto(
                old(batch)@,
                runs@,
                k,
                now,
            ),
        members_in_order(old(batch)@) ==> members_in_order(final(batch)@),
{
    let ghost before = batch@;
    let mut i: usize = 0;
    while i < batch.members.len()
        invariant
            i <= batch.members.len(),
            before == old(batch)@,
            before.members.len() <= i64::MAX,
            batch.members.len() == before.members.len(),
            batch@ == synced_upto(before, runs@, i as int, now),
            forall|j: int| 0 <= j < i ==> outcome_known(#[trigger] before.members[j], runs@),
        decreases batch.members.len() - i,
    {
        proof {
            lemma_synced_upto_members(before, runs@, i as int, now);
            assert(batch@.members[i as int] == before.members[i as int]);
        }
        match linked_run(&batch.members[i], runs) {
            Some(run) => {
                let status = run.run.status.as_str();
                if !(same(status, "candidate_ready") || same(status, "queued") || same(
                    status,
                    "running",
                ) || same(status, "needs_reconcile") || same(status, "blocked_config") || same(
                    status,
                    "failed",
                )) {
                    proof {
                        assert(first_unknown(before, runs@, i as int));
                        lemma_places_keep_order(before, batch@);
                    }
                    return Err(owned("VISUAL_BATCH_RUN_STATUS_INVALID"));
                }
                sync_one(batch, i, status, now);
            },
            None => {
                proof {
                    assert(batch@.members.update(i as int, before.members[i as int])
                        =~= batch@.members);
                }
            },
        }
        proof {
            lemma_synced_upto_members(before, runs@, i + 1, now);
            assert(batch@.members.len() == batch.members.len());
        }
        i += 1;
    }
    let completed: usize = count_ready(&batch.members);
    let current: Option<usize> = first_open_index(&batch.members);
    proof {
        lemma_synced_upto_members(before, runs@, before.members.len() as int, now);
    }
    batch.completed_members = completed as i64;
    batch.current_member_ordinal = match current {
        Some(i) => Some(batch.members[i].ordinal),
        None => None,
    };
    proof {
        lemma_places_keep_order(before, batch@);
    }
    Ok(())
}

// ---------------------------------------------------------------------------
// What a caller sees of a batch
// ---------------------------------------------------------------------------

/// The status that a member shows: a finished page stays finished; a stale batch shows on the
/// current member and is stronger than an old failure; a run that ended shows its own status.
pub open spec fn shown_status(
    m: MemberView,
    outcome: Option<Seq<char>>,
    batch_status: Seq<char>,
    current: Option<i64>,
) -> Seq<char> {
    let is_current = current is Some && current->0 == m.ordinal;
    if m.status == "candidate_ready"@ {
        m.status
    } else if m.status == "blocked_stale"@ || (batch_status == "blocked_stale"@ && is_current) {
        "blocked_stale"@
    } else if outcome == Some("failed"@) || outcome == Some("needs_reconcile"@) || outcome == Some(
        "blocked_config"@,
    ) {
        outcome->0
    } else if batch_status == "needs_reconcile"@ && is_current {
        "needs_reconcile"@
    } else {
        m.status
    }
}

/// Whether a public member shows a member.
pub open spec fn member_shows(
    p: ComicVisualBatchMember,
    m: MemberView,
    outcome: Option<Seq<char>>,
    batch_status: Seq<char>,
    current: Option<i64>,
) -> bool {
    &&& p.member_id@ == m.id
    &&& p.ordinal == m.ordinal
    &&& p.manifest_id@ == m.manifest_id
    &&& p.production_chapter_id@ == m.production_chapter_id
    &&& p.production_page_id@ == m.production_page_id
    &&& p.page_no == m.page_no
    &&& p.page_stable_key@ == m.page_stable_key
    &&& p.status@ == shown_status(m, outcome, batch_status, current)
    &&& opt_view(p.page_run_id) == m.page_run_id
}

/// Whether a public batch shows a batch.
pub open spec fn batch_shows(p: ComicVisualBatch, b: BatchView, runs: Seq<ScopedRun>) -> bool {
    &&& p.id@ == b.id
    &&& p.project_id@ == b.project_id
    &&& p.novel_work_id@ == b.novel_work_id
    &&& p.novel_chapter_id@ == b.novel_chapter_id
    &&& p.source_revision_id@ == b.source_revision_id
    &&& p.production_job_id@ == b.production_job_id
    &&& p.output_target@ == b.output_target
    &&& p.status@ == b.status
    &&& p.total_members == b.total_members
    &&& p.completed_members == b.completed_members
    &&& p.current_member_ordinal == b.current_member_ordinal
    &&& opt_view(p.safe_error_code) == b.safe_error_code
    &&& opt_view(p.safe_user_message) == b.safe_user_message
    &&& p.created_at == b.created_at
    &&& p.updated_at == b.updated_at
    &&& p.finished_at == b.finished_at
    &&& p.members@.len() == b.members.len()
    &&& forall|i: int|
        0 <= i < b.members.len() ==> member_shows(
            #[trigger] p.members@[i],
            b.members[i],
            run_status(b.members[i], runs),
            b.status,
            b.current_member_ordinal,
        )
}

fn show_member(
    m: &MemberState,
    runs: &Vec<ScopedRun>,
    batch_status: &str,
    current: Option<i64>,
) -> (r: ComicVisualBatchMember)
    ensures
        member_shows(r, m@, run_status(m@, runs@), batch_status@, current),
{
    let is_current = match current {
        Some(ordinal) => ordinal == m.ordinal,
        None => false,
    };
    let status = if same(m.status.as_str(), "candidate_ready") {
        m.status.clone()
    } else if same(m.status.as_str(), "blocked_stale") || (same(batch_status, "blocked_stale")
        && is_current) {
        owned("blocked_stale")
    } else {
        let fallback = if same(batch_status, "needs_reconcile") && is_current {
            owned("needs_reconcile")
        } else {
            m.status.clone()
        };
        match linked_run(m, runs) {
            Some(r) => {
                let s = r.run.status.as_str();
                if same(s, "failed") || same(s, "needs_reconcile") || same(s, "blocked_config") {
                    owned(s)
                } else {
                    fallback
                }
            },
            None => fallback,
        }
    };
    ComicVisualBatchMember {
        member_id: m.id.clone(),
        ordinal: m.ordinal,
        manifest_id: m.manifest_id.clone(),
        production_chapter_id: m.production_chapter_id.clone(),
        production_page_id: m.production_page_id.clone(),
        page_no: m.page_no,
        page_stable_key: m.page_stable_key.clone(),
        status,
        page_run_id: copy_opt(&m.page_run_id),
    }
}

/// Shows a batch. `scope_exists` tells whether the work belongs to the project, and `batch` is
/// the batch with the identifier in that scope.
pub fn get_by_id(scope_exists: bool, batch: Option<&BatchState>, runs: &Vec<ScopedRun>) -> (r:
    Result<Option<ComicVisualBatch>, String>)
    ensures
        if !scope_exists {
            r matches Err(e) && e@ == "VISUAL_BATCH_SCOPE_MISMATCH"@
        } else {
            match batch {
                None => r matches Ok(None),
                Some(b) => r matches Ok(Some(p)) && batch_shows(p, b@, runs@),
            }
        },
{
    if !scope_exists {
        return Err(owned("VISUAL_BATCH_SCOPE_MISMATCH"));
    }
    let b = match batch {
        Some(b) => b,
        None => return Ok(None),
    };
    let mut members: Vec<ComicVisualBatchMember> = Vec::new();
    let mut i: usize = 0;
    while i < b.members.len()
        invariant
            i <= b.members.len(),
            members.len() == i,
            forall|j: int|
                0 <= j < i ==> member_shows(
                    #[trigger] members@[j],
                    b@.members[j],
                    run_status(b@.members[j], runs@),
                    b@.status,
                    b@.current_member_ordinal,
                ),
        decreases b.members.len() - i,
    {
        members.push(
            show_member(&b.members[i], runs, b.status.as_str(), b.current_member_ordinal),
        );
        i += 1;
    }
    Ok(
        Some(
            ComicVisualBatch {
                id: b.id.clone(),
                project_id: b.project_id.clone(),
                novel_work_id: b.novel_work_id.clone(),
                novel_chapter_id: b.novel_chapter_id.clone(),
                source_revision_id: b.source_revision_id.clone(),
                production_job_id: b.production_job_id.clone(),
                output_target: b.output_target.clone(),
                status: b.status.clone(),
                total_members: b.total_members,
                completed_members: b.completed_members,
                current_member_ordinal: b.current_member_ordinal,
                safe_error_code: copy_opt(&b.safe_error_code),
                safe_user_message: copy_opt(&b.safe_user_message),
                created_at: b.created_at,
                updated_at: b.updated_at,
                finished_at: b.finished_at,
                members,
            },
        ),
    )
}

// ---------------------------------------------------------------------------
// Leases
// ---------------------------------------------------------------------------

/// Whether somebody holds a batch.
pub open spec fn lease_held(b: BatchView, now: i64) -> bool {
    b.lease_expires_at is Some && b.lease_expires_at->0 > now
}

/// A batch that nobody holds.
pub open spec fn unleased(b: BatchView) -> BatchView {
    BatchView { lease_owner: None, lease_expires_at: None, ..b }
}

/// Frees an expired lease, or fails where the lease is held.
pub fn ensure_lease_available(batch: &mut BatchState, busy_code: &str, now: i64) -> (r: Result<
    (),
    String,
>)
    ensures
        if lease_held(old(batch)@, now) {
            r matches Err(e) && e@ == busy_code@ && final(batch)@ == old(batch)@
        } else {
            r is Ok && final(batch)@ == unleased(old(batch)@)
        },
{
    match batch.lease_expires_at {
        Some(expires) => if expires > now {
            return Err(owned(busy_code));
        },
        None => {},
    }
    batch.lease_owner = None;
    batch.lease_expires_at = None;
    Ok(())
}

/// Frees an expired lease for a member retry.
pub fn ensure_member_retry_lease_available(batch: &mut BatchState, now: i64) -> (r: Result<
    (),
    String,
>)
    ensures
        if lease_held(old(batch)@, now) {
            r matches Err(e) && e@ == "VISUAL_BATCH_RETRY_BUSY"@ && final(batch)@ == old(batch)@
        } else {
            r is Ok && final(batch)@ == unleased(old(batch)@)
        },
{
    ensure_lease_available(batch, "VISUAL_BATCH_RETRY_BUSY", now)
}

/// Frees an expired lease for a resume.
pub fn ensure_resume_lease_available(batch: &mut BatchState, now: i64) -> (r: Result<(), String>)
    ensures
        if lease_held(old(batch)@, now) {
            r matches Err(e) && e@ == "VISUAL_BATCH_RESUME_BUSY"@ && final(batch)@ == old(batch)@
        } else {
            r is Ok && final(batch)@ == unleased(old(batch)@)
        },
{
    ensure_lease_available(batch, "VISUAL_BATCH_RESUME_BUSY", now)
}

/// The statuses in which a batch can be driven.
pub open spec fn is_drivable(status: Seq<char>) -> bool {
    ||| status == "authorized"@
    ||| status == "waiting_text"@
    ||| status == "preparing"@
    ||| status == "running"@
    ||| status == "blocked_config"@
}

/// Whether a driver can take a batch.
pub open spec fn claimable(b: BatchView, now: i64) -> bool {
    is_drivable(b.status) && (b.lease_expires_at is None || b.lease_expires_at->0 < now)
}

/// A batch that a driver has taken.
pub open spec fn claimed(b: BatchView, token: Seq<char>, now: i64) -> BatchView {
    BatchView {
        lease_owner: Some(token),
        lease_expires_at: Some((now + BATCH_LEASE_MS) as i64),
        ..b
    }
}

/// Takes a batch for a driver; tells whether it was taken.
pub fn claim_batch(batch: &mut BatchState, token: &str, now: i64) -> (r: bool)
    requires
        now <= i64::MAX - BATCH_LEASE_MS,
    ensures
        r == claimable(old(batch)@, now),
        final(batch)@ == if r {
            claimed(old(batch)@, token@, now)
        } else {
            old(batch)@
        },
{
    let status = batch.status.as_str();
    if !(same(status, "authorized") || same(status, "waiting_text") || same(status, "preparing")
        || same(status, "running") || same(status, "blocked_config")) {
        return false;
    }
    match batch.lease_expires_at {
        Some(expires) => if expires >= now {
            return false;
        },
        None => {},
    }
    batch.lease_owner = Some(owned(token));
    batch.lease_expires_at = Some(now + BATCH_LEASE_MS);
    true
}

/// A batch that a driver has given back, where it held it.
pub open spec fn released(b: BatchView, token: Seq<char>) -> BatchView {
    if b.lease_owner == Some(token) {
        unleased(b)
    } else {
        b
    }
}

/// Gives a batch back, where the driver still holds it.
pub fn release_batch_claim(batch: &mut BatchState, token: &str)
    ensures
        final(batch)@ == released(old(batch)@, token@),
{
    let mine = match &batch.lease_owner {
        Some(owner) => same(owner.as_str(), token),
        None => false,
    };
    if mine {
        batch.lease_owner = None;
        batch.lease_expires_at = None;
    }
}

/// Whether a driver holds a batch at a time.
pub open spec fn holds(b: BatchView, token: Seq<char>, now: i64) -> bool {
    b.lease_owner == Some(token) && b.lease_expires_at is Some && b.lease_expires_at->0 >= now
}

fn holds_batch(batch: &BatchState, token: &str, now: i64) -> (r: bool)
    ensures
        r == holds(batch@, token@, now),
{
    let mine = match &batch.lease_owner {
        Some(owner) => same(owner.as_str(), token),
        None => false,
    };
    let alive = match batch.lease_expires_at {
        Some(expires) => expires >= now,
        None => false,
    };
    mine && alive
}

/// The status with which a batch answers an error of its driver: errors of staleness, drift
/// and order block it, all others fail it.
pub open spec fn driver_error_status(code: Seq<char>) -> Seq<char> {
    if occurs_in(code, "STALE"@) || occurs_in(code, "DRIFT"@) || occurs_in(code, "ORDER"@) {
        "blocked_stale"@
    } else {
        "failed"@
    }
}

/// A batch that has recorded an error of its driver.
pub open spec fn driver_error_recorded(
    b: BatchView,
    token: Seq<char>,
    code: Seq<char>,
    now: i64,
) -> BatchView {
    if !holds(b, token, now) || b.status == "needs_reconcile"@ {
        b
    } else {
        with_status(
            b,
            driver_error_status(code),
            Some((code, "漫画页后台接续未能安全继续，已有结果已保留。"@)),
            now,
        )
    }
}

/// Records an error of the driver, where it still holds the batch and no outcome is unknown.
pub fn record_driver_error(batch: &mut BatchState, token: &str, code: &str, now: i64)
    ensures
        final(batch)@ == driver_error_recorded(old(batch)@, token@, code@, now),
{
    if !holds_batch(batch, token, now) || same(batch.status.as_str(), "needs_reconcile") {
        return ;
    }
    let status = if contains(code, "STALE") || contains(code, "DRIFT") || contains(code, "ORDER") {
        "blocked_stale"
    } else {
        "failed"
    };
    set_batch_status(
        batch,
        status,
        Some((code, "漫画页后台接续未能安全继续，已有结果已保留。")),
        now,
    );
}

/// How long to sleep until a lease has run out, in milliseconds.
pub fn wake_delay_ms(expires_at: i64, now: i64) -> (r: u64)
    requires
        i64::MIN <= expires_at - now,
        expires_at - now + 1 <= i64::MAX,
    ensures
        r == if expires_at - now + 1 > 1 {
            expires_at - now + 1
        } else {
            1
        },
{
    let delay: i64 = expires_at - now;
    if delay > 0 {
        (delay + 1) as u64
    } else {
        1
    }
}

/// What happens to a linked run whose lease was watched.
#[derive(Debug, PartialEq, Eq, Structural)]
pub enum LinkedRunRecoveryDecision {
    WaitUntil(i64),
    Reconciled,
    NoAction,
}

/// Decides what happens to a linked run: while its lease runs it is left alone, once the lease
/// has run out its outcome has to be reconciled, and it is never started again. The failure
/// record is given where the run is to be marked.
pub fn reconcile_linked_run_lease(
    run: Option<(&str, Option<i64>)>,
    now: i64,
) -> (r: LinkedRunRecoveryDecision)
    ensures
        r == match run {
            Some(p) => if p.0@ != "running"@ {
                LinkedRunRecoveryDecision::NoAction
            } else if p.1 is Some && p.1->0 > now {
                LinkedRunRecoveryDecision::WaitUntil(p.1->0)
            } else {
                LinkedRunRecoveryDecision::Reconciled
            },
            None => LinkedRunRecoveryDecision::NoAction,
        },
{
    match run {
        Some((status, lease)) => {
            if !same(status, "running") {
                return LinkedRunRecoveryDecision::NoAction;
            }
            match lease {
                Some(expires) => if expires > now {
                    return LinkedRunRecoveryDecision::WaitUntil(expires);
                },
                None => {},
            }
            LinkedRunRecoveryDecision::Reconciled
        },
        None => LinkedRunRecoveryDecision::NoAction,
    }
}

/// The failure record of a run whose lease has run out.
pub open spec fn lease_failure_value(now: int) -> JsonView {
    JsonView::Obj(
        no_members()
            .push(("code"@, JsonView::Str("VISUAL_RUN_LEASE_EXPIRED"@)))
            .push(("message"@, JsonView::Str("页面生成租约已过期，无法确认远端结果。"@)))
            .push(("retryable"@, JsonView::Bool(false)))
            .push(("observedAt"@, JsonView::Int(now))),
    )
}

/// The failure record of a run whose lease has run out.
pub fn lease_expired_failure(now: i64) -> (r: Json)
    ensures
        r@ == lease_failure_value(now as int),
{
    fields().text("code", "VISUAL_RUN_LEASE_EXPIRED").text(
        "message",
        "页面生成租约已过期，无法确认远端结果。",
    ).flag("retryable", false).number("observedAt", now).object()
}

// ---------------------------------------------------------------------------
// Retrying a member
// ---------------------------------------------------------------------------

/// What the request hash of a member retry is taken of.
pub open spec fn retry_identity(input: ComicVisualBatchMemberRetryInput) -> JsonView {
    JsonView::Obj(
        no_members()
            .push(("projectId"@, JsonView::Str(input.project_id@)))
            .push(("novelWorkId"@, JsonView::Str(input.novel_work_id@)))
            .push(("productionJobId"@, JsonView::Str(input.production_job_id@)))
            .push(("batchId"@, JsonView::Str(input.batch_id@)))
            .push(("memberId"@, JsonView::Str(input.member_id@)))
            .push(("productionPageId"@, JsonView::Str(input.production_page_id@)))
            .push(("expectedParentRunId"@, JsonView::Str(input.expected_parent_run_id@)))
            .push(("confirmPossibleCharge"@, JsonView::Bool(input.confirm_possible_charge))),
    )
}

/// What the request hash of a member retry is taken of.
pub fn retry_member_identity(input: &ComicVisualBatchMemberRetryInput) -> (r: Json)
    ensures
        r@ == retry_identity(*input),
{
    fields().text("projectId", input.project_id.as_str()).text(
        "novelWorkId",
        input.novel_work_id.as_str(),
    ).text("productionJobId", input.production_job_id.as_str()).text(
        "batchId",
        input.batch_id.as_str(),
    ).text("memberId", input.member_id.as_str()).text(
        "productionPageId",
        input.production_page_id.as_str(),
    ).text("expectedParentRunId", input.expected_parent_run_id.as_str()).flag(
        "confirmPossibleCharge",
        input.confirm_possible_charge,
    ).object()
}

/// The key of a child run.
pub open spec fn child_key(dispatch_key: Seq<char>, kind: Seq<char>, parent: Seq<char>) -> Seq<char> {
    dispatch_key + kind + parent
}

/// Whether the first open member waits on a queued run with a given key.
pub open spec fn waits_on(
    b: BatchView,
    runs: Seq<ScopedRun>,
    m: MemberView,
    kind: Seq<char>,
    parent: Seq<char>,
) -> bool {
    &&& b.status == "running"@
    &&& first_open(b.members) == Some(m)
    &&& m.status == "queued"@
    &&& m.page_run_id is Some
    &&& run_by_id(runs, m.page_run_id->0) is Some
    &&& ({
        let run = run_by_id(runs, m.page_run_id->0)->0;
        &&& run.run.status@ == "queued"@
        &&& opt_view(run.run.parent_run_id) == Some(parent)
        &&& run.idempotency_key@ == child_key(m.dispatch_key, kind, parent)
    })
}

/// The queued child of an earlier retry of a member, where the batch still waits on it.
pub open spec fn queued_retry(
    b: BatchView,
    runs: Seq<ScopedRun>,
    member: Seq<char>,
    parent: Seq<char>,
) -> Option<Seq<char>> {
    match first_open(b.members) {
        Some(m) => if m.id == member && waits_on(b, runs, m, ":retry:"@, parent) {
            m.page_run_id
        } else {
            None
        },
        None => None,
    }
}

/// The queued child of an earlier resume, where the batch still waits on it.
pub open spec fn queued_resume(b: BatchView, runs: Seq<ScopedRun>) -> Option<Seq<char>> {
    match first_open(b.members) {
        Some(m) => match resumed_parent(m, runs) {
            Some(parent) => if parent.run.status@ == "blocked_config"@ && parent.run.attempt_no == 0
                && waits_on(b, runs, m, ":config-resume:"@, parent.run.id@) {
                m.page_run_id
            } else {
                None
            },
            None => None,
        },
        None => None,
    }
}

/// The parent of the run that a member is linked to.
pub open spec fn resumed_parent(m: MemberView, runs: Seq<ScopedRun>) -> Option<ScopedRun> {
    match m.page_run_id {
        Some(id) => match run_by_id(runs, id) {
            Some(run) => match run.run.parent_run_id {
                Some(parent) => run_by_id(runs, parent@),
                None => None,
            },
            None => None,
        },
        None => None,
    }
}

fn waits(
    batch: &BatchState,
    runs: &Vec<ScopedRun>,
    index: usize,
    kind: &str,
    parent: &str,
) -> (r: bool)
    requires
        index < batch.members.len(),
        first_open(batch@.members) == Some(batch.members@[index as int]@),
    ensures
        r == waits_on(batch@, runs@, batch.members@[index as int]@, kind@, parent@),
{
    let m = &batch.members[index];
    if !same(batch.status.as_str(), "running") || !same(m.status.as_str(), "queued") {
        return false;
    }
    let id = match &m.page_run_id {
        Some(id) => id,
        None => return false,
    };
    match find_run(runs, id.as_str()) {
        Some(run) => {
            let child_of = match &run.run.parent_run_id {
                Some(p) => same(p.as_str(), parent),
                None => false,
            };
            let key = concat3(m.dispatch_key.as_str(), kind, parent);
            same(run.run.status.as_str(), "queued") && child_of && same(
                run.idempotency_key.as_str(),
                key.as_str(),
            )
        },
        None => false,
    }
}

/// Finds the queued child of an earlier retry.
pub fn queued_retried_child(
    batch: &BatchState,
    runs: &Vec<ScopedRun>,
    member_id: &str,
    parent_id: &str,
) -> (r: Option<String>)
    ensures
        opt_view(r) == queued_retry(batch@, runs@, member_id@, parent_id@),
{
    let open: Option<usize> = first_open_index(&batch.members);
    match open {
        Some(i) => {
            if same(batch.members[i].id.as_str(), member_id) && waits(
                batch,
                runs,
                i,
                ":retry:",
                parent_id,
            ) {
                copy_opt(&batch.members[i].page_run_id)
            } else {
                None
            }
        },
        None => None,
    }
}

/// Finds the queued child of an earlier resume.
pub fn queued_resumed_child(batch: &BatchState, runs: &Vec<ScopedRun>) -> (r: Option<String>)
    ensures
        opt_view(r) == queued_resume(batch@, runs@),
{
    let open: Option<usize> = first_open_index(&batch.members);
    let i: usize = match open {
        Some(i) => i,
        None => return None,
    };
    let run = match &batch.members[i].page_run_id {
        Some(id) => match find_run(runs, id.as_str()) {
            Some(run) => run,
            None => return None,
        },
        None => return None,
    };
    let parent = match &run.run.parent_run_id {
        Some(id) => match find_run(runs, id.as_str()) {
            Some(parent) => parent,
            None => return None,
        },
        None => return None,
    };
    if same(parent.run.status.as_str(), "blocked_config") && parent.run.attempt_no == 0 && waits(
        batch,
        runs,
        i,
        ":config-resume:",
        parent.run.id.as_str(),
    ) {
        copy_opt(&batch.members[i].page_run_id)
    } else {
        None
    }
}

/// The code with which a batch that has stopped for good refuses a command.
pub open spec fn terminal_refusal(status: Seq<char>) -> Option<Seq<char>> {
    if status == "needs_reconcile"@ {
        Some("VISUAL_BATCH_RECONCILE_REQUIRED"@)
    } else if status == "blocked_stale"@ {
        Some("VISUAL_BATCH_STALE_REQUIRED"@)
    } else {
        None
    }
}

fn refuse_terminal(status: &str) -> (r: Option<String>)
    ensures
        opt_view(r) == terminal_refusal(status@),
{
    if same(status, "needs_reconcile") {
        Some(owned("VISUAL_BATCH_RECONCILE_REQUIRED"))
    } else if same(status, "blocked_stale") {
        Some(owned("VISUAL_BATCH_STALE_REQUIRED"))
    } else {
        None
    }
}

/// Whether a member has an identifier.
pub open spec fn member_has_id(id: Seq<char>) -> spec_fn(MemberView) -> bool {
    |m: MemberView| m.id == id
}

/// The model that a batch is frozen with, where it has one.
pub open spec fn batch_model(b: BatchView) -> Option<Seq<char>> {
    match b.authorization.model {
        Some(model) => Some(model),
        None => b.resolved_model,
    }
}

/// Whether the frozen request of a run names the model and size of its batch.
pub open spec fn frozen_options_match(b: BatchView, request: JsonView) -> bool {
    &&& given(text_at(request, "model"@)) is Some
    &&& given(text_at(request, "size"@)) is Some
    &&& given(text_at(request, "model"@)) == given(batch_model(b))
    &&& given(text_at(request, "size"@)) == Some(b.authorization.size)
}

/// The refusal of the parent of a retry, where it is refused: it must have failed for the same
/// page and provider, frozen with the options of the batch.
pub open spec fn parent_refusal(
    b: BatchView,
    m: MemberView,
    parent: ComicVisualPageRun,
    provider: Seq<char>,
) -> Option<Seq<char>> {
    if parent.status@ != "failed"@ {
        Some("VISUAL_BATCH_RETRY_PARENT_NOT_FAILED"@)
    } else if parent.production_page_id@ != m.production_page_id || opt_view(parent.provider_id)
        != Some(provider) || opt_view(parent.provider_id) != Some(b.authorization.provider_id) {
        Some("VISUAL_BATCH_RETRY_PARENT_SCOPE_MISMATCH"@)
    } else if given(batch_model(b)) is None {
        Some("VISUAL_BATCH_RETRY_FROZEN_MODEL_REQUIRED"@)
    } else if !frozen_options_match(b, parent.request_json@) {
        Some("VISUAL_BATCH_RETRY_FROZEN_REQUEST_MISMATCH"@)
    } else if parent.manifest_id@ != m.manifest_id {
        Some("VISUAL_BATCH_RETRY_PARENT_SCOPE_MISMATCH"@)
    } else {
        None
    }
}

/// The member and the parent run of a retry, on a batch that has taken over all outcomes: the
/// named member must be the current one, failed, and still linked to the named run.
pub open spec fn retry_target(
    b: BatchView,
    runs: Seq<ScopedRun>,
    input: ComicVisualBatchMemberRetryInput,
    provider: Seq<char>,
) -> Result<(MemberView, ComicVisualPageRun), Seq<char>> {
    if terminal_refusal(b.status) is Some {
        Err(terminal_refusal(b.status)->0)
    } else {
        match find_first(b.members, member_has_id(input.member_id@)) {
            None => Err("VISUAL_BATCH_RETRY_SCOPE_MISMATCH"@),
            Some(m) => if m.page_run_id is None {
                Err("VISUAL_BATCH_READ_FAILED"@)
            } else if m.production_page_id != input.production_page_id@ {
                Err("VISUAL_BATCH_RETRY_SCOPE_MISMATCH"@)
            } else if m.page_run_id != Some(input.expected_parent_run_id@) {
                Err("VISUAL_BATCH_RETRY_PARENT_CHANGED"@)
            } else if b.status != "failed"@ {
                Err("VISUAL_BATCH_RETRY_STATE_INVALID"@)
            } else if first_open(b.members) is None || first_open(b.members)->0.id != m.id {
                Err("VISUAL_BATCH_RETRY_NOT_CURRENT_MEMBER"@)
            } else if m.status != "failed"@ {
                Err("VISUAL_BATCH_RETRY_MEMBER_NOT_FAILED"@)
            } else {
                match run_by_id(runs, input.expected_parent_run_id@) {
                    None => Err("VISUAL_RUN_UNKNOWN"@),
                    Some(parent) => match parent_refusal(b, m, parent.run, provider) {
                        Some(code) => Err(code),
                        None => Ok((m, parent.run)),
                    },
                }
            },
        }
    }
}

/// Whether a run was made for a page of a manifest.
pub open spec fn is_attempt_at(run: ScopedRun, manifest: Seq<char>, page: Seq<char>) -> bool {
    run.run.manifest_id@ == manifest && run.run.production_page_id@ == page
}

/// The highest attempt number of a page, where it has a run.
pub open spec fn top_attempt(runs: Seq<ScopedRun>, manifest: Seq<char>, page: Seq<char>) -> Option<
    int,
>
    decreases runs.len(),
{
    if runs.len() == 0 {
        None
    } else {
        let before = top_attempt(runs.drop_last(), manifest, page);
        let last = runs.last();
        if is_attempt_at(last, manifest, page) && (before is None || before->0
            < last.run.attempt_no) {
            Some(last.run.attempt_no as int)
        } else {
            before
        }
    }
}

/// The number of the next attempt at a page.
pub open spec fn attempt_after(runs: Seq<ScopedRun>, manifest: Seq<char>, page: Seq<char>) -> int {
    match top_attempt(runs, manifest, page) {
        Some(n) => n + 1,
        None => 1,
    }
}

/// The number of the next attempt at a page, where there is one left.
pub fn next_attempt_no(runs: &Vec<ScopedRun>, manifest: &str, page: &str) -> (r: Option<i64>)
    ensures
        match r {
            Some(n) => n == attempt_after(runs@, manifest@, page@),
            None => attempt_after(runs@, manifest@, page@) > i64::MAX,
        },
{
    let mut top: Option<i64> = None;
    let mut i: usize = 0;
    assert(runs@.take(0) =~= Seq::<ScopedRun>::empty());
    while i < runs.len()
        invariant
            i <= runs.len(),
            top_attempt(runs@.take(i as int), manifest@, page@) == (match top {
                Some(n) => Some(n as int),
                None => None,
            }),
        decreases runs.len() - i,
    {
        proof {
            assert(runs@.take(i + 1).drop_last() =~= runs@.take(i as int));
            assert(runs@.take(i + 1).last() == runs@[i as int]);
        }
        let run = &runs[i].run;
        if same(run.manifest_id.as_str(), manifest) && same(run.production_page_id.as_str(), page) {
            top = match top {
                Some(n) => if n < run.attempt_no {
                    Some(run.attempt_no)
                } else {
                    Some(n)
                },
                None => Some(run.attempt_no),
            };
        }
        i += 1;
    }
    assert(runs@.take(i as int) =~= runs@);
    match top {
        Some(n) => if n < i64::MAX {
            Some(n + 1)
        } else {
            None
        },
        None => Some(1),
    }
}

/// What a member retry does.
#[derive(Debug)]
pub enum RetryStep {
    /// The key was used for the same request: hand out the batch and the child that is still
    /// queued.
    Replay(Option<String>),
    /// Start a child attempt of this number under this model and link it to the member.
    Start {
        member_index: usize,
        start: ComicVisualPageRunStartInput,
        model: String,
        attempt_no: i64,
    },
}

/// The refusal of a member retry before anything is read of the members, where it is refused.
pub open spec fn retry_refusal(
    b: BatchView,
    input: ComicVisualBatchMemberRetryInput,
    image_ready: bool,
    provider: Seq<char>,
    now: i64,
) -> Option<Seq<char>> {
    if b.production_job_id != input.production_job_id@ || b.project_id != input.project_id@
        || b.novel_work_id != input.novel_work_id@ {
        Some("VISUAL_BATCH_RETRY_SCOPE_MISMATCH"@)
    } else if terminal_refusal(b.status) is Some {
        terminal_refusal(b.status)
    } else if lease_held(b, now) {
        Some("VISUAL_BATCH_RETRY_BUSY"@)
    } else if !image_ready || b.authorization.provider_id != provider {
        Some("VISUAL_BATCH_CONFIG_REQUIRED"@)
    } else {
        None
    }
}

/// The refusal of a member retry by its request alone, where it is refused.
pub open spec fn retry_input_refusal(
    b: BatchView,
    input: ComicVisualBatchMemberRetryInput,
    job_id: Seq<char>,
) -> Option<Seq<char>> {
    if is_blank(input.idempotency_key@) {
        Some("IDEMPOTENCY_KEY_REQUIRED"@)
    } else if !input.confirm_possible_charge {
        Some("VISUAL_BATCH_RETRY_CONFIRMATION_REQUIRED"@)
    } else if b.production_job_id != input.production_job_id@ || job_id != b.production_job_id {
        Some("VISUAL_BATCH_RETRY_SCOPE_MISMATCH"@)
    } else {
        None
    }
}

/// The batch on which a command decides: freed of an expired lease, its members linked, the
/// outcomes of their runs taken over.
pub open spec fn brought_up(b: BatchView, runs: Seq<ScopedRun>, now: i64) -> BatchView {
    synced(relinked(unleased(b), runs), runs, now)
}

/// Whether a start makes the child of a retry.
pub open spec fn is_retry_start(
    step: RetryStep,
    b: BatchView,
    m: MemberView,
    parent: ComicVisualPageRun,
    attempt: int,
) -> bool {
    step matches RetryStep::Start { member_index, start, model, attempt_no } && member_index
        < b.members.len() && b.members[member_index as int] == m && Some(model@) == frozen_model(
        parent.request_json@,
    ) && attempt_no == attempt && start_repeats(
        start,
        parent,
        b.project_id,
        b.novel_work_id,
        child_key(m.dispatch_key, ":retry:"@, parent.id@),
    )
}

fn find_member_index(members: &Vec<MemberState>, id: &str) -> (r: Option<usize>)
    ensures
        match r {
            Some(i) => i < members.len() && find_first(members_of(members@), member_has_id(id@))
                == Some(members@[i as int]@),
            None => find_first(members_of(members@), member_has_id(id@)) is None,
        },
{
    let ghost views = members_of(members@);
    let ghost p = member_has_id(id@);
    let mut i: usize = 0;
    while i < members.len()
        invariant
            i <= members.len(),
            views == members_of(members@),
            p == member_has_id(id@),
            forall|j: int| 0 <= j < i ==> !p(#[trigger] views[j]),
        decreases members.len() - i,
    {
        assert(views[i as int] == members@[i as int]@);
        if same(members[i].id.as_str(), id) {
            proof {
                lemma_find_first(views, p, i as int);
            }
            return Some(i);
        }
        i += 1;
    }
    proof {
        lemma_find_first(views, p, i as int);
    }
    None
}

fn batch_model_of(batch: &BatchState) -> (r: Option<String>)
    ensures
        opt_view(r) == batch_model(batch@),
{
    match &batch.authorization.model {
        Some(model) => Some(model.clone()),
        None => copy_opt(&batch.resolved_model),
    }
}

fn given_at(value: &Json, key: &str) -> (r: Option<String>)
    ensures
        opt_view(r) == given(text_at(value@, key@)),
{
    match value.text_at(key) {
        Some(s) => {
            let t = trim(s);
            if t.as_str().is_empty() {
                None
            } else {
                Some(t)
            }
        },
        None => None,
    }
}

fn refuse_parent(
    batch: &BatchState,
    m: &MemberState,
    parent: &ComicVisualPageRun,
    provider: &str,
) -> (r: Option<String>)
    ensures
        opt_view(r) == parent_refusal(batch@, m@, *parent, provider@),
{
    if !same(parent.status.as_str(), "failed") {
        return Some(owned("VISUAL_BATCH_RETRY_PARENT_NOT_FAILED"));
    }
    let scoped = match &parent.provider_id {
        Some(id) => same(id.as_str(), provider) && same(
            id.as_str(),
            batch.authorization.provider_id.as_str(),
        ),
        None => false,
    };
    if !same(parent.production_page_id.as_str(), m.production_page_id.as_str()) || !scoped {
        return Some(owned("VISUAL_BATCH_RETRY_PARENT_SCOPE_MISMATCH"));
    }
    let frozen = match given_text(&batch_model_of(batch)) {
        Some(model) => model,
        None => return Some(owned("VISUAL_BATCH_RETRY_FROZEN_MODEL_REQUIRED")),
    };
    let model = match given_at(&parent.request_json, "model") {
        Some(model) => model,
        None => return Some(owned("VISUAL_BATCH_RETRY_FROZEN_REQUEST_MISMATCH")),
    };
    let size = match given_at(&parent.request_json, "size") {
        Some(size) => size,
        None => return Some(owned("VISUAL_BATCH_RETRY_FROZEN_REQUEST_MISMATCH")),
    };
    if !same(model.as_str(), frozen.as_str()) || !same(
        size.as_str(),
        batch.authorization.size.as_str(),
    ) {
        return Some(owned("VISUAL_BATCH_RETRY_FROZEN_REQUEST_MISMATCH"));
    }
    if !same(parent.manifest_id.as_str(), m.manifest_id.as_str()) {
        return Some(owned("VISUAL_BATCH_RETRY_PARENT_SCOPE_MISMATCH"));
    }
    None
}

fn find_retry_target<'a>(
    batch: &BatchState,
    runs: &'a Vec<ScopedRun>,
    input: &ComicVisualBatchMemberRetryInput,
    provider: &str,
) -> (r: Result<(usize, &'a ScopedRun), String>)
    ensures
        match retry_target(batch@, runs@, *input, provider@) {
            Err(code) => r matches Err(e) && e@ == code,
            Ok(t) => r matches Ok(p) && p.0 < batch.members.len() && batch.members@[p.0 as int]@
                == t.0 && p.1.run == t.1,
        },
{
    match refuse_terminal(batch.status.as_str()) {
        Some(code) => return Err(code),
        None => {},
    }
    let found: Option<usize> = find_member_index(&batch.members, input.member_id.as_str());
    let index: usize = match found {
        Some(index) => index,
        None => return Err(owned("VISUAL_BATCH_RETRY_SCOPE_MISMATCH")),
    };
    let m = &batch.members[index];
    let linked = match &m.page_run_id {
        Some(id) => id,
        None => return Err(owned("VISUAL_BATCH_READ_FAILED")),
    };
    if !same(m.production_page_id.as_str(), input.production_page_id.as_str()) {
        return Err(owned("VISUAL_BATCH_RETRY_SCOPE_MISMATCH"));
    }
    if !same(linked.as_str(), input.expected_parent_run_id.as_str()) {
        return Err(owned("VISUAL_BATCH_RETRY_PARENT_CHANGED"));
    }
    if !same(batch.status.as_str(), "failed") {
        return Err(owned("VISUAL_BATCH_RETRY_STATE_INVALID"));
    }
    let open: Option<usize> = first_open_index(&batch.members);
    let current = match open {
        Some(i) => same(batch.members[i].id.as_str(), m.id.as_str()),
        None => false,
    };
    if !current {
        return Err(owned("VISUAL_BATCH_RETRY_NOT_CURRENT_MEMBER"));
    }
    if !same(m.status.as_str(), "failed") {
        return Err(owned("VISUAL_BATCH_RETRY_MEMBER_NOT_FAILED"));
    }
    let parent = match find_run(runs, input.expected_parent_run_id.as_str()) {
        Some(parent) => parent,
        None => return Err(owned("VISUAL_RUN_UNKNOWN")),
    };
    match refuse_parent(batch, m, &parent.run, provider) {
        Some(code) => Err(code),
        None => Ok((index, parent)),
    }
}

/// What a member retry comes to.
pub enum RetryAnswer {
    /// The key was used for the same request; the child that is still queued, if any.
    Replay(Option<Seq<char>>),
    /// A child attempt of this number of this member's failed run.
    Start(MemberView, ComicVisualPageRun, int),
}

/// What a member retry comes to on a batch that has taken over all outcomes.
pub open spec fn retry_choice(
    b: BatchView,
    runs: Seq<ScopedRun>,
    input: ComicVisualBatchMemberRetryInput,
    provider: Seq<char>,
) -> Result<RetryAnswer, Seq<char>> {
    match retry_target(b, runs, input, provider) {
        Err(code) => Err(code),
        Ok(t) => {
            let attempt = attempt_after(runs, t.1.manifest_id@, t.1.production_page_id@);
            if attempt > i64::MAX {
                Err("VISUAL_RUN_READ_FAILED"@)
            } else {
                match retry_request(t.1) {
                    Err(code) => Err(code),
                    Ok(_) => Ok(RetryAnswer::Start(t.0, t.1, attempt)),
                }
            }
        },
    }
}

/// What a member retry comes to: a used key is replayed for the same request and refused for
/// another one; a new key starts a child attempt where the failed page may be retried.
pub open spec fn retry_answer(
    b: BatchView,
    runs: Seq<ScopedRun>,
    input: ComicVisualBatchMemberRetryInput,
    job_id: Seq<char>,
    request_hash: Seq<char>,
    receipt: Option<(Seq<char>, Seq<char>)>,
    image_ready: bool,
    provider: Seq<char>,
    now: i64,
) -> Result<RetryAnswer, Seq<char>> {
    if retry_input_refusal(b, input, job_id) is Some {
        Err(retry_input_refusal(b, input, job_id)->0)
    } else if receipt is Some {
        if receipt != Some((request_hash, input.batch_id@)) {
            Err("IDEMPOTENCY_MISMATCH"@)
        } else {
            Ok(
                RetryAnswer::Replay(
                    queued_retry(b, runs, input.member_id@, input.expected_parent_run_id@),
                ),
            )
        }
    } else if retry_refusal(b, input, image_ready, provider, now) is Some {
        Err(retry_refusal(b, input, image_ready, provider, now)->0)
    } else if !outcomes_known(relinked(unleased(b), runs), runs) {
        Err("VISUAL_BATCH_RUN_STATUS_INVALID"@)
    } else {
        retry_choice(brought_up(b, runs, now), runs, input, provider)
    }
}

/// Decides a member retry. `job_id` is the job that the scope of the request names, and
/// `receipt` what the idempotency key was used for. A refused retry leaves the batch as it
/// was; where a child is to be started, the batch has taken over all outcomes.
pub fn retry_member_inner(
    batch: &mut BatchState,
    runs: &Vec<ScopedRun>,
    input: &ComicVisualBatchMemberRetryInput,
    job_id: &str,
    request_hash: &str,
    receipt: Option<CommandReceipt>,
    image_ready: bool,
    active_provider: &str,
    now: i64,
) -> (r: Result<RetryStep, String>)
    requires
        old(batch).members.len() <= i64::MAX,
    ensures
        match retry_answer(
            old(batch)@,
            runs@,
            *input,
            job_id@,
            request_hash@,
            opt_view(receipt),
            image_ready,
            active_provider@,
            now,
        ) {
            Err(code) => r matches Err(e) && e@ == code && final(batch)@ == old(batch)@,
            Ok(RetryAnswer::Replay(queued)) => r matches Ok(RetryStep::Replay(child)) && opt_view(
                child,
            ) == queued && final(batch)@ == old(batch)@,
            Ok(RetryAnswer::Start(m, parent, attempt)) => r matches Ok(step) && is_retry_start(
                step,
                final(batch)@,
                m,
                parent,
                attempt,
            ) && final(batch)@ == brought_up(old(batch)@, runs@, now),
        },
{
    if blank(input.idempotency_key.as_str()) {
        return Err(owned("IDEMPOTENCY_KEY_REQUIRED"));
    }
    if !input.confirm_possible_charge {
        return Err(owned("VISUAL_BATCH_RETRY_CONFIRMATION_REQUIRED"));
    }
    if !same(batch.production_job_id.as_str(), input.production_job_id.as_str()) || !same(
        job_id,
        batch.production_job_id.as_str(),
    ) {
        return Err(owned("VISUAL_BATCH_RETRY_SCOPE_MISMATCH"));
    }
    match receipt {
        Some(receipt) => {
            if !same(receipt.request_hash.as_str(), request_hash) || !same(
                receipt.batch_id.as_str(),
                input.batch_id.as_str(),
            ) {
                return Err(owned("IDEMPOTENCY_MISMATCH"));
            }
            return Ok(
                RetryStep::Replay(
                    queued_retried_child(
                        batch,
                        runs,
                        input.member_id.as_str(),
                        input.expected_parent_run_id.as_str(),
                    ),
                ),
            );
        },
        None => {},
    }
    if !same(batch.project_id.as_str(), input.project_id.as_str()) || !same(
        batch.novel_work_id.as_str(),
        input.novel_work_id.as_str(),
    ) {
        return Err(owned("VISUAL_BATCH_RETRY_SCOPE_MISMATCH"));
    }
    match refuse_terminal(batch.status.as_str()) {
        Some(code) => return Err(code),
        None => {},
    }
    let mut work = batch.copy();
    match ensure_member_retry_lease_available(&mut work, now) {
        Ok(_) => {},
        Err(e) => return Err(e),
    }
    if !image_ready || !same(work.authorization.provider_id.as_str(), active_provider) {
        return Err(owned("VISUAL_BATCH_CONFIG_REQUIRED"));
    }
    reconcile_unlinked_members(&mut work, runs);
    assert(work@.members.len() == batch@.members.len());
    assert(work.members.len() == work@.members.len());
    match sync_member_outcomes(&mut work, runs, now) {
        Ok(_) => {},
        Err(e) => return Err(e),
    }
    let (index, parent) = match find_retry_target(&work, runs, input, active_provider) {
        Ok(p) => p,
        Err(e) => return Err(e),
    };
    let next: Option<i64> = next_attempt_no(
        runs,
        parent.run.manifest_id.as_str(),
        parent.run.production_page_id.as_str(),
    );
    let attempt_no: i64 = match next {
        Some(n) => n,
        None => return Err(owned("VISUAL_RUN_READ_FAILED")),
    };
    let key = concat3(
        work.members[index].dispatch_key.as_str(),
        ":retry:",
        parent.run.id.as_str(),
    );
    let child = retry_failed_child(
        &parent.run,
        work.project_id.as_str(),
        work.novel_work_id.as_str(),
        key.as_str(),
        active_provider,
    );
    match child {
        Ok(p) => {
            *batch = work;
            Ok(RetryStep::Start { member_index: index, start: p.0, model: p.1, attempt_no })
        },
        Err(e) => Err(e),
    }
}

/// Whether a member can be handed from a failed parent to its child.
pub open spec fn retry_link_refusal(
    b: BatchView,
    index: int,
    parent: Seq<char>,
    child_status: Seq<char>,
) -> Option<Seq<char>> {
    if child_status != "queued"@ {
        Some("VISUAL_BATCH_RETRY_CHILD_STATE_INVALID"@)
    } else if b.members[index].page_run_id != Some(parent) || b.members[index].status != "failed"@ {
        Some("VISUAL_BATCH_RETRY_PARENT_CHANGED"@)
    } else if b.status != "failed"@ {
        Some("VISUAL_BATCH_RETRY_STATE_INVALID"@)
    } else {
        None
    }
}

/// A member that waits on a queued child.
pub open spec fn handed_over(m: MemberView, child: Seq<char>) -> MemberView {
    MemberView { page_run_id: Some(child), status: "queued"@, finished_at: None, ..m }
}

/// A batch whose failed member waits on a queued child.
pub open spec fn retry_linked(b: BatchView, index: int, child: Seq<char>) -> BatchView {
    BatchView {
        status: "running"@,
        safe_error_code: None,
        safe_user_message: None,
        finished_at: None,
        members: b.members.update(index, handed_over(b.members[index], child)),
        ..b
    }
}

/// Hands a member from its failed parent to the queued child and sets the batch running again.
pub fn link_retried_child(
    batch: &mut BatchState,
    member_index: usize,
    parent_id: &str,
    child_id: &str,
    child_status: &str,
) -> (r: Result<(), String>)
    requires
        member_index < old(batch).members.len(),
    ensures
        match retry_link_refusal(
            old(batch)@,
            member_index as int,
            parent_id@,
            child_status@,
        ) {
            Some(code) => r matches Err(e) && e@ == code && final(batch)@ == old(batch)@,
            None => r is Ok && final(batch)@ == retry_linked(
                old(batch)@,
                member_index as int,
                child_id@,
            ),
        },
{
    if !same(child_status, "queued") {
        return Err(owned("VISUAL_BATCH_RETRY_CHILD_STATE_INVALID"));
    }
    let mut m = batch.members[member_index].copy();
    let linked = match &m.page_run_id {
        Some(id) => same(id.as_str(), parent_id),
        None => false,
    };
    if !linked || !same(m.status.as_str(), "failed") {
        return Err(owned("VISUAL_BATCH_RETRY_PARENT_CHANGED"));
    }
    if !same(batch.status.as_str(), "failed") {
        return Err(owned("VISUAL_BATCH_RETRY_STATE_INVALID"));
    }
    m.page_run_id = Some(owned(child_id));
    m.status = owned("queued");
    m.finished_at = None;
    let ghost before = batch@.members;
    batch.members.set(member_index, m);
    assert(batch@.members =~= before.update(member_index as int, m@));
    batch.status = owned("running");
    batch.safe_error_code = None;
    batch.safe_user_message = None;
    batch.finished_at = None;
    Ok(())
}

// ---------------------------------------------------------------------------
// Resuming a batch
// ---------------------------------------------------------------------------

/// What the request hash of a resume is taken of.
pub open spec fn resume_identity_value(batch_id: Seq<char>) -> JsonView {
    JsonView::Obj(
        no_members()
            .push(("batchId"@, JsonView::Str(batch_id)))
            .push(("action"@, JsonView::Str("resume"@))),
    )
}

/// What the request hash of a resume is taken of.
pub fn resume_identity(batch_id: &str) -> (r: Json)
    ensures
        r@ == resume_identity_value(batch_id@),
{
    fields().text("batchId", batch_id).text("action", "resume").object()
}

/// What is to be done with the first open member of a resumed batch.
pub enum OpenMember {
    /// Its run is queued.
    Queued(Seq<char>),
    /// Its run is under way.
    Running,
    /// There is no such member, or it has no run.
    Unlinked,
    /// Its run waited for a configuration: a child attempt is to be started.
    Blocked(MemberView, ComicVisualPageRun),
}

/// What is to be done with the first open member of a resumed batch: only a run that waited
/// for a configuration is started again; an unknown outcome stops the resume.
pub open spec fn open_member(b: BatchView, runs: Seq<ScopedRun>) -> Result<OpenMember, Seq<char>> {
    match first_open(b.members) {
        None => Ok(OpenMember::Unlinked),
        Some(m) => match m.page_run_id {
            None => Ok(OpenMember::Unlinked),
            Some(id) => match run_by_id(runs, id) {
                None => Err("VISUAL_RUN_UNKNOWN"@),
                Some(r) => {
                    let parent = r.run;
                    if parent.manifest_id@ != m.manifest_id || parent.production_page_id@
                        != m.production_page_id {
                        Err("VISUAL_BATCH_CONFIG_PARENT_SCOPE_MISMATCH"@)
                    } else if parent.status@ == "queued"@ {
                        Ok(OpenMember::Queued(parent.id@))
                    } else if parent.status@ == "running"@ {
                        Ok(OpenMember::Running)
                    } else if parent.status@ == "needs_reconcile"@ {
                        Err("VISUAL_BATCH_RECONCILE_REQUIRED"@)
                    } else if parent.status@ == "blocked_config"@ {
                        Ok(OpenMember::Blocked(m, parent))
                    } else {
                        Err("VISUAL_BATCH_CONFIG_RESUME_STATE_INVALID"@)
                    }
                },
            },
        },
    }
}

/// The refusal of the parent of a resume, where it is refused: something of it may have been
/// submitted, or there is no attempt left to make.
pub open spec fn blocked_parent_refusal(
    parent: ComicVisualPageRun,
    next_attempt: int,
) -> Option<Seq<char>> {
    if parent.attempt_no != 0 {
        Some("VISUAL_CONFIG_RESUME_PARENT_INVALID"@)
    } else if !crate::comic_visual_render::never_submitted(parent) {
        Some("VISUAL_CONFIG_RESUME_RECONCILE_REQUIRED"@)
    } else if next_attempt > i64::MAX {
        Some("VISUAL_RUN_READ_FAILED"@)
    } else if next_attempt <= 0 {
        Some("VISUAL_CONFIG_RESUME_ATTEMPT_INVALID"@)
    } else {
        match retry_request(parent) {
            Err(code) => Some(code),
            Ok(_) => None,
        }
    }
}

/// What a resume does.
#[derive(Debug)]
pub enum ResumeStep {
    /// The key was used for the same batch: hand out the batch and the child that is still
    /// queued.
    Replay(Option<String>),
    /// The current page has a queued run: dispatch it.
    Queued(String),
    /// The current page is being rendered: drive the batch.
    Running,
    /// Nothing is linked: drive the batch.
    Idle,
    /// Start an attempt of this number at the current page under this model and link it.
    Start {
        member_index: usize,
        start: ComicVisualPageRunStartInput,
        model: String,
        attempt_no: i64,
    },
}

/// The model of a resume: the frozen one, else the configured one.
pub open spec fn resume_model(b: BatchView, configured: Seq<char>) -> Option<Seq<char>> {
    match batch_model(b) {
        Some(model) => Some(model),
        None => if configured.len() == 0 {
            None
        } else {
            Some(configured)
        },
    }
}

/// The refusal of a resume before anything is read of the members, where it is refused.
pub open spec fn resume_refusal(
    b: BatchView,
    image_ready: bool,
    configured: Seq<char>,
    provider: Seq<char>,
    now: i64,
) -> Option<Seq<char>> {
    if lease_held(b, now) {
        Some("VISUAL_BATCH_RESUME_BUSY"@)
    } else if !image_ready || b.authorization.provider_id != provider || resume_model(
        b,
        configured,
    ) is None {
        Some("VISUAL_BATCH_CONFIG_REQUIRED"@)
    } else {
        None
    }
}

/// A batch whose model is resolved: only one that was frozen without a model takes one over.
pub open spec fn model_resolved(b: BatchView, configured: Seq<char>) -> BatchView {
    if batch_model(b) is None {
        BatchView { resolved_model: Some(configured), ..b }
    } else {
        b
    }
}

/// The batch on which a resume decides.
pub open spec fn resume_basis(
    b: BatchView,
    runs: Seq<ScopedRun>,
    configured: Seq<char>,
    now: i64,
) -> BatchView {
    synced(relinked(model_resolved(unleased(b), configured), runs), runs, now)
}

/// A batch that runs again.
pub open spec fn set_running(b: BatchView) -> BatchView {
    BatchView { status: "running"@, safe_error_code: None, safe_user_message: None, ..b }
}

/// A batch that is authorized again, where it waited for a configuration.
pub open spec fn set_authorized(b: BatchView) -> BatchView {
    if b.status == "blocked_config"@ {
        BatchView { status: "authorized"@, safe_error_code: None, safe_user_message: None, ..b }
    } else {
        b
    }
}

/// What a resume comes to.
pub enum ResumeAnswer {
    /// The key was used for the same batch; the child that is still queued, if any.
    Replay(Option<Seq<char>>),
    /// The current page has this queued run.
    Queued(Seq<char>),
    /// The current page is being rendered.
    Running,
    /// Nothing is linked.
    Idle,
    /// An attempt of this number after this member's blocked run.
    Start(MemberView, ComicVisualPageRun, int),
}

/// What a resume comes to on a batch that has taken over all outcomes.
pub open spec fn resume_choice(b: BatchView, runs: Seq<ScopedRun>) -> Result<
    ResumeAnswer,
    Seq<char>,
> {
    if terminal_refusal(b.status) is Some {
        Err(terminal_refusal(b.status)->0)
    } else {
        match open_member(b, runs) {
            Err(code) => Err(code),
            Ok(OpenMember::Queued(id)) => Ok(ResumeAnswer::Queued(id)),
            Ok(OpenMember::Running) => Ok(ResumeAnswer::Running),
            Ok(OpenMember::Unlinked) => Ok(ResumeAnswer::Idle),
            Ok(OpenMember::Blocked(m, parent)) => {
                let attempt = attempt_after(runs, parent.manifest_id@, parent.production_page_id@);
                match blocked_parent_refusal(parent, attempt) {
                    Some(code) => Err(code),
                    None => Ok(ResumeAnswer::Start(m, parent, attempt)),
                }
            },
        }
    }
}

/// What a resume comes to: a used key is replayed for the same batch and refused for another
/// one; a new key goes by the first open member.
pub open spec fn resume_answer(
    b: BatchView,
    runs: Seq<ScopedRun>,
    resume_hash: Seq<char>,
    receipt: Option<(Seq<char>, Seq<char>)>,
    image_ready: bool,
    configured: Seq<char>,
    provider: Seq<char>,
    now: i64,
) -> Result<ResumeAnswer, Seq<char>> {
    if receipt is Some {
        if receipt != Some((resume_hash, b.id)) {
            Err("IDEMPOTENCY_MISMATCH"@)
        } else {
            Ok(ResumeAnswer::Replay(queued_resume(b, runs)))
        }
    } else if resume_refusal(b, image_ready, configured, provider, now) is Some {
        Err(resume_refusal(b, image_ready, configured, provider, now)->0)
    } else if !outcomes_known(relinked(model_resolved(unleased(b), configured), runs), runs) {
        Err("VISUAL_BATCH_RUN_STATUS_INVALID"@)
    } else {
        resume_choice(resume_basis(b, runs, configured, now), runs)
    }
}

/// The batch that a resume leaves, of the one on which it decided.
pub open spec fn resumed(basis: BatchView, answer: ResumeAnswer) -> BatchView {
    match answer {
        ResumeAnswer::Queued(_) => set_running(basis),
        ResumeAnswer::Running => set_running(basis),
        ResumeAnswer::Idle => set_authorized(basis),
        _ => basis,
    }
}

/// Whether a step is the one that a resume comes to.
pub open spec fn is_resume_step(
    step: ResumeStep,
    b: BatchView,
    answer: ResumeAnswer,
    chosen: Seq<char>,
) -> bool {
    match answer {
        ResumeAnswer::Replay(queued) => step matches ResumeStep::Replay(child) && opt_view(child)
            == queued,
        ResumeAnswer::Queued(id) => step matches ResumeStep::Queued(run) && run@ == id,
        ResumeAnswer::Running => step is Running,
        ResumeAnswer::Idle => step is Idle,
        ResumeAnswer::Start(m, parent, attempt) => step matches ResumeStep::Start {
            member_index,
            start,
            model,
            attempt_no,
        } && member_index < b.members.len() && b.members[member_index as int] == m && model@
            == chosen && attempt_no == attempt && start_repeats(
            start,
            parent,
            b.project_id,
            b.novel_work_id,
            child_key(m.dispatch_key, ":config-resume:"@, parent.id@),
        ),
    }
}

fn resume_open_member(batch: &mut BatchState, runs: &Vec<ScopedRun>, model: &str) -> (r: Result<
    ResumeStep,
    String,
>)
    ensures
        match resume_choice(old(batch)@, runs@) {
            Err(code) => r matches Err(e) && e@ == code,
            Ok(answer) => r matches Ok(step) && final(batch)@ == resumed(old(batch)@, answer)
                && is_resume_step(step, old(batch)@, answer, model@),
        },
{
    match refuse_terminal(batch.status.as_str()) {
        Some(code) => return Err(code),
        None => {},
    }
    let open: Option<usize> = first_open_index(&batch.members);
    let index: usize = match open {
        Some(i) => i,
        None => {
            authorize_again(batch);
            return Ok(ResumeStep::Idle);
        },
    };
    let m = batch.members[index].copy();
    let id = match &m.page_run_id {
        Some(id) => id.clone(),
        None => {
            authorize_again(batch);
            return Ok(ResumeStep::Idle);
        },
    };
    let parent = match find_run(runs, id.as_str()) {
        Some(run) => &run.run,
        None => return Err(owned("VISUAL_RUN_UNKNOWN")),
    };
    if !same(parent.manifest_id.as_str(), m.manifest_id.as_str()) || !same(
        parent.production_page_id.as_str(),
        m.production_page_id.as_str(),
    ) {
        return Err(owned("VISUAL_BATCH_CONFIG_PARENT_SCOPE_MISMATCH"));
    }
    let status = parent.status.as_str();
    if same(status, "queued") {
        run_again(batch);
        return Ok(ResumeStep::Queued(parent.id.clone()));
    }
    if same(status, "running") {
        run_again(batch);
        return Ok(ResumeStep::Running);
    }
    if same(status, "needs_reconcile") {
        return Err(owned("VISUAL_BATCH_RECONCILE_REQUIRED"));
    }
    if !same(status, "blocked_config") {
        return Err(owned("VISUAL_BATCH_CONFIG_RESUME_STATE_INVALID"));
    }
    if parent.attempt_no != 0 {
        return Err(owned("VISUAL_CONFIG_RESUME_PARENT_INVALID"));
    }
    if parent.submitted_at.is_some() || parent.provider_request_id.is_some()
        || parent.asset_id.is_some() {
        return Err(owned("VISUAL_CONFIG_RESUME_RECONCILE_REQUIRED"));
    }
    let next: Option<i64> = next_attempt_no(
        runs,
        parent.manifest_id.as_str(),
        parent.production_page_id.as_str(),
    );
    let attempt_no: i64 = match next {
        Some(n) => n,
        None => return Err(owned("VISUAL_RUN_READ_FAILED")),
    };
    let key = concat3(m.dispatch_key.as_str(), ":config-resume:", parent.id.as_str());
    match resume_blocked_config_child(
        parent,
        batch.project_id.as_str(),
        batch.novel_work_id.as_str(),
        key.as_str(),
        attempt_no,
    ) {
        Ok(start) => Ok(
            ResumeStep::Start { member_index: index, start, model: owned(model), attempt_no },
        ),
        Err(e) => Err(e),
    }
}

fn run_again(batch: &mut BatchState)
    ensures
        final(batch)@ == set_running(old(batch)@),
{
    batch.status = owned("running");
    batch.safe_error_code = None;
    batch.safe_user_message = None;
}

fn authorize_again(batch: &mut BatchState)
    ensures
        final(batch)@ == set_authorized(old(batch)@),
{
    if same(batch.status.as_str(), "blocked_config") {
        batch.status = owned("authorized");
        batch.safe_error_code = None;
        batch.safe_user_message = None;
    }
}

/// Decides a resume. `receipt` is what the idempotency key was used for. A refused or replayed
/// resume leaves the batch as it was.
pub fn resume_batch_inner(
    batch: &mut BatchState,
    runs: &Vec<ScopedRun>,
    resume_hash: &str,
    receipt: Option<CommandReceipt>,
    image_ready: bool,
    configured_model: &str,
    active_provider: &str,
    now: i64,
) -> (r: Result<ResumeStep, String>)
    requires
        old(batch).members.len() <= i64::MAX,
    ensures
        match resume_answer(
            old(batch)@,
            runs@,
            resume_hash@,
            opt_view(receipt),
            image_ready,
            configured_model@,
            active_provider@,
            now,
        ) {
            Err(code) => r matches Err(e) && e@ == code && final(batch)@ == old(batch)@,
            Ok(ResumeAnswer::Replay(queued)) => r matches Ok(ResumeStep::Replay(child)) && opt_view(
                child,
            ) == queued && final(batch)@ == old(batch)@,
            Ok(answer) => {
                let basis = resume_basis(old(batch)@, runs@, configured_model@, now);
                r matches Ok(step) && final(batch)@ == resumed(basis, answer) && is_resume_step(
                    step,
                    basis,
                    answer,
                    resume_model(old(batch)@, configured_model@)->0,
                )
            },
        },
{
    match receipt {
        Some(receipt) => {
            if !same(receipt.request_hash.as_str(), resume_hash) || !same(
                receipt.batch_id.as_str(),
                batch.id.as_str(),
            ) {
                return Err(owned("IDEMPOTENCY_MISMATCH"));
            }
            return Ok(ResumeStep::Replay(queued_resumed_child(batch, runs)));
        },
        None => {},
    }
    let mut work = batch.copy();
    match ensure_resume_lease_available(&mut work, now) {
        Ok(_) => {},
        Err(e) => return Err(e),
    }
    if !image_ready || !same(work.authorization.provider_id.as_str(), active_provider) {
        return Err(owned("VISUAL_BATCH_CONFIG_REQUIRED"));
    }
    let model = match batch_model_of(&work) {
        Some(model) => model,
        None => {
            if configured_model.is_empty() {
                return Err(owned("VISUAL_BATCH_CONFIG_REQUIRED"));
            }
            work.resolved_model = Some(owned(configured_model));
            owned(configured_model)
        },
    };
    reconcile_unlinked_members(&mut work, runs);
    assert(work@.members.len() == batch@.members.len());
    assert(work.members.len() == work@.members.len());
    match sync_member_outcomes(&mut work, runs, now) {
        Ok(_) => {},
        Err(e) => return Err(e),
    }
    match resume_open_member(&mut work, runs, model.as_str()) {
        Ok(step) => {
            *batch = work;
            Ok(step)
        },
        Err(e) => Err(e),
    }
}

/// A batch whose blocked member waits on a queued child.
pub open spec fn resume_linked(b: BatchView, index: int, child: Seq<char>) -> BatchView {
    BatchView {
        members: b.members.update(index, handed_over(b.members[index], child)),
        ..set_running(b)
    }
}

/// Hands a member from the run that waited for a configuration to the queued child, and sets
/// the batch running.
pub fn link_resumed_child(
    batch: &mut BatchState,
    member_index: usize,
    parent_id: &str,
    child_id: &str,
    child_status: &str,
) -> (r: Result<(), String>)
    requires
        member_index < old(batch).members.len(),
    ensures
        if child_status@ != "queued"@ {
            r matches Err(e) && e@ == "VISUAL_BATCH_CONFIG_RESUME_CHILD_STATE_INVALID"@
                && final(batch)@ == old(batch)@
        } else if old(batch)@.members[member_index as int].page_run_id == Some(parent_id@) {
            r is Ok && final(batch)@ == resume_linked(old(batch)@, member_index as int, child_id@)
        } else if old(batch)@.members[member_index as int].page_run_id == Some(child_id@) {
            r is Ok && final(batch)@ == set_running(old(batch)@)
        } else {
            r matches Err(e) && e@ == "VISUAL_BATCH_CONFIG_MEMBER_LINK_CONFLICT"@ && final(batch)@
                == old(batch)@
        },
{
    if !same(child_status, "queued") {
        return Err(owned("VISUAL_BATCH_CONFIG_RESUME_CHILD_STATE_INVALID"));
    }
    let mut m = batch.members[member_index].copy();
    let (linked, already) = match &m.page_run_id {
        Some(id) => (same(id.as_str(), parent_id), same(id.as_str(), child_id)),
        None => (false, false),
    };
    if linked {
        m.page_run_id = Some(owned(child_id));
        m.status = owned("queued");
        m.finished_at = None;
        let ghost before = batch@.members;
        batch.members.set(member_index, m);
        assert(batch@.members =~= before.update(member_index as int, m@));
        run_again(batch);
        Ok(())
    } else if already {
        run_again(batch);
        Ok(())
    } else {
        Err(owned("VISUAL_BATCH_CONFIG_MEMBER_LINK_CONFLICT"))
    }
}

// ---------------------------------------------------------------------------
// Laws of outcomes
// ---------------------------------------------------------------------------

/// A batch that has stopped for good is not moved by later outcomes: neither an old failure
/// nor a local pause makes it ordinary or resumable again.
pub proof fn stopped_batch_stays_stopped(b: BatchView, runs: Seq<ScopedRun>, k: int, now: i64)
    requires
        is_terminal(b.status),
        0 <= k <= b.members.len(),
    ensures
        synced_upto(b, runs, k, now).status == b.status,
        synced_upto(b, runs, k, now).safe_error_code == b.safe_error_code,
        synced_upto(b, runs, k, now).finished_at == b.finished_at,
    decreases k,
{
    if k > 0 {
        stopped_batch_stays_stopped(b, runs, k - 1, now);
    }
}

/// An unknown outcome of any page stops the batch, unless it has stopped already, whatever
/// the other pages did.
pub proof fn unknown_outcome_stops_the_batch(
    b: BatchView,
    runs: Seq<ScopedRun>,
    i: int,
    k: int,
    now: i64,
)
    requires
        0 <= i < k <= b.members.len(),
        run_status(b.members[i], runs) == Some("needs_reconcile"@),
    ensures
        is_terminal(synced_upto(b, runs, k, now).status),
    decreases k,
{
    if i < k - 1 {
        unknown_outcome_stops_the_batch(b, runs, i, k - 1, now);
    }
}

/// A batch that has stopped for good refuses every new resume and member retry; where nothing
/// else speaks against the command, it is told why the batch stopped.
pub proof fn stopped_batch_refuses_commands(
    b: BatchView,
    runs: Seq<ScopedRun>,
    input: ComicVisualBatchMemberRetryInput,
    job_id: Seq<char>,
    request_hash: Seq<char>,
    image_ready: bool,
    configured: Seq<char>,
    provider: Seq<char>,
    now: i64,
)
    requires
        is_terminal(b.status),
    ensures
        ({
            let retried = retry_answer(
                b,
                runs,
                input,
                job_id,
                request_hash,
                None,
                image_ready,
                provider,
                now,
            );
            let resumed = resume_answer(
                b,
                runs,
                request_hash,
                None,
                image_ready,
                configured,
                provider,
                now,
            );
            let code = terminal_refusal(b.status)->0;
            &&& retried is Err
            &&& retry_input_refusal(b, input, job_id) is None && b.project_id == input.project_id@
                && b.novel_work_id == input.novel_work_id@ ==> retried == Err::<RetryAnswer, _>(code)
            &&& resumed is Err
            &&& resume_refusal(b, image_ready, configured, provider, now) is None
                && outcomes_known(relinked(model_resolved(unleased(b), configured), runs), runs)
                ==> resumed == Err::<ResumeAnswer, _>(code)
        }),
{
    let x = relinked(model_resolved(unleased(b), configured), runs);
    stopped_batch_stays_stopped(x, runs, x.members.len() as int, now);
}

} // verus!
