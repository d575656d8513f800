use image_client::comic_page_compiler::COMPILER_CONTRACT;
use image_client::comic_visual::ComicVisualManifest;
use image_client::comic_visual_batch::{
    authorize_intent, authorize_step, claim_batch, first_open_index, freeze_authorization, get_by_id,
    insert_batch_step, lease_expired_failure, link_resumed_child, link_retried_child,
    new_batch, new_job_intent, next_attempt_no, order_members, queued_retried_child, reconcile_linked_run_lease, reconcile_unlinked_members,
    record_driver_error, release_batch_claim, resume_batch_inner, resume_identity,
    retry_member_identity, retry_member_inner, set_batch_status, sync_member_outcomes,
    wake_delay_ms, BatchState, ComicVisualBatchMemberRetryInput, CommandReceipt,
    FrozenAuthorization, LinkedRunRecoveryDecision, NovelProductionVisualAuthorizeInput,
    ProductionJob, ResumeStep, RetryStep,
    ScopedRun, StoredBatch, VisualImageOptionsInput, VisualOutputInput,
};
use image_client::comic_visual_batch_driver::{
    add_chapter, drive_batch, install_members, link_member_run, next_page_member,
    ordered_chapters_from_receipt, pause_for_config, prepare_scope, read_chapter_pages,
    start_action, ChapterMapRow, DriveAction, DriveEvent, Preparation,
};
use image_client::comic_visual_render::ComicVisualPageRun;
use image_client::json::Json;

const PROVIDER: &str = "visual-test-provider";

fn json(text: &str) -> Json {
    Json::from_text(text).unwrap()
}

fn authorization(model: Option<&str>) -> FrozenAuthorization {
    FrozenAuthorization {
        target: "comic_pages".into(),
        provider_id: PROVIDER.into(),
        model: model.map(|m| m.to_string()),
        size: "1024x1536".into(),
    }
}

fn batch() -> BatchState {
    BatchState {
        id: "batch".into(),
        project_id: "project".into(),
        novel_work_id: "work".into(),
        novel_chapter_id: "chapter".into(),
        source_revision_id: "source".into(),
        production_job_id: "job".into(),
        comic_adaptation_id: None,
        apply_operation_id: None,
        output_target: "comic_pages".into(),
        authorization: authorization(Some("visual-test-model")),
        resolved_model: None,
        status: "authorized".into(),
        total_members: 0,
        completed_members: 0,
        current_member_ordinal: None,
        lease_owner: None,
        lease_expires_at: None,
        safe_error_code: None,
        safe_user_message: None,
        created_at: 1,
        updated_at: 1,
        finished_at: None,
        members: Vec::new(),
    }
}

fn job(status: &str) -> ProductionJob {
    ProductionJob {
        id: "job".into(),
        project_id: "project".into(),
        novel_work_id: "work".into(),
        novel_chapter_id: "chapter".into(),
        source_revision_id: "source".into(),
        status: status.into(),
        default_adaptation_id: Some("adaptation".into()),
        apply_operation_id: Some("operation".into()),
    }
}

fn manifest(freshness: &str) -> ComicVisualManifest {
    ComicVisualManifest {
        id: "manifest".into(),
        contract_version: "comic-visual.v1".into(),
        project_id: "project".into(),
        novel_work_id: "work".into(),
        comic_adaptation_id: "adaptation".into(),
        apply_operation_id: "operation".into(),
        production_chapter_id: "production-chapter".into(),
        page_panel_plan_revision_id: "revision".into(),
        freshness: freshness.into(),
        manifest_fingerprint: "fingerprint".into(),
        created_at: 1,
        manifest: json(
            r#"{"pages":[{"productionPageId":"page-2","pageNo":2,"stableKey":"k2"},
                {"productionPageId":"page-1","pageNo":1,"stableKey":"k1"}]}"#,
        ),
    }
}

/// A batch of two pages that is ready to start.
fn two_pages() -> BatchState {
    let mut batch = batch();
    let mut pending = Vec::new();
    assert!(prepare_scope(&mut batch, &job("succeeded"), 5).is_some());
    assert!(add_chapter(&mut batch, &mut pending, "production-chapter", &manifest("ready"), 5)
        .unwrap());
    install_members(&mut batch, &pending, &vec!["m1".into(), "m2".into()], 5);
    batch
}

fn run(id: &str, page: i64, status: &str) -> ComicVisualPageRun {
    ComicVisualPageRun {
        id: id.into(),
        manifest_id: "manifest".into(),
        production_page_id: format!("page-{page}"),
        manifest_fingerprint: "fingerprint".into(),
        page_stable_key: format!("k{page}"),
        page_no: page,
        compiler_contract_version: COMPILER_CONTRACT.into(),
        request_json: json(&format!(
            r#"{{"schemaVersion":"{COMPILER_CONTRACT}","manifestFingerprint":"fingerprint","productionPageId":"page-{page}","model":"visual-test-model","size":"1024x1536"}}"#
        )),
        reference_snapshot_json: json("{}"),
        provider_id: Some(PROVIDER.into()),
        provider_request_id: None,
        asset_id: None,
        status: status.into(),
        attempt_no: 1,
        parent_run_id: None,
        generation_attempt_id: "attempt".into(),
        owner_app_session_id: None,
        submitted_at: None,
        heartbeat_at: None,
        lease_expires_at: None,
        failure_json: None,
        created_at: 1,
        finished_at: None,
    }
}

fn scoped(key: &str, run: ComicVisualPageRun) -> ScopedRun {
    ScopedRun { idempotency_key: key.into(), run }
}

#[test]
fn authorizations_are_frozen() {
    let output = |target: &str, model: Option<&str>, size: Option<&str>| VisualOutputInput {
        target: target.into(),
        image_options: Some(VisualImageOptionsInput {
            model: model.map(|m| m.to_string()),
            size: size.map(|s| s.to_string()),
        }),
    };
    let frozen = freeze_authorization(&output("comic_pages", Some(" m "), None), "p", "c").unwrap();
    assert_eq!(frozen.model.as_deref(), Some("m"));
    assert_eq!(frozen.size, "1024x1536");
    assert_eq!(
        frozen.to_json().to_text(),
        r#"{"model":"m","providerId":"p","size":"1024x1536","target":"comic_pages"}"#
    );
    let frozen = freeze_authorization(&output("comic_pages", Some(" "), None), "p", "c").unwrap();
    assert_eq!(frozen.model.as_deref(), Some("c"));
    assert_eq!(
        freeze_authorization(&output("video", None, None), "p", "c").unwrap_err(),
        "VISUAL_OUTPUT_TARGET_UNSUPPORTED"
    );
    assert_eq!(
        freeze_authorization(&output("comic_pages", None, Some("1x1")), "p", "c").unwrap_err(),
        "VISUAL_IMAGE_SIZE_UNSUPPORTED"
    );
    let intent = new_job_intent("job", &frozen);
    assert_eq!(intent.text_at("productionJobId"), Some("job"));
    let stored = || Some(StoredBatch { id: "b".into(), request_hash: "h".into() });
    assert_eq!(insert_batch_step(&frozen, "h", None).unwrap(), None);
    assert_eq!(insert_batch_step(&frozen, "h", stored()).unwrap().as_deref(), Some("b"));
    assert!(insert_batch_step(&frozen, "other", stored()).is_err());
    assert_eq!(authorize_step("succeeded", "h", stored()).unwrap().as_deref(), Some("b"));
    assert!(authorize_step("succeeded", "other", stored()).is_err());
}

#[test]
fn batches_are_prepared_in_page_order() {
    let batch = two_pages();
    assert_eq!(batch.status, "running");
    assert_eq!(batch.total_members, 2);
    assert_eq!(batch.members[0].production_page_id, "page-1");
    assert_eq!(batch.members[0].dispatch_key, "batch:manifest:page-1");
    assert_eq!(batch.members[1].predecessor_member_id.as_deref(), Some("m1"));
    assert_eq!(batch.current_member_ordinal, Some(1));
    assert_eq!(first_open_index(&batch.members), Some(0));

    let mut waiting = self::batch();
    assert!(prepare_scope(&mut waiting, &job("running"), 5).is_none());
    assert_eq!(waiting.status, "waiting_text");
    let mut moved = job("succeeded");
    moved.source_revision_id = "other".into();
    let mut stale = self::batch();
    assert!(prepare_scope(&mut stale, &moved, 5).is_none());
    assert_eq!(stale.status, "blocked_stale");
    assert_eq!(stale.safe_error_code.as_deref(), Some("VISUAL_BATCH_SOURCE_MISMATCH"));
    let mut old = self::batch();
    let mut pending = Vec::new();
    assert!(!add_chapter(&mut old, &mut pending, "c", &manifest("stale"), 5).unwrap());
    assert_eq!(old.status, "blocked_stale");
    assert!(pending.is_empty());
    let mut empty = self::batch();
    install_members(&mut empty, &Vec::new(), &Vec::new(), 5);
    assert_eq!(empty.safe_error_code.as_deref(), Some("VISUAL_BATCH_EMPTY"));
    assert!(read_chapter_pages(&json(r#"{"pages":[{"pageNo":1}]}"#)).is_none());
}

#[test]
fn chapters_follow_their_plan() {
    let row = |key: &str, id: &str| ChapterMapRow {
        stable_key: key.into(),
        entity_id: id.into(),
        revision_id: "r".into(),
        body_json: r#"{"chapters":[{"stableKey":"b"},{"stableKey":"a"}]}"#.into(),
    };
    let ordered = ordered_chapters_from_receipt(&vec![row("a", "1"), row("b", "2")]).unwrap();
    assert_eq!(ordered[0], ("2".to_string(), "b".to_string()));
    assert_eq!(ordered[1], ("1".to_string(), "a".to_string()));
    assert_eq!(
        ordered_chapters_from_receipt(&Vec::new()).unwrap_err(),
        "VISUAL_BATCH_CHAPTER_ORDER_MISSING"
    );
    assert_eq!(
        ordered_chapters_from_receipt(&vec![row("z", "1")]).unwrap_err(),
        "VISUAL_BATCH_CHAPTER_ORDER_MISMATCH"
    );
    let mut other = row("b", "2");
    other.revision_id = "s".into();
    assert_eq!(
        ordered_chapters_from_receipt(&vec![row("a", "1"), other]).unwrap_err(),
        "VISUAL_BATCH_CHAPTER_ORDER_MISMATCH"
    );
    let mut broken = row("a", "1");
    broken.body_json = "{}".into();
    assert_eq!(
        ordered_chapters_from_receipt(&vec![broken]).unwrap_err(),
        "VISUAL_BATCH_CHAPTER_ORDER_INVALID"
    );
}

#[test]
fn pages_are_started_one_after_the_other() {
    let mut batch = two_pages();
    assert_eq!(next_page_member(&mut batch, &Vec::new(), false, PROVIDER, 6).unwrap(), None);
    assert_eq!(batch.status, "blocked_config");
    assert_eq!(next_page_member(&mut batch, &Vec::new(), true, PROVIDER, 7).unwrap(), Some(0));
    let action = start_action(&mut batch, 0, &manifest("ready"), 7).unwrap();
    assert_eq!(action.dispatch_key, "batch:manifest:page-1");
    assert_eq!(action.model, "visual-test-model");
    assert_eq!(action.input.idempotency_key, "batch:manifest:page-1");
    assert_eq!(action.input.request_json.text_at("productionPageId"), Some("page-1"));
    let mut stale = batch.copy();
    assert!(start_action(&mut stale, 0, &manifest("stale"), 7).is_none());
    assert_eq!(stale.status, "blocked_stale");

    // The run is started and the process ends before it is linked.
    let runs = vec![scoped("batch:manifest:page-1", run("run-1", 1, "queued"))];
    reconcile_unlinked_members(&mut batch, &runs);
    assert_eq!(batch.members[0].page_run_id.as_deref(), Some("run-1"));
    assert_eq!(next_page_member(&mut batch, &runs, true, PROVIDER, 8).unwrap(), None);

    let ready = vec![scoped("batch:manifest:page-1", run("run-1", 1, "candidate_ready"))];
    assert_eq!(next_page_member(&mut batch, &ready, true, PROVIDER, 9).unwrap(), Some(1));
    assert_eq!(batch.completed_members, 1);
    assert_eq!(batch.current_member_ordinal, Some(2));
    assert!(claim_batch(&mut batch, "token", 9));
    assert!(link_member_run(&mut batch, "token", 1, "run-2", true, 9).is_ok());
    release_batch_claim(&mut batch, "token");
    let both = vec![
        scoped("batch:manifest:page-1", run("run-1", 1, "candidate_ready")),
        scoped("batch:manifest:page-2", run("run-2", 2, "candidate_ready")),
    ];
    assert_eq!(next_page_member(&mut batch, &both, true, PROVIDER, 10).unwrap(), None);
    assert_eq!(batch.status, "candidate_ready");
    assert_eq!(batch.completed_members, 2);
    let shown = get_by_id(true, Some(&batch), &both).unwrap().unwrap();
    assert_eq!(shown.members.len(), 2);
    assert_eq!(get_by_id(false, Some(&batch), &both).unwrap_err(), "VISUAL_BATCH_SCOPE_MISMATCH");
}

#[test]
fn an_unknown_outcome_stops_the_batch() {
    let mut batch = two_pages();
    let runs = vec![scoped("batch:manifest:page-1", run("run-1", 1, "needs_reconcile"))];
    assert_eq!(next_page_member(&mut batch, &runs, true, PROVIDER, 6).unwrap(), None);
    assert_eq!(batch.status, "needs_reconcile");
    let before = batch.copy();
    assert_eq!(next_page_member(&mut batch, &runs, true, PROVIDER, 7).unwrap(), None);
    assert_eq!(batch.status, before.status);
    assert_eq!(batch.members[1].status, "pending");
}

#[test]
fn leases_guard_a_batch() {
    let mut batch = two_pages();
    assert!(claim_batch(&mut batch, "a", 100));
    assert!(!claim_batch(&mut batch, "b", 101));
    let expires = batch.lease_expires_at.unwrap();
    assert!(link_member_run(&mut batch, "b", 0, "r", true, 102).is_err());
    release_batch_claim(&mut batch, "b");
    assert_eq!(batch.lease_owner.as_deref(), Some("a"));
    assert!(claim_batch(&mut batch, "b", expires + 1));
    release_batch_claim(&mut batch, "b");
    assert_eq!(batch.lease_owner, None);
    assert_eq!(wake_delay_ms(50, 20), 31);
    assert!(matches!(
        reconcile_linked_run_lease(Some(("running", Some(50))), 20),
        LinkedRunRecoveryDecision::WaitUntil(50)
    ));
    assert!(matches!(
        reconcile_linked_run_lease(Some(("running", Some(19))), 20),
        LinkedRunRecoveryDecision::Reconciled
    ));
    assert!(matches!(
        reconcile_linked_run_lease(Some(("candidate_ready", None)), 20),
        LinkedRunRecoveryDecision::NoAction
    ));
    assert_eq!(lease_expired_failure(20).bool_at("retryable"), Some(false));
    let mut failing = two_pages();
    assert!(claim_batch(&mut failing, "a", 100));
    record_driver_error(&mut failing, "a", "VISUAL_BATCH_READ_FAILED", 101);
    assert_eq!(failing.safe_error_code.as_deref(), Some("VISUAL_BATCH_READ_FAILED"));
    let mut paused = two_pages();
    pause_for_config(&mut paused, 9);
    assert_eq!(paused.status, "blocked_config");
    set_batch_status(&mut paused, "running", None, 10);
    assert_eq!(paused.status, "running");
    assert_eq!(paused.safe_error_code, None);
}

fn retry_input(key: &str) -> ComicVisualBatchMemberRetryInput {
    ComicVisualBatchMemberRetryInput {
        project_id: "project".into(),
        novel_work_id: "work".into(),
        production_job_id: "job".into(),
        batch_id: "batch".into(),
        member_id: "m1".into(),
        production_page_id: "page-1".into(),
        expected_parent_run_id: "run-1".into(),
        confirm_possible_charge: true,
        idempotency_key: key.into(),
    }
}

fn failed_first_page() -> (BatchState, Vec<ScopedRun>) {
    let mut batch = two_pages();
    let mut failed = run("run-1", 1, "failed");
    failed.failure_json = Some(json(r#"{"code":"TEST_KNOWN_FAILURE","retryable":true}"#));
    let runs = vec![scoped("batch:manifest:page-1", failed)];
    reconcile_unlinked_members(&mut batch, &runs);
    sync_member_outcomes(&mut batch, &runs, 6).unwrap();
    (batch, runs)
}

fn retry(
    batch: &mut BatchState,
    runs: &Vec<ScopedRun>,
    input: &ComicVisualBatchMemberRetryInput,
    receipt: Option<CommandReceipt>,
    ready: bool,
    provider: &str,
) -> Result<RetryStep, String> {
    retry_member_inner(batch, runs, input, "job", "hash", receipt, ready, provider, 7)
}

#[test]
fn failed_members_are_retried_only_on_purpose() {
    let (mut batch, runs) = failed_first_page();
    assert_eq!(batch.members[0].status, "failed");
    let input = retry_input("retry");
    let mut unconfirmed = retry_input("retry");
    unconfirmed.confirm_possible_charge = false;
    assert_eq!(
        retry(&mut batch, &runs, &unconfirmed, None, true, PROVIDER).unwrap_err(),
        "VISUAL_BATCH_RETRY_CONFIRMATION_REQUIRED"
    );
    assert_eq!(
        retry(&mut batch, &runs, &input, None, false, PROVIDER).unwrap_err(),
        "VISUAL_BATCH_CONFIG_REQUIRED"
    );
    assert_eq!(
        retry(&mut batch, &runs, &input, None, true, "other-provider").unwrap_err(),
        "VISUAL_BATCH_CONFIG_REQUIRED"
    );
    let mut foreign = retry_input("retry");
    foreign.project_id = "other-project".into();
    assert_eq!(
        retry(&mut batch, &runs, &foreign, None, true, PROVIDER).unwrap_err(),
        "VISUAL_BATCH_RETRY_SCOPE_MISMATCH"
    );
    assert_eq!(
        get_by_id(false, Some(&batch), &runs).unwrap_err(),
        "VISUAL_BATCH_SCOPE_MISMATCH"
    );
    let mut busy = batch.copy();
    busy.lease_owner = Some("other-session".into());
    busy.lease_expires_at = Some(60_000);
    assert_eq!(
        retry(&mut busy, &runs, &input, None, true, PROVIDER).unwrap_err(),
        "VISUAL_BATCH_RETRY_BUSY"
    );
    for (status, expected) in [
        ("needs_reconcile", "VISUAL_BATCH_RECONCILE_REQUIRED"),
        ("blocked_stale", "VISUAL_BATCH_STALE_REQUIRED"),
    ] {
        let mut stopped = batch.copy();
        stopped.status = status.into();
        assert_eq!(
            retry(&mut stopped, &runs, &input, None, true, PROVIDER).unwrap_err(),
            expected
        );
    }
    let mut wrong_parent = retry_input("retry");
    wrong_parent.expected_parent_run_id = "wrong-parent".into();
    assert_eq!(
        retry(&mut batch, &runs, &wrong_parent, None, true, PROVIDER).unwrap_err(),
        "VISUAL_BATCH_RETRY_PARENT_CHANGED"
    );
    let (mut drifted_batch, mut drifted) = failed_first_page();
    drifted[0].run.request_json = json(r#"{"model":"different-frozen-model","size":"1024x1536"}"#);
    assert_eq!(
        retry(&mut drifted_batch, &drifted, &input, None, true, PROVIDER).unwrap_err(),
        "VISUAL_BATCH_RETRY_FROZEN_REQUEST_MISMATCH"
    );

    match retry(&mut batch, &runs, &input, None, true, PROVIDER).unwrap() {
        RetryStep::Start { member_index, start, model, attempt_no } => {
            assert_eq!(member_index, 0);
            assert_eq!(attempt_no, 2);
            assert_eq!(model, "visual-test-model");
            assert_eq!(start.production_page_id, "page-1");
            assert_eq!(start.idempotency_key, "batch:manifest:page-1:retry:run-1");
        }
        RetryStep::Replay(_) => panic!("nothing was retried before"),
    }
    link_retried_child(&mut batch, 0, "run-1", "child", "queued").unwrap();
    assert_eq!(batch.members[0].page_run_id.as_deref(), Some("child"));
    assert_eq!(batch.members[0].status, "queued");
    let mut child = run("child", 1, "queued");
    child.parent_run_id = Some("run-1".into());
    child.attempt_no = 2;
    let mut linked = runs;
    linked.push(scoped("batch:manifest:page-1:retry:run-1", child));
    assert_eq!(
        queued_retried_child(&batch, &linked, "m1", "run-1").as_deref(),
        Some("child")
    );
    let receipt = Some(CommandReceipt { request_hash: "hash".into(), batch_id: "batch".into() });
    let before = batch.copy();
    match retry(&mut batch, &linked, &input, receipt, true, PROVIDER).unwrap() {
        RetryStep::Replay(child) => assert_eq!(child.as_deref(), Some("child")),
        RetryStep::Start { .. } => panic!("a replay starts nothing"),
    }
    assert_eq!(format!("{batch:?}"), format!("{before:?}"));
    let mut other = retry_input("retry");
    other.member_id = "m2".into();
    assert_ne!(
        retry_member_identity(&other).to_text(),
        retry_member_identity(&input).to_text()
    );
    let receipt = Some(CommandReceipt { request_hash: "other".into(), batch_id: "batch".into() });
    assert_eq!(
        retry(&mut batch, &linked, &other, receipt, true, PROVIDER).unwrap_err(),
        "IDEMPOTENCY_MISMATCH"
    );
    assert_eq!(
        retry(&mut batch, &linked, &retry_input("different"), None, true, PROVIDER).unwrap_err(),
        "VISUAL_BATCH_RETRY_PARENT_CHANGED"
    );
    assert_eq!(retry_member_identity(&input).text_at("memberId"), Some("m1"));
}

fn blocked_first_page() -> (BatchState, Vec<ScopedRun>) {
    let mut batch = two_pages();
    let mut blocked = run("run-1", 1, "blocked_config");
    blocked.attempt_no = 0;
    let runs = vec![scoped("batch:manifest:page-1", blocked)];
    reconcile_unlinked_members(&mut batch, &runs);
    sync_member_outcomes(&mut batch, &runs, 6).unwrap();
    (batch, runs)
}

fn resume(
    batch: &mut BatchState,
    runs: &Vec<ScopedRun>,
    receipt: Option<CommandReceipt>,
) -> Result<ResumeStep, String> {
    resume_batch_inner(batch, runs, "hash", receipt, true, "visual-test-model", PROVIDER, 7)
}

#[test]
fn blocked_pages_are_resumed_only_where_nothing_was_submitted() {
    let evidence: [fn(&mut ComicVisualPageRun); 3] = [
        |run| run.submitted_at = Some(5),
        |run| run.provider_request_id = Some("already-submitted".into()),
        |run| run.asset_id = Some("asset".into()),
    ];
    for submitted in evidence {
        let (mut batch, mut runs) = blocked_first_page();
        submitted(&mut runs[0].run);
        assert_eq!(
            resume(&mut batch, &runs, None).unwrap_err(),
            "VISUAL_CONFIG_RESUME_RECONCILE_REQUIRED"
        );
        assert_eq!(batch.members[0].page_run_id.as_deref(), Some("run-1"));
    }
    let (mut busy, runs) = blocked_first_page();
    busy.lease_owner = Some("other-session".into());
    busy.lease_expires_at = Some(60_000);
    assert_eq!(resume(&mut busy, &runs, None).unwrap_err(), "VISUAL_BATCH_RESUME_BUSY");
    let (mut stale, runs) = blocked_first_page();
    stale.status = "blocked_stale".into();
    assert_eq!(resume(&mut stale, &runs, None).unwrap_err(), "VISUAL_BATCH_STALE_REQUIRED");

    let (mut batch, mut runs) = blocked_first_page();
    match resume(&mut batch, &runs, None).unwrap() {
        ResumeStep::Start { member_index, start, model, attempt_no } => {
            assert_eq!(member_index, 0);
            assert_eq!(attempt_no, 1);
            assert_eq!(model, "visual-test-model");
            assert_eq!(start.idempotency_key, "batch:manifest:page-1:config-resume:run-1");
        }
        other => panic!("the blocked page is started again: {other:?}"),
    }
    link_resumed_child(&mut batch, 0, "run-1", "child", "queued").unwrap();
    assert_eq!(batch.members[0].page_run_id.as_deref(), Some("child"));
    assert_eq!(batch.status, "running");
    let mut child = run("child", 1, "queued");
    child.parent_run_id = Some("run-1".into());
    runs.push(scoped("batch:manifest:page-1:config-resume:run-1", child));
    let receipt = Some(CommandReceipt { request_hash: "hash".into(), batch_id: "batch".into() });
    match resume(&mut batch, &runs, receipt).unwrap() {
        ResumeStep::Replay(child) => assert_eq!(child.as_deref(), Some("child")),
        other => panic!("the key was used: {other:?}"),
    }
    match resume(&mut batch, &runs, None).unwrap() {
        ResumeStep::Queued(id) => assert_eq!(id, "child"),
        other => panic!("the child is queued already: {other:?}"),
    }
    for status in ["needs_reconcile", "blocked_stale"] {
        let mut stopped = batch.copy();
        stopped.status = status.into();
        let receipt =
            Some(CommandReceipt { request_hash: "hash".into(), batch_id: "batch".into() });
        match resume(&mut stopped, &runs, receipt).unwrap() {
            ResumeStep::Replay(child) => assert_eq!(child, None),
            other => panic!("a replay schedules nothing: {other:?}"),
        }
        assert_eq!(stopped.status, status);
    }
    assert_eq!(resume_identity("batch").text_at("batchId"), Some("batch"));
}

#[test]
fn attempts_are_numbered_per_page_of_a_manifest() {
    let attempt = |id: &str, page: i64, no: i64| {
        let mut made = run(id, page, "failed");
        made.attempt_no = no;
        scoped(id, made)
    };
    let mut runs = vec![attempt("a", 1, 2), attempt("b", 2, 7), attempt("c", 1, 4)];
    assert_eq!(next_attempt_no(&Vec::new(), "manifest", "page-1"), Some(1));
    assert_eq!(next_attempt_no(&runs, "manifest", "page-1"), Some(5));
    assert_eq!(next_attempt_no(&runs, "manifest", "page-2"), Some(8));
    assert_eq!(next_attempt_no(&runs, "other", "page-1"), Some(1));
    runs.push(attempt("d", 1, i64::MAX));
    assert_eq!(next_attempt_no(&runs, "manifest", "page-1"), None);

    let (mut batch, mut runs) = blocked_first_page();
    let mut negative = run("old", 1, "failed");
    negative.attempt_no = -3;
    runs[0].run.attempt_no = -3;
    runs.push(scoped("old", negative));
    assert_eq!(
        resume(&mut batch, &runs, None).unwrap_err(),
        "VISUAL_CONFIG_RESUME_PARENT_INVALID"
    );
    let (mut batch, mut runs) = blocked_first_page();
    let mut last = run("old", 1, "failed");
    last.attempt_no = i64::MAX;
    runs.push(scoped("old", last));
    assert_eq!(resume(&mut batch, &runs, None).unwrap_err(), "VISUAL_RUN_READ_FAILED");
}

#[test]
fn a_started_page_is_found_again_after_a_lost_link() {
    let mut found = two_pages();
    let mut runs: Vec<ScopedRun> = Vec::new();
    assert_eq!(next_page_member(&mut found, &runs, true, PROVIDER, 7).unwrap(), Some(0));
    runs.push(scoped("batch:manifest:page-1", run("run-1", 1, "queued")));
    assert_eq!(next_page_member(&mut found, &runs, true, PROVIDER, 8).unwrap(), None);
    assert_eq!(found.members[0].page_run_id.as_deref(), Some("run-1"));
    assert_eq!(found.members[0].status, "queued");
    runs[0].run.status = "candidate_ready".into();
    assert_eq!(next_page_member(&mut found, &runs, true, PROVIDER, 9).unwrap(), Some(1));
}

#[test]
fn an_old_parent_does_not_reach_a_member_that_moved_on() {
    let (mut batch, mut runs) = failed_first_page();
    batch.members[0].page_run_id = Some("child".into());
    batch.members[0].status = "queued".into();
    batch.status = "running".into();
    let mut child = run("child", 1, "queued");
    child.parent_run_id = Some("run-1".into());
    runs.push(scoped("batch:manifest:page-1:retry:run-1", child));
    runs[0].run.status = "needs_reconcile".into();
    sync_member_outcomes(&mut batch, &runs, 9).unwrap();
    assert_eq!(batch.members[0].status, "queued");
    assert_eq!(batch.status, "running");
}

#[test]
fn a_claimed_batch_has_one_driver() {
    let mut taken = two_pages();
    assert!(claim_batch(&mut taken, "first", 100));
    assert!(!claim_batch(&mut taken, "second", 100));
    release_batch_claim(&mut taken, "second");
    assert_eq!(taken.lease_owner.as_deref(), Some("first"));
    assert!(!claim_batch(&mut taken, "second", 101));
    release_batch_claim(&mut taken, "first");
    assert!(claim_batch(&mut taken, "second", 101));
}

#[test]
fn stored_members_are_put_in_order() {
    let mut stored = two_pages();
    stored.members.reverse();
    assert_eq!(stored.members[0].ordinal, 2);
    stored.members = order_members(stored.members);
    let places: Vec<(i64, String)> =
        stored.members.iter().map(|m| (m.ordinal, m.id.clone())).collect();
    assert_eq!(places, vec![(1, "m1".to_string()), (2, "m2".to_string())]);
    assert_eq!(first_open_index(&stored.members), Some(0));
}

#[test]
fn an_authorized_job_begins_with_an_empty_batch() {
    let authorized = authorization(None);
    let begun = new_batch("new", &job("succeeded"), &authorized, 9);
    assert_eq!(begun.id, "new");
    assert_eq!(begun.status, "waiting_text");
    assert_eq!(begun.production_job_id, "job");
    assert_eq!(begun.source_revision_id, "source");
    assert_eq!(begun.output_target, "comic_pages");
    assert_eq!(begun.authorization.provider_id, PROVIDER);
    assert_eq!(begun.authorization.model, None);
    assert_eq!((begun.total_members, begun.completed_members), (0, 0));
    assert_eq!((begun.created_at, begun.updated_at, begun.finished_at), (9, 9, None));
    assert_eq!((begun.comic_adaptation_id, begun.lease_owner), (None, None));
    assert!(begun.members.is_empty());
}

#[test]
fn members_follow_the_chapters_and_the_page_numbers() {
    let row = |key: &str| ChapterMapRow {
        stable_key: key.into(),
        entity_id: format!("chapter-{key}"),
        revision_id: "r".into(),
        body_json: r#"{"chapters":[{"stableKey":"b"},{"stableKey":"a"}]}"#.into(),
    };
    let mut prepared = batch();
    let (adaptation, operation) = prepare_scope(&mut prepared, &job("succeeded"), 5).unwrap();
    let mut preparation =
        Preparation::begin(&vec![row("a"), row("b")], &adaptation, &operation).unwrap();
    let mut keys = Vec::new();
    while let Some(input) = preparation.next_chapter(&prepared) {
        assert_eq!(input.comic_adaptation_id, "adaptation");
        assert_eq!(input.apply_operation_id, "operation");
        keys.push(input.idempotency_key);
        let mut found = manifest("stale");
        found.id = format!("manifest-{}", input.production_chapter_id);
        let mut stopped = prepared.copy();
        assert!(!preparation.take_manifest(&mut stopped, &found, 5).unwrap());
        assert_eq!(stopped.safe_error_code.as_deref(), Some("VISUAL_BATCH_MANIFEST_STALE"));
        found.freshness = "ready".into();
        let pages = std::mem::replace(&mut found.manifest, json("{}"));
        assert_eq!(
            preparation.take_manifest(&mut prepared, &found, 5).unwrap_err(),
            "VISUAL_BATCH_MANIFEST_INVALID"
        );
        found.manifest = pages;
        assert!(preparation.take_manifest(&mut prepared, &found, 5).unwrap());
    }
    assert_eq!(keys, vec!["batch:manifest:chapter-b", "batch:manifest:chapter-a"]);
    let ids: Vec<String> = (1..=4).map(|i| format!("m{i}")).collect();
    preparation.install(&mut prepared, &ids, 5);
    let places: Vec<(i64, String, String)> = prepared
        .members
        .iter()
        .map(|m| (m.ordinal, m.production_chapter_id.clone(), m.production_page_id.clone()))
        .collect();
    assert_eq!(
        places,
        vec![
            (1, "chapter-b".into(), "page-1".into()),
            (2, "chapter-b".into(), "page-2".into()),
            (3, "chapter-a".into(), "page-1".into()),
            (4, "chapter-a".into(), "page-2".into()),
        ]
    );
    let predecessors: Vec<Option<String>> =
        prepared.members.iter().map(|m| m.predecessor_member_id.clone()).collect();
    assert_eq!(predecessors, vec![None, Some("m1".into()), None, Some("m3".into())]);
    assert!(prepared.members.iter().all(|m| m.status == "pending" && m.page_run_id.is_none()));
    assert_eq!((prepared.total_members, prepared.completed_members), (4, 0));
    assert_eq!(prepared.current_member_ordinal, Some(1));
    assert_eq!(prepared.status, "running");
    assert!(prepare_scope(&mut prepared, &job("succeeded"), 6).is_none());
    let again: Vec<String> = (1..=4).map(|i| format!("n{i}")).collect();
    preparation.install(&mut prepared, &again, 6);
    assert_eq!(prepared.members.len(), 4);
    assert_eq!(prepared.members[0].id, "m1");
}

#[test]
fn an_unknown_status_stops_the_walk_at_its_member() {
    let mut walked = two_pages();
    let runs = vec![
        scoped("batch:manifest:page-1", run("run-1", 1, "candidate_ready")),
        scoped("batch:manifest:page-2", run("run-2", 2, "vanished")),
    ];
    reconcile_unlinked_members(&mut walked, &runs);
    walked.members[0].status = "running".into();
    assert_eq!(
        sync_member_outcomes(&mut walked, &runs, 8).unwrap_err(),
        "VISUAL_BATCH_RUN_STATUS_INVALID"
    );
    assert_eq!(walked.members[0].status, "candidate_ready");
    assert_eq!(walked.members[0].finished_at, Some(8));
    assert_eq!(walked.members[1].status, "vanished");
    assert_eq!(walked.completed_members, 0);
}

#[test]
fn the_driver_always_gives_its_claim_back() {
    assert!(matches!(
        drive_batch(DriveEvent::Claimed { taken: Ok(true), lease_expires_at: None, now: 1 }),
        DriveAction::Prepare
    ));
    assert!(matches!(
        drive_batch(DriveEvent::Claimed { taken: Ok(false), lease_expires_at: Some(9), now: 1 }),
        DriveAction::WakeAt(9)
    ));
    assert!(matches!(drive_batch(DriveEvent::Prepared(Ok(()))), DriveAction::ReadConfig));
    match drive_batch(DriveEvent::Prepared(Err("code".into()))) {
        DriveAction::FailAndRelease(code) => assert_eq!(code, "code"),
        other => panic!("a failure is recorded: {other:?}"),
    }
    assert!(matches!(drive_batch(DriveEvent::ConfigRead(false)), DriveAction::PauseAndRelease));
    assert!(matches!(drive_batch(DriveEvent::ConfigRead(true)), DriveAction::Search));
    assert!(matches!(drive_batch(DriveEvent::Searched(Ok(true))), DriveAction::Start));
    assert!(matches!(drive_batch(DriveEvent::Started(Ok("r".into()))), DriveAction::Link));
    assert!(matches!(
        drive_batch(DriveEvent::Linked(Ok(()), "queued".into())),
        DriveAction::Release { dispatch: true }
    ));
}

#[test]
fn the_intent_of_an_authorization_names_what_was_asked() {
    let input = |options: Option<VisualImageOptionsInput>| NovelProductionVisualAuthorizeInput {
        project_id: "p".into(),
        novel_work_id: "w".into(),
        production_job_id: "job".into(),
        visual_output: VisualOutputInput { target: "comic_pages".into(), image_options: options },
        idempotency_key: "k".into(),
    };
    assert_eq!(
        authorize_intent(&input(None)).to_text(),
        r#"{"productionJobId":"job","visualOutput":{"imageOptions":null,"target":"comic_pages"}}"#
    );
    let options = VisualImageOptionsInput { model: Some("m".into()), size: None };
    assert_eq!(
        authorize_intent(&input(Some(options))).to_text(),
        r#"{"productionJobId":"job","visualOutput":{"imageOptions":{"model":"m","size":null},"target":"comic_pages"}}"#
    );
}
