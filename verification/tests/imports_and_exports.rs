use base64::Engine;
use image_client::comic_visual_asset::{
    get_inner, read_dimension, AssetCandidateRow, ComicVisualPageAssetGetInput, ASSET_UNAVAILABLE,
};
use image_client::comic_visual_export::{
    asset_request, canonical_destination, check_default_page, check_default_root,
    check_selected_asset, child_is_missing, create_verified_child, decide_export,
    default_export_input, default_segments, export_directory_name, export_file, export_source,
    failure_code, finish_export, load_selection, manifests_agree, open_target, prepare_export,
    read_export_verified, safe_path_component, sha256, verify_created_export_directory,
    ComicVisualBatchExportInput, ComicVisualExportFile, ComicVisualExportSelection,
    ComicVisualPageExportDefaultInput, ExportFacts, ExportFileFacts, ExportHeader, ExportMemberRow,
    ExportReceipt, ExportStep, PathState, EXPORT_UNAVAILABLE,
};
use image_client::comic_visual_render::CandidateFacts;
use image_client::commands::AssetRef;
use image_client::external_asset_import::{
    asset_params, check_kinds, classify, decode_import_base64, file_name, import_metadata,
    imported_asset, new_import, persist_import, prepare_import, read_input, source_extension, verify_project,
    AssetImportFile, AssetImportFilesInput, ContentFacts, ImportAction, ImportEvent, PathContent, PathFact,
};
use image_client::json::Json;

fn json(text: &str) -> Json {
    Json::from_text(text).unwrap()
}

fn parts(path: &str) -> Vec<String> {
    path.split('/').map(|part| part.to_string()).collect()
}

fn png() -> Vec<u8> {
    let image = image::RgbaImage::from_pixel(1, 1, image::Rgba([0, 0, 0, 255]));
    let mut bytes = std::io::Cursor::new(Vec::new());
    image.write_to(&mut bytes, image::ImageFormat::Png).unwrap();
    bytes.into_inner()
}

fn base64_of(bytes: &[u8]) -> String {
    base64::engine::general_purpose::STANDARD.encode(bytes)
}

fn input() -> AssetImportFilesInput {
    AssetImportFilesInput {
        project_id: "project-a".into(),
        import_entry: "image_reference".into(),
        upload_batch_id: "batch-a".into(),
        files: vec![AssetImportFile::Bytes {
            file_name: "source.png".into(),
            data_base64: base64_of(&png()),
        }],
        params: json(r#"{"scope":"reference"}"#),
    }
}

fn no_fact() -> Result<PathFact, String> {
    Ok(PathFact { is_file: false, bytes: 0 })
}

fn no_content() -> Result<PathContent, String> {
    Err("no path".into())
}

fn picture() -> ContentFacts {
    ContentFacts {
        image_format: Some("png".into()),
        image_valid: true,
        video_valid: false,
    }
}

fn asset(id: &str, format: &str) -> AssetRef {
    AssetRef {
        id: id.into(),
        kind: "image".into(),
        path: "/assets/a.png".into(),
        width: Some(1),
        height: Some(1),
        format: Some(format.into()),
    }
}

#[test]
fn persists_external_asset_with_catalog_metadata() {
    let request = prepare_import(&input(), &vec![no_fact()]).unwrap();
    let (source, bytes) = read_input(&input().files[0], &no_fact(), no_content()).unwrap();
    assert_eq!(bytes, png());
    let pending = vec![classify(source, bytes, &picture()).unwrap()];
    check_kinds(&request.import_entry, &pending).unwrap();
    verify_project(&request.project_id, Some(r#"[{"id":"project-a"}]"#)).unwrap();
    let imported = imported_asset(
        asset("a", "png"),
        &pending[0].source,
        &request.project_id,
        &request.params,
        7,
    );
    let catalog = imported.params.get("catalog").unwrap();
    assert_eq!(catalog.text_at("category"), Some("upload"));
    assert_eq!(catalog.get("group").unwrap().text_at("id"), Some("batch-a"));
    assert_eq!(imported.params.text_at("originalFileName"), Some("source.png"));
    assert_eq!(imported.params.text_at("scope"), Some("reference"));
    assert_eq!(imported.created_at, 7);
    let metadata = json(
        &import_metadata(&pending[0].source, &request.project_id, &request.params).to_text(),
    );
    assert_eq!(metadata.text_at("projectId"), Some("project-a"));
    assert_eq!(metadata.get("params").unwrap().text_at("origin"), Some("external_upload"));
}

#[test]
fn rejects_unknown_project_before_writing_files() {
    let stored = Some(r#"[{"id":"project-a"}]"#);
    assert_eq!(verify_project("missing", stored).unwrap_err(), "项目不存在，不能导入资产");
    assert_eq!(verify_project("project-a", None).unwrap_err(), "项目不存在，不能导入资产");
    assert_eq!(verify_project("project-a", Some("{")).unwrap_err(), "项目不存在，不能导入资产");
    assert_eq!(verify_project(" ", stored).unwrap_err(), "导入资产必须指定项目");
    assert!(verify_project("project-a", stored).is_ok());
}

#[test]
fn rejects_an_image_disguised_as_short_drama_video_before_writing_files() {
    let pending = vec![classify("not-video.mp4".into(), png(), &picture()).unwrap()];
    assert_eq!(pending[0].kind, "image");
    assert_eq!(
        check_kinds("short_drama_video_reference", &pending).unwrap_err(),
        "short_drama_video_reference 只接受实际视频文件，未导入“not-video.mp4”"
    );
    assert!(check_kinds("video_reference", &pending).is_ok());
    assert_eq!(
        check_kinds("unknown", &pending).unwrap_err(),
        "unknown 只接受实际图片或视频文件，未导入“not-video.mp4”"
    );
}

#[test]
fn rejects_a_magic_number_only_image_before_writing_files() {
    let bytes = vec![0x89, b'P', b'N', b'G', 0x0D, 0x0A, 0x1A, 0x0A];
    let mut facts = picture();
    facts.image_valid = false;
    assert_eq!(
        classify("truncated.png".into(), bytes, &facts).unwrap_err(),
        "图片“truncated.png”内容格式校验失败"
    );
}

#[test]
fn accepts_the_browser_file_json_shape() {
    let text = format!(
        r#"{{"source":"bytes","fileName":"browser.png","dataBase64":"{}"}}"#,
        base64_of(&png())
    );
    let value = json(&text);
    let file = AssetImportFile::Bytes {
        file_name: value.text_at("fileName").unwrap().into(),
        data_base64: value.text_at("dataBase64").unwrap().into(),
    };
    let AssetImportFile::Bytes { file_name, data_base64 } = file else {
        panic!("browser payload must deserialize as bytes")
    };
    assert_eq!(file_name, "browser.png");
    assert_eq!(decode_import_base64(&data_base64).unwrap(), png());
}

#[test]
fn imports_are_refused_in_turn() {
    let refusal = |request: &AssetImportFilesInput, facts: Vec<Result<PathFact, String>>| {
        prepare_import(request, &facts).unwrap_err()
    };
    let mut request = input();
    request.files = Vec::new();
    assert_eq!(refusal(&request, Vec::new()), "一次请选择 1 到 8 个文件");
    let mut request = input();
    request.import_entry = "elsewhere".into();
    assert_eq!(refusal(&request, vec![no_fact()]), "未知的外部导入入口");
    let mut request = input();
    request.upload_batch_id = " ".into();
    assert_eq!(refusal(&request, vec![no_fact()]), "导入批次 ID 不能为空");
    let mut request = input();
    request.params = Json::Null;
    assert_eq!(refusal(&request, vec![no_fact()]), "导入资产 params 必须是对象");
    let path = || AssetImportFile::Path { path: "/f".into() };
    let file = |bytes: u64| Ok(PathFact { is_file: true, bytes });
    let mut request = input();
    request.files = vec![path(), path()];
    assert_eq!(
        refusal(&request, vec![file(536_870_913), file(0)]),
        "导入文件超过 512 MiB 大小限制"
    );
    assert_eq!(
        refusal(&request, vec![file(536_870_912), file(1)]),
        "导入批次超过 512 MiB 大小限制"
    );
    assert_eq!(refusal(&request, vec![file(1), no_fact()]), "导入目标必须是文件");
    assert_eq!(refusal(&request, vec![Err("gone".into()), file(1)]), "gone");
    assert!(prepare_import(&request, &vec![file(536_870_911), file(1)]).is_ok());
    request.files = vec![AssetImportFile::Bytes { file_name: " ".into(), data_base64: "".into() }];
    assert_eq!(refusal(&request, vec![no_fact()]), "导入文件名不能为空");
    request.import_entry = " video_reference ".into();
    request.files = vec![path()];
    let prepared = prepare_import(&request, &vec![file(1)]).unwrap();
    assert_eq!(prepared.import_entry, "video_reference");
    assert_eq!(prepared.params.text_at("importEntry"), Some("video_reference"));
}

#[test]
fn imported_files_are_read_and_classified() {
    let path = AssetImportFile::Path { path: "/f".into() };
    let file = |bytes: u64| Ok(PathFact { is_file: true, bytes });
    let content = |name: Option<&str>| {
        Ok(PathContent { name: name.map(|n| n.to_string()), bytes: vec![1] })
    };
    assert_eq!(
        read_input(&path, &file(1), content(Some("a.mov"))).unwrap(),
        ("a.mov".to_string(), vec![1])
    );
    assert_eq!(read_input(&path, &file(1), content(None)).unwrap().0, "外部文件");
    assert_eq!(file_name(Some(" ")), "外部文件");
    assert_eq!(
        read_input(&path, &file(536_870_913), content(None)).unwrap_err(),
        "导入文件超过 512 MiB 大小限制"
    );
    assert_eq!(read_input(&path, &no_fact(), content(None)).unwrap_err(), "导入目标必须是文件");
    assert_eq!(read_input(&path, &file(1), Err("unreadable".into())).unwrap_err(), "unreadable");
    let bytes = |name: &str, data: &str| AssetImportFile::Bytes {
        file_name: name.into(),
        data_base64: data.into(),
    };
    assert_eq!(
        read_input(&bytes("", "AA=="), &no_fact(), no_content()).unwrap_err(),
        "导入文件名不能为空"
    );
    assert_eq!(
        read_input(&bytes("a", "A"), &no_fact(), no_content()).unwrap_err(),
        "导入文件内容不是有效的 base64"
    );
    let video = ContentFacts { image_format: None, image_valid: false, video_valid: true };
    let pending = classify("clip.MP4".into(), vec![0], &video).unwrap();
    assert_eq!((pending.kind.as_str(), pending.format.as_str()), ("video", "mp4"));
    assert_eq!(source_extension("a.b.WebM"), "webm");
    assert_eq!(source_extension("none"), "");
    let other = "仅支持内容校验通过的 PNG、JPG、WebP、GIF、BMP、MP4、WebM 或 MOV 文件";
    assert_eq!(classify("clip.avi".into(), vec![0], &video).unwrap_err(), other);
    assert_eq!(
        classify("big.png".into(), vec![0; 52_428_801], &picture()).unwrap_err(),
        "图片“big.png”超过 50 MiB 大小限制"
    );
    assert_eq!(
        asset_params(&json(r#"{"originalFileName":"x"}"#), "y").to_text(),
        r#"{"originalFileName":"y"}"#
    );
}

// The assets of runs.

fn candidate() -> CandidateFacts {
    CandidateFacts {
        kind: "image".into(),
        declared_format: Some("png".into()),
        output_dir: Some(parts("/root/run")),
        path: Some(parts("/root/run/candidate.png")),
        is_file: true,
        detected_format: Some("png".into()),
        image_valid: true,
    }
}

fn row() -> AssetCandidateRow {
    AssetCandidateRow {
        asset: asset("asset", "png"),
        metadata: r#"{"projectId":"project","novelWorkId":"work","productionChapterId":"chapter",
            "comicVisualManifestId":"manifest","productionPageId":"page","visualRunId":"run",
            "generationAttemptId":"attempt","manifestFingerprint":"fingerprint"}"#
            .into(),
        run_id: "run".into(),
        run_status: "candidate_ready".into(),
        run_project_id: "project".into(),
        run_novel_work_id: "work".into(),
        project_id: "project".into(),
        novel_work_id: "work".into(),
        production_chapter_id: "chapter".into(),
        page_chapter_id: "chapter".into(),
        manifest_id: "manifest".into(),
        production_page_id: "page".into(),
        generation_attempt_id: "attempt".into(),
        run_fingerprint: "fingerprint".into(),
        manifest_fingerprint: "fingerprint".into(),
    }
}

fn wanted() -> ComicVisualPageAssetGetInput {
    asset_request("project", "work", "run")
}

#[test]
fn reads_a_candidate_ready_asset_with_complete_lineage() {
    let found = get_inner(Some(row()), &candidate(), &wanted()).unwrap();
    assert_eq!(found.id, "asset");
    assert_eq!(found.path, "/assets/a.png");
}

#[test]
fn rejects_assets_when_the_persisted_lineage_is_incomplete() {
    let mut changed = row();
    changed.metadata = changed.metadata.replace(r#""generationAttemptId":"attempt","#, "");
    assert_eq!(get_inner(Some(changed), &candidate(), &wanted()).unwrap_err(), ASSET_UNAVAILABLE);
    let mut broken = row();
    broken.metadata = "{".into();
    assert_eq!(get_inner(Some(broken), &candidate(), &wanted()).unwrap_err(), ASSET_UNAVAILABLE);
    let mut moved = row();
    moved.page_chapter_id = "other".into();
    assert_eq!(get_inner(Some(moved), &candidate(), &wanted()).unwrap_err(), ASSET_UNAVAILABLE);
    assert_eq!(get_inner(None, &candidate(), &wanted()).unwrap_err(), ASSET_UNAVAILABLE);
}

#[test]
fn rejects_a_candidate_outside_the_requested_project_or_work() {
    let wrong_project = asset_request("other-project", "work", "run");
    let wrong_work = asset_request("project", "other-work", "run");
    assert_eq!(
        get_inner(Some(row()), &candidate(), &wrong_project).unwrap_err(),
        ASSET_UNAVAILABLE
    );
    assert_eq!(
        get_inner(Some(row()), &candidate(), &wrong_work).unwrap_err(),
        ASSET_UNAVAILABLE
    );
}

#[test]
fn rejects_runs_that_are_not_candidate_ready() {
    let mut failed = row();
    failed.run_status = "failed".into();
    assert_eq!(get_inner(Some(failed), &candidate(), &wanted()).unwrap_err(), ASSET_UNAVAILABLE);
}

#[test]
fn rejects_an_asset_that_escapes_the_run_directory_or_is_not_an_image() {
    let mut escaped = candidate();
    escaped.path = Some(parts("/root/escaped.png"));
    assert_eq!(get_inner(Some(row()), &escaped, &wanted()).unwrap_err(), ASSET_UNAVAILABLE);
    let mut text = candidate();
    text.detected_format = None;
    text.image_valid = false;
    assert_eq!(get_inner(Some(row()), &text, &wanted()).unwrap_err(), ASSET_UNAVAILABLE);
    assert_eq!(read_dimension(None).unwrap(), None);
    assert_eq!(read_dimension(Some(4_294_967_295)).unwrap(), Some(u32::MAX));
    assert!(read_dimension(Some(-1)).is_err());
    assert!(read_dimension(Some(4_294_967_296)).is_err());
}

// Exports.

fn selection(member: &str) -> ComicVisualExportSelection {
    ComicVisualExportSelection {
        member_id: member.into(),
        run_id: format!("run-{member}"),
        asset_id: format!("asset-{member}"),
    }
}

fn export_input() -> ComicVisualBatchExportInput {
    ComicVisualBatchExportInput {
        project_id: "project".into(),
        novel_work_id: "work".into(),
        batch_id: "batch".into(),
        selections: vec![selection("b"), selection("a")],
        destination_dir: "/out".into(),
        idempotency_key: "key".into(),
    }
}

fn member_row(member: &str, ordinal: i64) -> ExportMemberRow {
    ExportMemberRow {
        batch_id: "batch".into(),
        batch_project_id: "project".into(),
        batch_novel_work_id: "work".into(),
        member_id: member.into(),
        member_status: "candidate_ready".into(),
        ordinal,
        manifest_id: "manifest".into(),
        production_chapter_id: "chapter".into(),
        production_page_id: "page".into(),
        page_no: 2,
        run_id: format!("run-{member}"),
        run_asset_id: Some(format!("asset-{member}")),
        run_status: "candidate_ready".into(),
        run_project_id: "project".into(),
        run_novel_work_id: "work".into(),
        run_manifest_id: "manifest".into(),
        run_page_id: "page".into(),
    }
}

#[test]
fn exports_are_prepared_in_the_order_of_their_members() {
    let request = prepare_export(&export_input(), "/out").unwrap();
    assert_eq!(request.selections[0].member_id, "a");
    assert_eq!(request.selections[1].member_id, "b");
    assert_eq!(
        request.request.to_text(),
        concat_lines(&[
            r#"{"batchId":"batch","destinationDir":"/out","novelWorkId":"work","projectId":"project","#,
            r#""selections":[{"assetId":"asset-a","memberId":"a","runId":"run-a"},"#,
            r#"{"assetId":"asset-b","memberId":"b","runId":"run-b"}]}"#,
        ])
    );
    assert_eq!(request.pending.bool_at("candidate"), Some(true));
    let mut empty = export_input();
    empty.selections = Vec::new();
    assert_eq!(prepare_export(&empty, "/out").unwrap_err(), "VISUAL_EXPORT_INPUT_REQUIRED");
    let mut keyless = export_input();
    keyless.idempotency_key = " ".into();
    assert_eq!(prepare_export(&keyless, "/out").unwrap_err(), "VISUAL_EXPORT_INPUT_REQUIRED");
    let mut twice = export_input();
    twice.selections.push(selection("b"));
    assert_eq!(prepare_export(&twice, "/out").unwrap_err(), "VISUAL_EXPORT_SELECTION_DUPLICATE");
}

fn concat_lines(lines: &[&str]) -> String {
    lines.concat()
}

#[test]
fn a_repeated_export_is_replayed_and_a_changed_one_refused() {
    let receipt = || {
        Some(ExportReceipt { request_hash: "hash".into(), export_id: "export".into() })
    };
    assert!(matches!(decide_export(None, "hash").unwrap(), ExportStep::Write));
    match decide_export(receipt(), "hash").unwrap() {
        ExportStep::Replay(id) => assert_eq!(id, "export"),
        ExportStep::Write => panic!("the export exists"),
    }
    assert_eq!(
        decide_export(receipt(), "other").unwrap_err(),
        "VISUAL_EXPORT_IDEMPOTENCY_MISMATCH"
    );
    let wanted = |names: [&str; 2], destination: &str| {
        let input = ComicVisualBatchExportInput {
            project_id: "project".into(),
            novel_work_id: "work".into(),
            batch_id: "batch".into(),
            selections: names.iter().map(|name| selection(name)).collect(),
            destination_dir: "/out".into(),
            idempotency_key: "key".into(),
        };
        prepare_export(&input, destination).unwrap().request.to_text()
    };
    assert_eq!(wanted(["a", "b"], "/out"), wanted(["b", "a"], "/out"));
    assert_ne!(wanted(["a", "b"], "/out"), wanted(["a", "c"], "/out"));
    assert_ne!(wanted(["a", "b"], "/out"), wanted(["a", "b"], "/other"));
    assert_eq!(export_directory_name("e1"), "comic-pages-e1");
    assert_ne!(export_directory_name("e1"), export_directory_name("e2"));
    assert_eq!(failure_code("VISUAL_EXPORT_SOURCE_INVALID"), "VISUAL_EXPORT_SOURCE_INVALID");
    assert_eq!(failure_code("disk full"), "VISUAL_EXPORT_WRITE_FAILED");
}

#[test]
fn only_selected_candidates_of_the_batch_are_exported() {
    let load = |row: Option<ExportMemberRow>, project: &str| {
        load_selection(row, project, "work", "batch", &selection("a"))
    };
    assert_eq!(load(Some(member_row("a", 1)), "project").unwrap().ordinal, 1);
    assert_eq!(load(Some(member_row("a", 1)), "wrong-project").unwrap_err(), EXPORT_UNAVAILABLE);
    assert_eq!(load(Some(member_row("b", 1)), "project").unwrap_err(), EXPORT_UNAVAILABLE);
    assert_eq!(load(None, "project").unwrap_err(), EXPORT_UNAVAILABLE);
    let mut open = member_row("a", 1);
    open.run_status = "running".into();
    assert_eq!(load(Some(open), "project").unwrap_err(), EXPORT_UNAVAILABLE);

    assert!(check_selected_asset(&asset("asset-a", "jpg"), &selection("a"), false).is_ok());
    assert_eq!(
        check_selected_asset(&asset("asset-a", "jpg"), &selection("a"), true).unwrap_err(),
        "VISUAL_EXPORT_DEFAULT_PNG_REQUIRED"
    );
    assert_eq!(
        check_selected_asset(&asset("other", "png"), &selection("a"), true).unwrap_err(),
        EXPORT_UNAVAILABLE
    );
}

#[test]
fn exported_pages_are_named_and_digested() {
    let source = export_source(&png(), Some("png"), 7, 12).unwrap();
    assert_eq!(source.file_name, "007-page-12.png");
    assert_eq!(source.sha256, sha256(&png()));
    assert_eq!(
        sha256(&b"abc".to_vec()),
        "sha256:ba7816bf8f01cfea414140de5dae2223b00361a396177a9cb410ff61f20015ad"
    );
    assert_eq!(export_source(&png(), Some("webp"), 1234, 1).unwrap().file_name, "1234-page-1.webp");
    assert_eq!(export_source(&png(), Some("png"), -5, -1).unwrap().file_name, "-05-page--1.png");
    assert_eq!(
        export_source(&b"text".to_vec(), Some("png"), 1, 1).unwrap_err(),
        "VISUAL_EXPORT_SOURCE_INVALID"
    );
    assert_eq!(export_source(&png(), Some("gif"), 1, 1).unwrap_err(), EXPORT_UNAVAILABLE);
    assert_eq!(export_source(&png(), None, 1, 1).unwrap_err(), EXPORT_UNAVAILABLE);
}

fn files() -> Vec<ComicVisualExportFile> {
    let digest = sha256(&png());
    vec![
        export_file(&selection("a"), &member_row("a", 2), "/out/e/002.png", &digest),
        export_file(&selection("b"), &member_row("b", 1), "/out/e/001.png", &digest),
    ]
}

#[test]
fn finished_exports_are_in_page_order_and_read_back() {
    let finished = finish_export(files(), 2);
    assert_eq!(finished.files[0].ordinal, 1);
    assert_eq!(finished.files[1].ordinal, 2);
    assert_eq!(finished.manifest.text_at("kind"), Some("full_batch"));
    assert_eq!(finish_export(files(), 3).manifest.text_at("kind"), Some("subset"));
    let pretty = finished.manifest.to_pretty_text();
    assert!(pretty.contains("\n  \"candidate\": true"));
    assert!(manifests_agree(&pretty, &finished.manifest.to_text()));
    assert!(!manifests_agree("{}", &finished.manifest.to_text()));
    assert!(!manifests_agree("{", "{"));

    let header = |status: &str| {
        Some(ExportHeader {
            batch_id: "batch".into(),
            directory_path: "/out/e".into(),
            manifest_path: "/out/e/index.json".into(),
            created_at: 9,
            status: status.into(),
            selection_json: finish_export(files(), 2).manifest.to_text(),
        })
    };
    let facts = |text: &str| ExportFacts {
        directory: Some(parts("/out/e")),
        directory_is_dir: true,
        manifest: Some(parts("/out/e/index.json")),
        manifest_is_file: true,
        manifest_text: Some(text.into()),
    };
    let on_disk = |bytes: Vec<u8>| {
        vec![
            ExportFileFacts { path: Some(parts("/out/e/001.png")), bytes: Some(bytes) },
            ExportFileFacts { path: Some(parts("/out/e/002.png")), bytes: Some(png()) },
        ]
    };
    let sorted = || finish_export(files(), 2).files;
    let export =
        read_export_verified("e", header("complete"), &facts(&pretty), sorted(), &on_disk(png()))
            .unwrap();
    assert_eq!(export.files.len(), 2);
    assert_eq!(export.created_at, 9);
    assert_eq!(open_target(&export, None).unwrap(), "/out/e");
    assert_eq!(open_target(&export, Some("a")).unwrap(), "/out/e/002.png");
    assert_eq!(open_target(&export, Some("z")).unwrap_err(), EXPORT_UNAVAILABLE);
    let refused = |header, facts: &ExportFacts, files, disk: &Vec<ExportFileFacts>| {
        assert_eq!(
            read_export_verified("e", header, facts, files, disk).unwrap_err(),
            EXPORT_UNAVAILABLE
        );
    };
    refused(header("writing"), &facts(&pretty), sorted(), &on_disk(png()));
    refused(header("complete"), &facts("{}"), sorted(), &on_disk(png()));
    refused(header("complete"), &facts(&pretty), sorted(), &on_disk(vec![1]));
    refused(header("complete"), &facts(&pretty), Vec::new(), &Vec::new());
    refused(None, &facts(&pretty), sorted(), &on_disk(png()));
    let mut outside = facts(&pretty);
    outside.manifest = Some(parts("/out/index.json"));
    refused(header("complete"), &outside, sorted(), &on_disk(png()));
}

#[test]
fn default_destination_uses_only_safe_stable_identifiers() {
    assert_eq!(
        default_segments("work_1", "chapter-2").unwrap(),
        vec!["漫画导出", "work_1", "chapter-2"]
    );
    assert!(check_default_root(PathState::Directory, Some(true)).is_ok());
    assert!(create_verified_child(
        PathState::Directory,
        Some(&parts("/data/漫画导出")),
        &parts("/data")
    )
    .is_ok());
    assert_eq!(child_is_missing(PathState::Missing).unwrap(), true);
    assert_eq!(child_is_missing(PathState::Directory).unwrap(), false);
}

#[test]
fn default_destination_rejects_path_escape_segments_and_unsafe_children() {
    for invalid in ["", ".", "..", "work/name", "work\\name", "work name"] {
        assert!(safe_path_component(invalid).is_err(), "{invalid:?}");
        assert!(default_segments(invalid, "chapter").is_err());
        assert!(default_segments("work", invalid).is_err());
    }
    assert!(safe_path_component(&"a".repeat(160)).is_ok());
    assert!(safe_path_component(&"a".repeat(161)).is_err());
    let unsafe_path = "VISUAL_EXPORT_DEFAULT_PATH_UNSAFE";
    assert_eq!(child_is_missing(PathState::Other).unwrap_err(), unsafe_path);
    assert_eq!(child_is_missing(PathState::Unreadable).unwrap_err(), unsafe_path);
    assert_eq!(
        create_verified_child(PathState::Directory, Some(&parts("/else")), &parts("/data"))
            .unwrap_err(),
        unsafe_path
    );
    assert_eq!(check_default_root(PathState::Other, Some(true)).unwrap_err(), unsafe_path);
    assert_eq!(
        check_default_root(PathState::Missing, None).unwrap_err(),
        "VISUAL_EXPORT_DEFAULT_ROOT_INVALID"
    );
    assert_eq!(
        check_default_root(PathState::Directory, Some(false)).unwrap_err(),
        "VISUAL_EXPORT_DEFAULT_ROOT_INVALID"
    );
}

#[test]
fn export_directories_are_verified() {
    let directory = parts("/out/e");
    let destination = parts("/out");
    let verify = verify_created_export_directory;
    assert!(verify(PathState::Directory, Some(&directory), Some(&destination)).is_ok());
    assert_eq!(
        verify(PathState::Missing, Some(&directory), Some(&destination)).unwrap_err(),
        "VISUAL_EXPORT_DIRECTORY_CREATE_FAILED"
    );
    assert_eq!(
        verify(PathState::Directory, None, Some(&destination)).unwrap_err(),
        "VISUAL_EXPORT_DIRECTORY_CREATE_FAILED"
    );
    assert_eq!(
        verify(PathState::Other, Some(&directory), Some(&destination)).unwrap_err(),
        "VISUAL_EXPORT_PATH_UNSAFE"
    );
    assert_eq!(
        verify(PathState::Directory, Some(&destination), Some(&directory)).unwrap_err(),
        "VISUAL_EXPORT_PATH_UNSAFE"
    );
    assert!(canonical_destination(true, Some(true)).is_ok());
    for (absolute, resolved) in [(false, Some(true)), (true, Some(false)), (true, None)] {
        assert_eq!(
            canonical_destination(absolute, resolved).unwrap_err(),
            "VISUAL_EXPORT_DESTINATION_INVALID"
        );
    }
}

#[test]
fn single_pages_are_checked_before_their_destination_is_made() {
    let page = |key: &str| ComicVisualPageExportDefaultInput {
        project_id: "project".into(),
        novel_work_id: "work".into(),
        batch_id: "batch".into(),
        selection: selection("a"),
        idempotency_key: key.into(),
    };
    let found = asset("asset-a", "png");
    let photo = asset("asset-a", "jpg");
    let row = || Ok(member_row("a", 1));
    assert_eq!(check_default_page(&page("k"), row(), Ok(&found)).unwrap(), "chapter");
    assert_eq!(
        check_default_page(&page(" "), row(), Ok(&found)).unwrap_err(),
        "VISUAL_EXPORT_INPUT_REQUIRED"
    );
    assert_eq!(
        check_default_page(&page("k"), row(), Ok(&photo)).unwrap_err(),
        "VISUAL_EXPORT_DEFAULT_PNG_REQUIRED"
    );
    assert_eq!(
        check_default_page(&page("k"), Err("row".into()), Err("asset".into())).unwrap_err(),
        "row"
    );
    assert_eq!(check_default_page(&page("k"), row(), Err("asset".into())).unwrap_err(), "asset");
    let whole = default_export_input(&page("k"), "/data/out");
    assert_eq!(whole.destination_dir, "/data/out");
    assert_eq!(whole.selections.len(), 1);
    assert_eq!(whole.selections[0].asset_id, "asset-a");
}

/// Imports a batch into a list of entered assets and a list of files, with one step failing.
/// The result is the error.
fn import_into(rows: &mut Vec<String>, files: &mut Vec<String>, failing: &str) -> Option<String> {
    let result = |name: &str| if name == failing { Err("io".to_string()) } else { Ok(()) };
    let mut run = new_import(2);
    let mut event = ImportEvent::Begin;
    let mut open: Vec<String> = Vec::new();
    loop {
        event = match persist_import(&mut run, event) {
            ImportAction::Save(place) => ImportEvent::Saved(if failing == format!("save-{place}") {
                Err("io".into())
            } else {
                let mut saved = asset(&format!("asset-{place}"), "png");
                saved.path = format!("/assets/new-{place}.png");
                files.push(saved.path.clone());
                Ok(saved)
            }),
            ImportAction::Begin => ImportEvent::Begun(result("begin")),
            ImportAction::Enter(place) => {
                open.push(run.written[place].id.clone());
                ImportEvent::Entered(result(&format!("enter-{place}")))
            }
            ImportAction::Commit => {
                if failing != "commit" {
                    rows.append(&mut open);
                }
                ImportEvent::Committed(result("commit"))
            }
            ImportAction::Undo(paths) => {
                open.clear();
                files.retain(|file| !paths.contains(file));
                ImportEvent::Undone
            }
            ImportAction::Finish => return None,
            ImportAction::Fail(error) => return Some(error),
        };
    }
}

#[test]
fn removes_only_this_batch_files_when_database_insert_fails() {
    for (failing, error) in [
        ("save-0", "io"),
        ("save-1", "io"),
        ("begin", "开始外部资产导入事务失败：io"),
        ("enter-0", "登记外部资产失败：io"),
        ("enter-1", "登记外部资产失败：io"),
        ("commit", "提交外部资产导入事务失败：io"),
    ] {
        let (mut rows, mut files) = (vec!["old".to_string()], vec!["/assets/old.png".to_string()]);
        assert_eq!(import_into(&mut rows, &mut files, failing).as_deref(), Some(error));
        assert_eq!(rows, vec!["old"]);
        assert_eq!(files, vec!["/assets/old.png"]);
    }
    let (mut rows, mut files) = (vec!["old".to_string()], vec!["/assets/old.png".to_string()]);
    assert_eq!(import_into(&mut rows, &mut files, ""), None);
    assert_eq!(rows, vec!["old", "asset-0", "asset-1"]);
    assert_eq!(files.len(), 3);
}
