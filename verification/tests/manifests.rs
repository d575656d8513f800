use image_client::comic_visual::{
    build_manifest, ensure_entity_map, load_contexts, manifest_from_row, ChapterScope,
    ChapterSources, ContextSource, EntityMapRow, ManifestRow, ProductionPage, ProductionPanel,
    SelectionRow,
};
use image_client::json::Json;
use image_client::text::{
    after_last, before, byte_count, decimal_i64, decimal_u128, parse_u32, rsplit_once, split_once,
    text_precedes, to_ascii_lowercase, trim,
};

fn mapped(kind: &str, key: &str, id: &str) -> EntityMapRow {
    EntityMapRow { kind: kind.into(), stable_key: key.into(), entity_id: id.into() }
}

fn context(scene: &str, key: &str) -> ContextSource {
    ContextSource {
        production_scene_id: scene.into(),
        planning_scene_stable_key: key.into(),
        snapshot_id: format!("snapshot-{scene}"),
        fingerprint: "fingerprint".into(),
        canon_version_id: "canon".into(),
        state_version_id: None,
        continuity_version_id: "continuity".into(),
        context_json: r#"{"weather":"rain"}"#.into(),
        context_hash: "hash".into(),
        computed_hash: "hash".into(),
    }
}

const PANEL: &str = r#"{"stableKey":"panel-1","panelNo":1,"planningSceneStableKey":"scene-b"}"#;

fn chapter() -> ChapterSources {
    ChapterSources {
        production_chapter_id: "chapter".into(),
        scope: Some(ChapterScope {
            planning_chapter_stable_key: "planned".into(),
            page_panel_plan_revision_id: "revision".into(),
        }),
        entity_map: vec![
            mapped("production_chapter", "planned", "chapter"),
            mapped("production_scene", "scene-a", "s1"),
            mapped("production_scene", "scene-b", "s0"),
            mapped("production_page", "page-1", "p1"),
            mapped("production_panel", "panel-1", "x1"),
        ],
        source_revision_ids: vec!["source".into()],
        plan_json: format!(
            r#"{{"pages":[{{"stableKey":"page-1","pageNo":1,"layout":{{}},"panels":[{PANEL}]}}]}}"#
        ),
        contexts: vec![context("s1", "scene-a"), context("s0", "scene-b")],
        scene_count: 2,
        selections: vec![
            SelectionRow {
                planning_scene_stable_key: "scene-a".into(),
                scene_context_snapshot_id: "snapshot-s1".into(),
            },
            SelectionRow {
                planning_scene_stable_key: "scene-b".into(),
                scene_context_snapshot_id: "snapshot-s0".into(),
            },
        ],
        pages: vec![ProductionPage {
            id: "p1".into(),
            stable_key: "page-1".into(),
            page_no: 1,
            panels: vec![ProductionPanel {
                id: "x1".into(),
                scene_id: Some("s0".into()),
                stable_key: "panel-1".into(),
                panel_no: 1,
                spec_json: PANEL.into(),
            }],
        }],
    }
}

#[test]
fn manifests_are_built_from_the_applied_plan() {
    let built = build_manifest(&chapter()).unwrap();
    assert_eq!(built.page_panel_plan_revision_id, "revision");
    let pages = built.manifest.items_at("pages").unwrap();
    assert_eq!(pages.len(), 1);
    assert_eq!(pages[0].text_at("productionPageId"), Some("p1"));
    let panels = pages[0].items_at("panels").unwrap();
    assert_eq!(panels[0].text_at("productionPanelId"), Some("x1"));
    assert_eq!(panels[0].text_at("sceneContextSnapshotId"), Some("snapshot-s0"));
    let provenance = built.manifest.get("provenance").unwrap();
    let contexts = provenance.items_at("sceneContexts").unwrap();
    assert_eq!(contexts[0].text_at("productionSceneId"), Some("s0"));
    assert_eq!(contexts[1].text_at("productionSceneId"), Some("s1"));

    let row = ManifestRow {
        id: "m".into(),
        contract_version: "comic-visual.v1".into(),
        project_id: "project".into(),
        novel_work_id: "work".into(),
        comic_adaptation_id: "adaptation".into(),
        apply_operation_id: "operation".into(),
        production_chapter_id: "chapter".into(),
        page_panel_plan_revision_id: "revision".into(),
        manifest_fingerprint: built.fingerprint,
        created_at: 1,
        manifest_json: built.manifest.to_text(),
    };
    let read = manifest_from_row(row, Ok(true)).unwrap();
    assert!(read.manifest.same(&built.manifest));
}

#[test]
fn manifests_fail_closed() {
    let error = |change: fn(&mut ChapterSources)| {
        let mut sources = chapter();
        change(&mut sources);
        build_manifest(&sources).unwrap_err()
    };
    assert_eq!(error(|s| s.scope = None), "VISUAL_MANIFEST_STALE_OR_SCOPE_MISMATCH");
    assert_eq!(error(|s| s.entity_map.clear()), "VISUAL_MANIFEST_RECEIPT_MISMATCH");
    assert_eq!(error(|s| s.source_revision_ids.clear()), "VISUAL_MANIFEST_SOURCE_MISSING");
    assert_eq!(error(|s| s.plan_json = "{".into()), "VISUAL_MANIFEST_PLAN_INVALID");
    assert_eq!(error(|s| s.plan_json = r#"{"pages":[]}"#.into()), "VISUAL_MANIFEST_PLAN_INVALID");
    assert_eq!(error(|s| s.contexts.clear()), "VISUAL_MANIFEST_CONTEXT_MISSING");
    assert_eq!(error(|s| s.scene_count = 3), "VISUAL_MANIFEST_CONTEXT_MISSING");
    assert_eq!(
        error(|s| s.contexts[0].computed_hash = "other".into()),
        "VISUAL_MANIFEST_CONTEXT_MISMATCH"
    );
    assert_eq!(error(|s| s.selections.clear()), "VISUAL_MANIFEST_RECEIPT_MISMATCH");
    assert_eq!(error(|s| s.pages.clear()), "VISUAL_MANIFEST_TREE_MISMATCH");
    assert_eq!(
        error(|s| s.pages[0].panels[0].spec_json = "{}".into()),
        "VISUAL_MANIFEST_TREE_MISMATCH"
    );
    assert_eq!(
        error(|s| s.pages[0].panels[0].scene_id = None),
        "VISUAL_MANIFEST_CONTEXT_MISSING"
    );
    assert_eq!(
        error(|s| s.pages[0].panels[0].scene_id = Some("s1".into())),
        "VISUAL_MANIFEST_TREE_MISMATCH"
    );
    let loaded = load_contexts(&chapter().contexts).unwrap();
    assert_eq!(loaded[0].production_scene_id, "s0");
    assert_eq!(loaded[0].resolved_context, Json::from_text(r#"{"weather":"rain"}"#).unwrap());
    assert!(ensure_entity_map(&chapter().entity_map, "production_page", "page-1", "p1").is_ok());
    assert!(ensure_entity_map(&chapter().entity_map, "production_page", "page-1", "p2").is_err());
}

#[test]
fn json_is_compared_by_content() {
    let read = |text: &str| Json::from_text(text).unwrap();
    assert!(read(r#"{"a":1,"b":[2]}"#).same(&read(r#"{"b":[2],"a":1}"#)));
    assert!(!read(r#"{"a":1}"#).same(&read(r#"{"a":1.0}"#)));
    assert!(read("0.0").same(&read("-0.0")));
    assert!(!read("[1,2]").same(&read("[2,1]")));
    assert_eq!(read(r#"{"b":1,"a":2}"#).to_text(), r#"{"a":2,"b":1}"#);
    assert!(Json::from_text("{").is_none());
    assert_eq!(read("18446744073709551615"), Json::Uint(u64::MAX));
}

#[test]
fn texts_are_cut_as_the_standard_library_cuts_them() {
    for s in ["", " ", "a", " a b ", "\u{3000}x\u{a0}", "a.b.c", "字.符", "\u{85}\tq\n", "ÀB"] {
        assert_eq!(trim(s), s.trim());
        assert_eq!(before(s, '.'), s.split('.').next().unwrap());
        assert_eq!(after_last(s, '.'), s.rsplit('.').next().unwrap());
        assert_eq!(
            split_once(s, '.'),
            s.split_once('.').map(|p| (p.0.to_string(), p.1.to_string()))
        );
        assert_eq!(
            rsplit_once(s, '.'),
            s.rsplit_once('.').map(|p| (p.0.to_string(), p.1.to_string()))
        );
        assert_eq!(to_ascii_lowercase(s), s.to_ascii_lowercase());
        assert_eq!(byte_count(s), s.len());
        for t in ["", "a", "b", "字", "𝒳", "\u{ffff}"] {
            assert_eq!(text_precedes(s, t), s < t, "{s:?} {t:?}");
        }
    }
    for s in ["", "+", "+7", "-7", "007", "4294967295", "4294967296", "1 ", "九"] {
        assert_eq!(parse_u32(s), s.parse::<u32>().ok(), "{s:?}");
    }
    for n in [0, -1, 10, i64::MIN, i64::MAX] {
        assert_eq!(decimal_i64(n), n.to_string());
    }
    assert_eq!(decimal_u128(u128::MAX), u128::MAX.to_string());
}
