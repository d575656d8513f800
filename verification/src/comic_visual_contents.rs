//! What a frozen manifest holds: the plan as it stands, tied to what is stored.
use crate::comic_visual::{
    build_manifest_spec, by_scene, context_receipted, context_value, contexts_are_ordered_by_scene,
    load_contexts_spec, manifest_is, manifest_of_plan, page_is, page_output, page_step, panel_is,
    panel_output, panel_step, prepare_step_spec, put_context, put_context_keeps_order,
    read_context_spec, required_int, required_text, scene_is, ChapterSources, ComicVisualManifest,
    ComicVisualManifestPrepareInput, ContextSource, ContextView, EntityMapRow, ManifestRow,
    PrepareStepView, ProductionPage, ProductionPanel, SelectionRow,
};
use crate::digest::md5_hex;
use crate::json::{
    field, int_at, items_at, json_parsed, json_same, json_text, lemma_lookup_push, text_at,
    JsonView,
};
use crate::sequence::{lemma_first_index, lemma_try_map_ok, try_map};
use crate::text::{precedes, texts_view};
use vstd::prelude::*;

verus! {

/// Whether the receipt names an entity of a kind under a stable key.
pub open spec fn receipt_names(
    map: Seq<EntityMapRow>,
    kind: Seq<char>,
    key: Seq<char>,
    id: Seq<char>,
) -> bool {
    exists|i: int| #[trigger] receipt_row_is(map, i, kind, key, id)
}

/// Whether a row of the receipt names an entity of a kind under a stable key.
pub open spec fn receipt_row_is(
    map: Seq<EntityMapRow>,
    i: int,
    kind: Seq<char>,
    key: Seq<char>,
    id: Seq<char>,
) -> bool {
    0 <= i < map.len() && map[i].kind@ == kind && map[i].stable_key@ == key && map[i].entity_id@
        == id
}

/// Whether a frozen panel is a stored panel that holds what the frozen one says, and whose scene
/// is the one that the frozen panel names.
pub open spec fn panel_is_stored(rows: Seq<ProductionPanel>, k: int, frozen: JsonView) -> bool {
    &&& 0 <= k < rows.len()
    &&& text_at(frozen, "productionPanelId"@) == Some(rows[k].id@)
    &&& text_at(frozen, "stableKey"@) == Some(rows[k].stable_key@)
    &&& int_at(frozen, "panelNo"@) == Some(rows[k].panel_no as int)
    &&& rows[k].scene_id is Some
    &&& text_at(frozen, "productionSceneId"@) == Some(rows[k].scene_id->0@)
    &&& json_parsed(rows[k].spec_json@) == field(frozen, "spec"@)
}

/// Whether a scene with its context is the one of a frozen panel, and the one that the planned
/// panel asks for.
pub open spec fn scene_is_planned(
    contexts: Seq<ContextSource>,
    k: int,
    planned: JsonView,
    frozen: JsonView,
) -> bool {
    &&& 0 <= k < contexts.len()
    &&& text_at(frozen, "productionSceneId"@) == Some(contexts[k].production_scene_id@)
    &&& text_at(frozen, "sceneContextSnapshotId"@) == Some(contexts[k].snapshot_id@)
    &&& Some(contexts[k].planning_scene_stable_key@) == if field(
        planned,
        "planningSceneStableKey"@,
    ) is Some {
        text_at(planned, "planningSceneStableKey"@)
    } else {
        text_at(planned, "sceneStableKey"@)
    }
}

/// Whether a panel of a manifest is the planned panel, whole, as it is stored.
pub open spec fn panel_is_frozen(
    src: ChapterSources,
    rows: Seq<ProductionPanel>,
    planned: JsonView,
    frozen: JsonView,
) -> bool {
    &&& text_at(planned, "stableKey"@) is Some && text_at(planned, "stableKey"@)->0.len() > 0
    &&& text_at(frozen, "stableKey"@) == text_at(planned, "stableKey"@)
    &&& int_at(planned, "panelNo"@) is Some && int_at(planned, "panelNo"@)->0 > 0
    &&& int_at(frozen, "panelNo"@) == int_at(planned, "panelNo"@)
    &&& field(frozen, "spec"@) is Some && json_same(field(frozen, "spec"@)->0, planned)
    &&& exists|k: int| #[trigger] panel_is_stored(rows, k, frozen)
    &&& receipt_names(
        src.entity_map@,
        "production_panel"@,
        text_at(frozen, "stableKey"@)->0,
        text_at(frozen, "productionPanelId"@)->0,
    )
    &&& exists|k: int| #[trigger] scene_is_planned(src.contexts@, k, planned, frozen)
}

/// Whether a page of a manifest is a stored page with this place among the pages.
pub open spec fn page_is_stored(rows: Seq<ProductionPage>, k: int, frozen: JsonView) -> bool {
    &&& 0 <= k < rows.len()
    &&& text_at(frozen, "productionPageId"@) == Some(rows[k].id@)
    &&& text_at(frozen, "stableKey"@) == Some(rows[k].stable_key@)
    &&& int_at(frozen, "pageNo"@) == Some(rows[k].page_no as int)
}

/// Whether a page of a manifest is the planned page with all its panels, as it is stored.
pub open spec fn page_is_frozen(src: ChapterSources, planned: JsonView, frozen: JsonView) -> bool {
    let panels = items_at(planned, "panels"@);
    let out = items_at(frozen, "panels"@);
    &&& text_at(planned, "stableKey"@) is Some && text_at(planned, "stableKey"@)->0.len() > 0
    &&& text_at(frozen, "stableKey"@) == text_at(planned, "stableKey"@)
    &&& int_at(planned, "pageNo"@) is Some && int_at(planned, "pageNo"@)->0 > 0
    &&& int_at(frozen, "pageNo"@) == int_at(planned, "pageNo"@)
    &&& field(planned, "layout"@) is Some && field(planned, "layout"@)->0 is Obj
    &&& field(frozen, "layout"@) == field(planned, "layout"@)
    &&& panels is Some && out is Some && out->0.len() == panels->0.len() && out->0.len() > 0
    &&& receipt_names(
        src.entity_map@,
        "production_page"@,
        text_at(frozen, "stableKey"@)->0,
        text_at(frozen, "productionPageId"@)->0,
    )
    &&& exists|k: int| #[trigger]
        page_is_stored(src.pages@, k, frozen) && src.pages@[k].panels@.len() == out->0.len()
            && forall|j: int|
            0 <= j < out->0.len() ==> panel_is_frozen(
                src,
                src.pages@[k].panels@,
                panels->0[j],
                #[trigger] out->0[j],
            )
}

/// Whether a context of a manifest is a scene of the chapter with all that is frozen of it.
pub open spec fn context_is_frozen(rows: Seq<ContextSource>, k: int, frozen: JsonView) -> bool {
    &&& 0 <= k < rows.len()
    &&& text_at(frozen, "productionSceneId"@) == Some(rows[k].production_scene_id@)
    &&& text_at(frozen, "planningSceneStableKey"@) == Some(rows[k].planning_scene_stable_key@)
    &&& text_at(frozen, "sceneContextSnapshotId"@) == Some(rows[k].snapshot_id@)
    &&& text_at(frozen, "contextFingerprint"@) == Some(rows[k].fingerprint@)
    &&& text_at(frozen, "novelCanonVersionId"@) == Some(rows[k].canon_version_id@)
    &&& field(frozen, "novelStateVersionId"@) == Some(
        match rows[k].state_version_id {
            Some(id) => JsonView::Str(id@),
            None => JsonView::Null,
        },
    )
    &&& text_at(frozen, "continuityStateVersionId"@) == Some(rows[k].continuity_version_id@)
    &&& field(frozen, "resolvedContext"@) == json_parsed(rows[k].context_json@)
    &&& json_parsed(rows[k].context_json@) is Some
    &&& text_at(frozen, "resolvedContextHash"@) == Some(rows[k].context_hash@)
    &&& rows[k].computed_hash@ == rows[k].context_hash@
}

/// Whether a context of a manifest was read, selected by the operation and named by the receipt.
pub open spec fn scene_is_frozen(src: ChapterSources, frozen: JsonView) -> bool {
    &&& exists|k: int| #[trigger] context_is_frozen(src.contexts@, k, frozen)
    &&& operation_selects(
        src.selections@,
        text_at(frozen, "planningSceneStableKey"@)->0,
        text_at(frozen, "sceneContextSnapshotId"@)->0,
    )
    &&& receipt_names(
        src.entity_map@,
        "production_scene"@,
        text_at(frozen, "planningSceneStableKey"@)->0,
        text_at(frozen, "productionSceneId"@)->0,
    )
}

/// Whether the contexts of a manifest hold one of a scene.
pub open spec fn scene_is_held(scenes: Seq<JsonView>, id: Seq<char>) -> bool {
    exists|c: int|
        0 <= c < scenes.len() && text_at(#[trigger] scenes[c], "productionSceneId"@) == Some(id)
}

/// Whether the operation selected a context for a scene.
pub open spec fn operation_selects(
    rows: Seq<SelectionRow>,
    key: Seq<char>,
    snapshot: Seq<char>,
) -> bool {
    exists|i: int| #[trigger] selection_is(rows, i, key, snapshot)
}

/// Whether a row selects a context for a scene.
pub open spec fn selection_is(
    rows: Seq<SelectionRow>,
    i: int,
    key: Seq<char>,
    snapshot: Seq<char>,
) -> bool {
    0 <= i < rows.len() && rows[i].planning_scene_stable_key@ == key
        && rows[i].scene_context_snapshot_id@ == snapshot
}

proof fn lemma_panel_frozen(
    src: ChapterSources,
    contexts: Seq<ContextView>,
    rows: Seq<ProductionPanel>,
    planned: JsonView,
)
    requires
        load_contexts_spec(src.contexts@) == Ok::<_, Seq<char>>(contexts),
        panel_output(src.entity_map@, rows, contexts, planned) is Ok,
    ensures
        panel_is_frozen(
            src,
            rows,
            planned,
            panel_output(src.entity_map@, rows, contexts, planned)->Ok_0,
        ),
{
    broadcast use lemma_lookup_push;

    reveal_strlit("productionPanelId");
    reveal_strlit("productionSceneId");
    reveal_strlit("stableKey");
    reveal_strlit("panelNo");
    reveal_strlit("sceneContextSnapshotId");
    reveal_strlit("spec");
    assert("spec"@.len() == 4);
    assert("panelNo"@.len() == 7);
    assert("stableKey"@.len() == 9);
    assert("productionPanelId"@.len() == 17);
    assert("productionSceneId"@.len() == 17);
    assert("productionPanelId"@[10] == 'P');
    assert("productionSceneId"@[10] == 'S');
    assert("sceneContextSnapshotId"@.len() == 22);
    let frozen = panel_output(src.entity_map@, rows, contexts, planned)->Ok_0;
    let key = required_text(planned, "stableKey"@)->Ok_0;
    let no = required_int(planned, "panelNo"@)->Ok_0;
    let k = lemma_first_index(rows, panel_is(key, no));
    assert(panel_is(key, no)(rows[k]));
    assert(panel_is_stored(rows, k, frozen));
    let row = rows[k];
    let map = src.entity_map@;
    let i = choose|i: int|
        0 <= i < map.len() && (#[trigger] map[i]).kind@ == "production_panel"@
            && map[i].stable_key@ == key && map[i].entity_id@ == row.id@;
    assert(receipt_row_is(map, i, "production_panel"@, key, row.id@));
    let c = lemma_first_index(contexts, scene_is(row.scene_id->0@));
    assert(scene_is(row.scene_id->0@)(contexts[c]));
    let s = lemma_context_source(src.contexts@, contexts, c);
    assert(scene_is_planned(src.contexts@, s, planned, frozen));
}

/// The scene of the chapter from which a context was read.
proof fn lemma_context_source(
    rows: Seq<ContextSource>,
    contexts: Seq<ContextView>,
    c: int,
) -> (k: int)
    requires
        load_contexts_spec(rows) == Ok::<_, Seq<char>>(contexts),
        0 <= c < contexts.len(),
    ensures
        0 <= k < rows.len(),
        read_context_spec(rows[k]) == Ok::<_, Seq<char>>(contexts[c]),
        forall|j: int|
            k < j < rows.len() ==> (#[trigger] rows[j]).production_scene_id@
                != rows[k].production_scene_id@,
{
    let step = |r: ContextSource| read_context_spec(r);
    let read = try_map(rows, step)->Ok_0;
    lemma_try_map_ok(rows, step);
    assert(contexts == by_scene(read));
    assert(by_scene(read).contains(contexts[c]));
    let k = lemma_last_of_scene(read, contexts[c]);
    assert(step(rows[k]) == Ok::<_, Seq<char>>(read[k]));
    assert forall|j: int| k < j < rows.len() implies (#[trigger] rows[j]).production_scene_id@
        != rows[k].production_scene_id@ by {
        assert(step(rows[j]) == Ok::<_, Seq<char>>(read[j]));
    }
    k
}

/// A context by scene is the last one that was read of its scene.
proof fn lemma_last_of_scene(v: Seq<ContextView>, x: ContextView) -> (k: int)
    requires
        by_scene(v).contains(x),
    ensures
        0 <= k < v.len(),
        v[k] == x,
        forall|j: int|
            k < j < v.len() ==> (#[trigger] v[j]).production_scene_id != x.production_scene_id,
    decreases v.len(),
{
    let before = by_scene(v.drop_last());
    contexts_are_ordered_by_scene(v.drop_last());
    put_context_keeps_order(before, v.last());
    if x == v.last() {
        v.len() - 1
    } else {
        let k = lemma_last_of_scene(v.drop_last(), x);
        assert(v[k] == x);
        contexts_are_ordered_by_scene(v);
        assert(put_context(before, v.last()).contains(v.last()));
        let all = by_scene(v);
        let a = choose|a: int| 0 <= a < all.len() && all[a] == x;
        let b = choose|b: int| 0 <= b < all.len() && all[b] == v.last();
        crate::text::lemma_precedes_total(all[a].production_scene_id, all[b].production_scene_id);
        if a < b {
            assert(precedes(all[a].production_scene_id, all[b].production_scene_id));
        } else {
            assert(precedes(all[b].production_scene_id, all[a].production_scene_id));
        }
        assert forall|j: int| k < j < v.len() implies (#[trigger] v[j]).production_scene_id
            != x.production_scene_id by {
            if j < v.len() - 1 {
                assert(v.drop_last()[j] == v[j]);
            }
        }
        k
    }
}

/// Every scene that was read has its context.
proof fn lemma_scene_is_kept(v: Seq<ContextView>, k: int) -> (c: int)
    requires
        0 <= k < v.len(),
    ensures
        0 <= c < by_scene(v).len(),
        by_scene(v)[c].production_scene_id == v[k].production_scene_id,
    decreases v.len(),
{
    let before = by_scene(v.drop_last());
    contexts_are_ordered_by_scene(v.drop_last());
    put_context_keeps_order(before, v.last());
    if k == v.len() - 1 {
        choose|c: int| 0 <= c < by_scene(v).len() && by_scene(v)[c] == v.last()
    } else {
        let c = lemma_scene_is_kept(v.drop_last(), k);
        lemma_put_keeps_scene(before, v.last(), c)
    }
}

proof fn lemma_put_keeps_scene(s: Seq<ContextView>, x: ContextView, c: int) -> (d: int)
    requires
        0 <= c < s.len(),
    ensures
        0 <= d < put_context(s, x).len(),
        put_context(s, x)[d].production_scene_id == s[c].production_scene_id,
    decreases s.len(),
{
    if precedes(s[0].production_scene_id, x.production_scene_id) {
        if c == 0 {
            0
        } else {
            let rest = s.subrange(1, s.len() as int);
            let d = lemma_put_keeps_scene(rest, x, c - 1);
            assert(put_context(s, x)[d + 1] == put_context(rest, x)[d]);
            d + 1
        }
    } else if s[0].production_scene_id == x.production_scene_id {
        c
    } else {
        c + 1
    }
}

proof fn lemma_page_frozen(src: ChapterSources, contexts: Seq<ContextView>, planned: JsonView)
    requires
        load_contexts_spec(src.contexts@) == Ok::<_, Seq<char>>(contexts),
        page_output(src.entity_map@, src.pages@, contexts, planned) is Ok,
    ensures
        page_is_frozen(
            src,
            planned,
            page_output(src.entity_map@, src.pages@, contexts, planned)->Ok_0,
        ),
{
    broadcast use lemma_lookup_push;

    reveal_strlit("productionPageId");
    reveal_strlit("stableKey");
    reveal_strlit("pageNo");
    reveal_strlit("layout");
    reveal_strlit("panels");
    assert("pageNo"@.len() == 6);
    assert("layout"@.len() == 6);
    assert("panels"@.len() == 6);
    assert("pageNo"@[0] == 'p');
    assert("layout"@[0] == 'l');
    assert("panels"@[0] == 'p');
    assert("pageNo"@[2] == 'g');
    assert("layout"@[2] == 'y');
    assert("panels"@[2] == 'n');
    assert("stableKey"@.len() == 9);
    assert("productionPageId"@.len() == 16);
    let frozen = page_output(src.entity_map@, src.pages@, contexts, planned)->Ok_0;
    let key = required_text(planned, "stableKey"@)->Ok_0;
    let no = required_int(planned, "pageNo"@)->Ok_0;
    let k = lemma_first_index(src.pages@, page_is(key, no));
    assert(page_is(key, no)(src.pages@[k]));
    let row = src.pages@[k];
    let map = src.entity_map@;
    let i = choose|i: int|
        0 <= i < map.len() && (#[trigger] map[i]).kind@ == "production_page"@ && map[i].stable_key@
            == key && map[i].entity_id@ == row.id@;
    assert(receipt_row_is(map, i, "production_page"@, key, row.id@));
    let panels = items_at(planned, "panels"@)->0;
    let step = panel_step(map, row.panels@, contexts);
    lemma_try_map_ok(panels, step);
    let out = try_map(panels, step)->Ok_0;
    assert(items_at(frozen, "panels"@) == Some(out));
    assert forall|j: int| 0 <= j < out.len() implies panel_is_frozen(
        src,
        row.panels@,
        panels[j],
        #[trigger] out[j],
    ) by {
        assert(step(panels[j]) == Ok::<_, Seq<char>>(out[j]));
        lemma_panel_frozen(src, contexts, row.panels@, panels[j]);
    }
    assert(page_is_stored(src.pages@, k, frozen));
}

/// A frozen manifest holds the plan, whole and unchanged. It has a page for each planned page,
/// in the order of the plan, with its key, number and layout, and each page a panel for each
/// planned panel, in their order, whose specification is the planned panel. Pages, panels and
/// scenes carry the identifiers under which they are stored and which the receipt names.
pub proof fn manifest_holds_the_plan(src: ChapterSources, plan: Option<JsonView>)
    requires
        manifest_of_plan(src, plan) is Ok,
    ensures
        build_manifest_spec(src) == manifest_of_plan(src, json_parsed(src.plan_json@)),
        ({
            let manifest = manifest_of_plan(src, plan)->Ok_0.manifest;
            let planned = items_at(plan->0, "pages"@);
            let pages = items_at(manifest, "pages"@);
            &&& plan is Some
            &&& planned is Some && pages is Some
            &&& pages->0.len() == planned->0.len() && pages->0.len() > 0
            &&& pages->0.len() == src.pages@.len()
            &&& forall|i: int|
                0 <= i < pages->0.len() ==> page_is_frozen(
                    src,
                    planned->0[i],
                    #[trigger] pages->0[i],
                )
        }),
{
    broadcast use lemma_lookup_push;

    reveal_strlit("schemaVersion");
    reveal_strlit("provenance");
    reveal_strlit("pages");
    assert("pages"@.len() == 5);
    assert("provenance"@.len() == 10);
    assert("schemaVersion"@.len() == 13);
    let planned = items_at(plan->0, "pages"@)->0;
    let contexts = load_contexts_spec(src.contexts@)->Ok_0;
    let step = page_step(src.entity_map@, src.pages@, contexts);
    lemma_try_map_ok(planned, step);
    let out = try_map(planned, step)->Ok_0;
    let manifest = manifest_of_plan(src, plan)->Ok_0.manifest;
    assert(items_at(manifest, "pages"@) == Some(out));
    assert forall|i: int| 0 <= i < out.len() implies page_is_frozen(
        src,
        planned[i],
        #[trigger] out[i],
    ) by {
        assert(step(planned[i]) == Ok::<_, Seq<char>>(out[i]));
        lemma_page_frozen(src, contexts, planned[i]);
    }
}

proof fn lemma_context_fields(c: ContextView)
    ensures
        ({
            let v = context_value(c);
            &&& text_at(v, "productionSceneId"@) == Some(c.production_scene_id)
            &&& text_at(v, "planningSceneStableKey"@) == Some(c.planning_scene_stable_key)
            &&& text_at(v, "sceneContextSnapshotId"@) == Some(c.snapshot_id)
            &&& text_at(v, "contextFingerprint"@) == Some(c.fingerprint)
            &&& text_at(v, "novelCanonVersionId"@) == Some(c.canon_version_id)
            &&& field(v, "novelStateVersionId"@) == Some(
                match c.state_version_id {
                    Some(id) => JsonView::Str(id),
                    None => JsonView::Null,
                },
            )
            &&& text_at(v, "continuityStateVersionId"@) == Some(c.continuity_version_id)
            &&& field(v, "resolvedContext"@) == Some(c.resolved_context)
            &&& text_at(v, "resolvedContextHash"@) == Some(c.resolved_context_hash)
        }),
{
    broadcast use lemma_lookup_push;

    reveal_strlit("productionSceneId");
    reveal_strlit("planningSceneStableKey");
    reveal_strlit("sceneContextSnapshotId");
    reveal_strlit("contextFingerprint");
    reveal_strlit("novelCanonVersionId");
    reveal_strlit("novelStateVersionId");
    reveal_strlit("continuityStateVersionId");
    reveal_strlit("resolvedContext");
    reveal_strlit("resolvedContextHash");
    assert("resolvedContext"@.len() == 15);
    assert("productionSceneId"@.len() == 17);
    assert("contextFingerprint"@.len() == 18);
    assert("novelCanonVersionId"@.len() == 19);
    assert("novelStateVersionId"@.len() == 19);
    assert("resolvedContextHash"@.len() == 19);
    assert("novelCanonVersionId"@[5] == 'C');
    assert("novelStateVersionId"@[5] == 'S');
    assert("resolvedContextHash"@[5] == 'v');
    assert("planningSceneStableKey"@.len() == 22);
    assert("sceneContextSnapshotId"@.len() == 22);
    assert("planningSceneStableKey"@[0] == 'p');
    assert("sceneContextSnapshotId"@[0] == 's');
    assert("continuityStateVersionId"@.len() == 24);
}

proof fn lemma_origin(src: ChapterSources, plan: Option<JsonView>)
    requires
        manifest_of_plan(src, plan) is Ok,
    ensures
        ({
            let manifest = manifest_of_plan(src, plan)->Ok_0.manifest;
            let origin = field(manifest, "provenance"@);
            let contexts = load_contexts_spec(src.contexts@)->Ok_0;
            &&& text_at(manifest, "schemaVersion"@) == Some("comic-visual.v1"@)
            &&& origin is Some
            &&& text_at(origin->0, "planningChapterStableKey"@) == Some(
                src.scope->0.planning_chapter_stable_key@,
            )
            &&& items_at(origin->0, "sourceRevisionIds"@) == Some(
                texts_view(src.source_revision_ids@).map_values(|r: Seq<char>| JsonView::Str(r)),
            )
            &&& items_at(origin->0, "sceneContexts"@) == Some(
                contexts.map_values(|c: ContextView| context_value(c)),
            )
        }),
{
    broadcast use lemma_lookup_push;

    reveal_strlit("schemaVersion");
    reveal_strlit("provenance");
    reveal_strlit("pages");
    assert("pages"@.len() == 5);
    assert("provenance"@.len() == 10);
    assert("schemaVersion"@.len() == 13);
    reveal_strlit("planningChapterStableKey");
    reveal_strlit("sourceRevisionIds");
    reveal_strlit("sceneContexts");
    assert("sceneContexts"@.len() == 13);
    assert("sourceRevisionIds"@.len() == 17);
    assert("planningChapterStableKey"@.len() == 24);
}

/// A frozen manifest says where it comes from: the contract version, the planned chapter, which
/// the receipt names, all source revisions in their order, and the context of every scene, in
/// the order of the scenes, as it was resolved and selected; the digest is that of the manifest's
/// own text, and the plan revision that of the chapter.
pub proof fn manifest_says_where_it_comes_from(src: ChapterSources, plan: Option<JsonView>)
    requires
        manifest_of_plan(src, plan) is Ok,
    ensures
        ({
            let built = manifest_of_plan(src, plan)->Ok_0;
            let origin = field(built.manifest, "provenance"@);
            let ids = items_at(origin->0, "sourceRevisionIds"@);
            let scenes = items_at(origin->0, "sceneContexts"@);
            &&& src.scope is Some
            &&& built.page_panel_plan_revision_id == src.scope->0.page_panel_plan_revision_id@
            &&& built.fingerprint == md5_hex(json_text(built.manifest))
            &&& text_at(built.manifest, "schemaVersion"@) == Some("comic-visual.v1"@)
            &&& origin is Some
            &&& text_at(origin->0, "planningChapterStableKey"@) == Some(
                src.scope->0.planning_chapter_stable_key@,
            )
            &&& receipt_names(
                src.entity_map@,
                "production_chapter"@,
                src.scope->0.planning_chapter_stable_key@,
                src.production_chapter_id@,
            )
            &&& ids is Some && ids->0.len() == src.source_revision_ids@.len() && ids->0.len() > 0
            &&& forall|i: int|
                0 <= i < ids->0.len() ==> #[trigger] ids->0[i] == JsonView::Str(
                    src.source_revision_ids@[i]@,
                )
            &&& scenes is Some && scenes->0.len() == src.scene_count && scenes->0.len() > 0
            &&& forall|c: int|
                0 <= c < scenes->0.len() ==> scene_is_frozen(src, #[trigger] scenes->0[c])
            &&& forall|k: int|
                0 <= k < src.contexts@.len() ==> scene_is_held(
                    scenes->0,
                    (#[trigger] src.contexts@[k]).production_scene_id@,
                )
            &&& forall|c: int, d: int|
                0 <= c < d < scenes->0.len() ==> precedes(
                    text_at(#[trigger] scenes->0[c], "productionSceneId"@)->0,
                    text_at(#[trigger] scenes->0[d], "productionSceneId"@)->0,
                )
        }),
{
    let built = manifest_of_plan(src, plan)->Ok_0;
    let origin = field(built.manifest, "provenance"@)->0;
    let contexts = load_contexts_spec(src.contexts@)->Ok_0;
    lemma_origin(src, plan);
    let scenes = items_at(origin, "sceneContexts"@)->0;
    assert(scenes == contexts.map_values(|c: ContextView| context_value(c)));
    let map = src.entity_map@;
    let chapter = src.scope->0.planning_chapter_stable_key@;
    let m = choose|i: int|
        0 <= i < map.len() && (#[trigger] map[i]).kind@ == "production_chapter"@
            && map[i].stable_key@ == chapter && map[i].entity_id@ == src.production_chapter_id@;
    assert(receipt_row_is(map, m, "production_chapter"@, chapter, src.production_chapter_id@));
    assert forall|c: int| 0 <= c < scenes.len() implies scene_is_frozen(
        src,
        #[trigger] scenes[c],
    ) by {
        let x = contexts[c];
        assert(scenes[c] == context_value(x));
        lemma_context_fields(x);
        let s = lemma_context_source(src.contexts@, contexts, c);
        assert(context_is_frozen(src.contexts@, s, scenes[c]));
        assert(context_receipted(src, x));
        let picked = src.selections@;
        let k = choose|k: int|
            0 <= k < picked.len() && (#[trigger] picked[k]).planning_scene_stable_key@
                == x.planning_scene_stable_key && picked[k].scene_context_snapshot_id@
                == x.snapshot_id;
        assert(selection_is(picked, k, x.planning_scene_stable_key, x.snapshot_id));
        let i = choose|i: int|
            0 <= i < map.len() && (#[trigger] map[i]).kind@ == "production_scene"@
                && map[i].stable_key@ == x.planning_scene_stable_key && map[i].entity_id@
                == x.production_scene_id;
        assert(receipt_row_is(
            map,
            i,
            "production_scene"@,
            x.planning_scene_stable_key,
            x.production_scene_id,
        ));
        assert(exists|k: int| #[trigger] context_is_frozen(src.contexts@, k, scenes[c]));
        assert(operation_selects(picked, x.planning_scene_stable_key, x.snapshot_id));
        assert(receipt_names(
            src.entity_map@,
            "production_scene"@,
            text_at(scenes[c], "planningSceneStableKey"@)->0,
            text_at(scenes[c], "productionSceneId"@)->0,
        ));
    }
    let step = |r: ContextSource| read_context_spec(r);
    lemma_try_map_ok(src.contexts@, step);
    let read = try_map(src.contexts@, step)->Ok_0;
    assert forall|k: int| 0 <= k < src.contexts@.len() implies scene_is_held(
        scenes,
        (#[trigger] src.contexts@[k]).production_scene_id@,
    ) by {
        assert(step(src.contexts@[k]) == Ok::<_, Seq<char>>(read[k]));
        let c = lemma_scene_is_kept(read, k);
        assert(scenes[c] == context_value(contexts[c]));
        lemma_context_fields(contexts[c]);
        assert(text_at(scenes[c], "productionSceneId"@) == Some(
            src.contexts@[k].production_scene_id@,
        ));
    }
    contexts_are_ordered_by_scene(read);
    assert forall|c: int, d: int| 0 <= c < d < scenes.len() implies precedes(
        text_at(#[trigger] scenes[c], "productionSceneId"@)->0,
        text_at(#[trigger] scenes[d], "productionSceneId"@)->0,
    ) by {
        assert(scenes[c] == context_value(contexts[c]));
        lemma_context_fields(contexts[c]);
        assert(scenes[d] == context_value(contexts[d]));
        lemma_context_fields(contexts[d]);
        assert(precedes(contexts[c].production_scene_id, contexts[d].production_scene_id));
    }
}

/// A manifest that is read is the one that is stored, with what its text says; it counts as
/// current just while its sources are the active ones.
pub proof fn read_manifest_is_the_stored_one(
    m: ComicVisualManifest,
    row: ManifestRow,
    value: JsonView,
    scope_ready: bool,
)
    requires
        manifest_is(m, row, value, scope_ready),
    ensures
        m.id@ == row.id@,
        m.contract_version@ == row.contract_version@,
        m.project_id@ == row.project_id@,
        m.novel_work_id@ == row.novel_work_id@,
        m.comic_adaptation_id@ == row.comic_adaptation_id@,
        m.apply_operation_id@ == row.apply_operation_id@,
        m.production_chapter_id@ == row.production_chapter_id@,
        m.page_panel_plan_revision_id@ == row.page_panel_plan_revision_id@,
        m.manifest_fingerprint@ == row.manifest_fingerprint@,
        m.created_at == row.created_at,
        m.manifest@ == value,
        m.freshness@ == "ready"@ <==> scope_ready,
        !scope_ready ==> m.freshness@ == "stale"@,
{
    reveal_strlit("ready");
    reveal_strlit("stale");
    assert("ready"@.len() == 5);
    assert("stale"@.len() == 5);
    assert("ready"@[0] == 'r');
    assert("stale"@[0] == 's');
}

/// What a preparation does: a used key gives back its own manifest, for its own request only;
/// a chapter that has a manifest keeps it, and hands it out only to its owner and only while it
/// is current; and only a chapter without one gets a new one.
pub proof fn preparation_never_replaces_a_manifest(
    input: ComicVisualManifestPrepareInput,
    request_hash: Seq<char>,
    receipt: Option<(Seq<char>, Seq<char>)>,
    existing: Option<ManifestRow>,
    scope_ready: bool,
)
    ensures
        ({
            let step = prepare_step_spec(input, request_hash, receipt, existing, scope_ready);
            let owned = existing is Some && existing->0.project_id@ == input.project_id@
                && existing->0.novel_work_id@ == input.novel_work_id@
                && existing->0.comic_adaptation_id@ == input.comic_adaptation_id@
                && existing->0.apply_operation_id@ == input.apply_operation_id@
                && existing->0.production_chapter_id@ == input.production_chapter_id@;
            &&& step is Ok && step->Ok_0 is Build <==> receipt is None && existing is None
            &&& receipt matches Some(r) ==> if r.0 == request_hash {
                step == Ok::<PrepareStepView, Seq<char>>(PrepareStepView::Replay(r.1))
            } else {
                step == Err::<PrepareStepView, Seq<char>>("IDEMPOTENCY_MISMATCH"@)
            }
            &&& receipt is None && existing is Some ==> if owned && scope_ready {
                step == Ok::<PrepareStepView, Seq<char>>(PrepareStepView::Reuse(existing->0.id@))
            } else {
                step is Err
            }
        }),
{
}

/// A planned page or panel has a key that is not empty and a number above zero.
pub proof fn planned_parts_have_key_and_number(value: JsonView, key: Seq<char>)
    ensures
        match text_at(value, key) {
            Some(s) => required_text(value, key) == if s.len() > 0 {
                Ok::<Seq<char>, Seq<char>>(s)
            } else {
                Err("VISUAL_MANIFEST_PLAN_INVALID"@)
            },
            None => required_text(value, key) is Err,
        },
        match int_at(value, key) {
            Some(n) => required_int(value, key) == if n >= 1 {
                Ok::<int, Seq<char>>(n)
            } else {
                Err("VISUAL_MANIFEST_PLAN_INVALID"@)
            },
            None => required_int(value, key) is Err,
        },
{
}

/// The contexts of a chapter are read just where there is one, every one of them is JSON, and
/// the digest of every one is the stored one.
pub proof fn contexts_are_read_when_unchanged(rows: Seq<ContextSource>)
    ensures
        load_contexts_spec(rows) is Ok <==> rows.len() > 0 && forall|i: int|
            0 <= i < rows.len() ==> json_parsed((#[trigger] rows[i]).context_json@) is Some
                && rows[i].computed_hash@ == rows[i].context_hash@,
{
    let f = |r: ContextSource| read_context_spec(r);
    lemma_try_map_ok(rows, f);
    if forall|i: int| 0 <= i < rows.len() ==> (#[trigger] f(rows[i])) is Ok {
        assert forall|i: int| 0 <= i < rows.len() implies json_parsed(
            (#[trigger] rows[i]).context_json@,
        ) is Some && rows[i].computed_hash@ == rows[i].context_hash@ by {
            assert(f(rows[i]) is Ok);
        }
    }
}

} // verus!
