//! Immutable renderer inputs for novel-backed comic production.
//!
//! A manifest is frozen from an applied, adopted plan: every page, panel and scene context of
//! the chapter must agree with the plan and with the receipt of the applied operation. The
//! library decides on rows that the caller has read; it performs no storage access itself.
use crate::digest::{md5_digest, md5_hex};
use crate::json::{
    as_text, field, fields, int_at, is_plain, items_at, items_view, json_array, json_parsed,
    json_same, json_text, json_text_value, lemma_lookup, no_members, parse, render, text_at, Json,
    JsonView,
};
use crate::sequence::{
    find_first, lemma_find_first, lemma_first_index, lemma_try_map_error, lemma_try_map_ok,
    lemma_try_map_step, try_map,
};
use crate::text::{
    lemma_precedes_total, lemma_precedes_trans, opt_view, owned, precedes, result_view, same,
    text_precedes, texts_view,
};
use vstd::prelude::*;

verus! {

/// The command name under which prepared manifests are receipted.
pub const COMMAND_PREPARE: &'static str = "comic_visual_manifest_prepare";

/// The version of the manifest contract.
pub const CONTRACT_VERSION: &'static str = "comic-visual.v1";

#[derive(Debug)]
pub struct ComicVisualManifestPrepareInput {
    pub project_id: String,
    pub novel_work_id: String,
    pub comic_adaptation_id: String,
    pub apply_operation_id: String,
    pub production_chapter_id: String,
    pub idempotency_key: String,
}

#[derive(Debug)]
pub struct ComicVisualManifestGetInput {
    pub project_id: String,
    pub novel_work_id: String,
    pub manifest_id: String,
}

#[derive(Debug)]
pub struct ComicVisualManifestListInput {
    pub project_id: String,
    pub novel_work_id: String,
    pub production_chapter_id: String,
}

/// A stored manifest with its freshness.
#[derive(Debug)]
pub struct ComicVisualManifest {
    pub id: String,
    pub contract_version: String,
    pub project_id: String,
    pub novel_work_id: String,
    pub comic_adaptation_id: String,
    pub apply_operation_id: String,
    pub production_chapter_id: String,
    pub page_panel_plan_revision_id: String,
    pub freshness: String,
    pub manifest_fingerprint: String,
    pub created_at: i64,
    pub manifest: Json,
}

/// A manifest row as it is stored.
#[derive(Debug)]
pub struct ManifestRow {
    pub id: String,
    pub contract_version: String,
    pub project_id: String,
    pub novel_work_id: String,
    pub comic_adaptation_id: String,
    pub apply_operation_id: String,
    pub production_chapter_id: String,
    pub page_panel_plan_revision_id: String,
    pub manifest_fingerprint: String,
    pub created_at: i64,
    pub manifest_json: String,
}

// ---------------------------------------------------------------------------
// Fields of a plan
// ---------------------------------------------------------------------------

/// A text field that must be there and not empty.
pub open spec fn required_text(value: JsonView, key: Seq<char>) -> Result<Seq<char>, Seq<char>> {
    match text_at(value, key) {
        Some(s) => if s.len() > 0 {
            Ok(s)
        } else {
            Err("VISUAL_MANIFEST_PLAN_INVALID"@)
        },
        None => Err("VISUAL_MANIFEST_PLAN_INVALID"@),
    }
}

/// A positive integer field that must be there.
pub open spec fn required_int(value: JsonView, key: Seq<char>) -> Result<int, Seq<char>> {
    match int_at(value, key) {
        Some(i) => if i > 0 {
            Ok(i)
        } else {
            Err("VISUAL_MANIFEST_PLAN_INVALID"@)
        },
        None => Err("VISUAL_MANIFEST_PLAN_INVALID"@),
    }
}

/// A text field that must be there and not empty.
pub fn required_str(value: &Json, key: &str) -> (r: Result<String, String>)
    ensures
        result_view(r) == required_text(value@, key@),
{
    match value.text_at(key) {
        Some(s) => if s.is_empty() {
            Err(owned("VISUAL_MANIFEST_PLAN_INVALID"))
        } else {
            Ok(owned(s))
        },
        None => Err(owned("VISUAL_MANIFEST_PLAN_INVALID")),
    }
}

/// A positive integer field that must be there.
pub fn required_i64(value: &Json, key: &str) -> (r: Result<i64, String>)
    ensures
        (match r {
            Ok(i) => Ok(i as int),
            Err(e) => Err(e@),
        }) == required_int(value@, key@),
{
    match value.int_at(key) {
        Some(i) => if i > 0 {
            Ok(i)
        } else {
            Err(owned("VISUAL_MANIFEST_PLAN_INVALID"))
        },
        None => Err(owned("VISUAL_MANIFEST_PLAN_INVALID")),
    }
}

// ---------------------------------------------------------------------------
// Rows from which a manifest is frozen
// ---------------------------------------------------------------------------

/// An entity that the apply receipt maps to a stable key.
#[derive(Debug)]
pub struct EntityMapRow {
    pub kind: String,
    pub stable_key: String,
    pub entity_id: String,
}

/// A scene context that the apply operation selected.
#[derive(Debug)]
pub struct SelectionRow {
    pub planning_scene_stable_key: String,
    pub scene_context_snapshot_id: String,
}

/// A scene of the chapter with its frozen context; `computed_hash` is the request hash of the
/// context that `context_json` holds.
#[derive(Debug)]
pub struct ContextSource {
    pub production_scene_id: String,
    pub planning_scene_stable_key: String,
    pub snapshot_id: String,
    pub fingerprint: String,
    pub canon_version_id: String,
    pub state_version_id: Option<String>,
    pub continuity_version_id: String,
    pub context_json: String,
    pub context_hash: String,
    pub computed_hash: String,
}

#[derive(Debug)]
pub struct ProductionPanel {
    pub id: String,
    pub scene_id: Option<String>,
    pub stable_key: String,
    pub panel_no: i64,
    pub spec_json: String,
}

#[derive(Debug)]
pub struct ProductionPage {
    pub id: String,
    pub stable_key: String,
    pub page_no: i64,
    pub panels: Vec<ProductionPanel>,
}

/// The active scope of a chapter.
#[derive(Debug)]
pub struct ChapterScope {
    pub planning_chapter_stable_key: String,
    pub page_panel_plan_revision_id: String,
}

/// Everything that is stored about a chapter and its apply operation.
#[derive(Debug)]
pub struct ChapterSources {
    pub production_chapter_id: String,
    pub scope: Option<ChapterScope>,
    pub entity_map: Vec<EntityMapRow>,
    pub source_revision_ids: Vec<String>,
    pub plan_json: String,
    pub contexts: Vec<ContextSource>,
    pub scene_count: i64,
    pub selections: Vec<SelectionRow>,
    pub pages: Vec<ProductionPage>,
}

/// A scene context whose text has been read and whose hash agrees.
#[derive(Debug)]
pub struct ContextRow {
    pub production_scene_id: String,
    pub planning_scene_stable_key: String,
    pub snapshot_id: String,
    pub fingerprint: String,
    pub canon_version_id: String,
    pub state_version_id: Option<String>,
    pub continuity_version_id: String,
    pub resolved_context: Json,
    pub resolved_context_hash: String,
}

/// What a scene context says.
pub struct ContextView {
    pub production_scene_id: Seq<char>,
    pub planning_scene_stable_key: Seq<char>,
    pub snapshot_id: Seq<char>,
    pub fingerprint: Seq<char>,
    pub canon_version_id: Seq<char>,
    pub state_version_id: Option<Seq<char>>,
    pub continuity_version_id: Seq<char>,
    pub resolved_context: JsonView,
    pub resolved_context_hash: Seq<char>,
}

impl View for ContextRow {
    type V = ContextView;

    open spec fn view(&self) -> ContextView {
        ContextView {
            production_scene_id: self.production_scene_id@,
            planning_scene_stable_key: self.planning_scene_stable_key@,
            snapshot_id: self.snapshot_id@,
            fingerprint: self.fingerprint@,
            canon_version_id: self.canon_version_id@,
            state_version_id: opt_view(self.state_version_id),
            continuity_version_id: self.continuity_version_id@,
            resolved_context: self.resolved_context@,
            resolved_context_hash: self.resolved_context_hash@,
        }
    }
}

/// The views of a list of scene contexts.
pub open spec fn contexts_view(v: Seq<ContextRow>) -> Seq<ContextView> {
    v.map_values(|c: ContextRow| c@)
}

// ---------------------------------------------------------------------------
// Receipt of the apply operation
// ---------------------------------------------------------------------------

/// Whether the receipt maps a stable key of a kind to an entity.
pub open spec fn is_mapped(
    rows: Seq<EntityMapRow>,
    kind: Seq<char>,
    stable_key: Seq<char>,
    id: Seq<char>,
) -> bool {
    exists|i: int|
        0 <= i < rows.len() && (#[trigger] rows[i]).kind@ == kind && rows[i].stable_key@
            == stable_key && rows[i].entity_id@ == id
}

/// Whether the operation selected a context for a scene.
pub open spec fn is_selected(
    rows: Seq<SelectionRow>,
    stable_key: Seq<char>,
    snapshot: Seq<char>,
) -> bool {
    exists|i: int|
        0 <= i < rows.len() && (#[trigger] rows[i]).planning_scene_stable_key@ == stable_key
            && rows[i].scene_context_snapshot_id@ == snapshot
}

/// Fails unless the receipt maps the stable key to the entity.
pub fn ensure_entity_map(
    rows: &Vec<EntityMapRow>,
    kind: &str,
    stable_key: &str,
    id: &str,
) -> (r: Result<(), String>)
    ensures
        r is Ok <==> is_mapped(rows@, kind@, stable_key@, id@),
        r matches Err(e) ==> e@ == "VISUAL_MANIFEST_RECEIPT_MISMATCH"@,
{
    let mut i: usize = 0;
    while i < rows.len()
        invariant
            i <= rows.len(),
            forall|j: int|
                0 <= j < i ==> !((#[trigger] rows@[j]).kind@ == kind@ && rows@[j].stable_key@
                    == stable_key@ && rows@[j].entity_id@ == id@),
        decreases rows.len() - i,
    {
        let row = &rows[i];
        if same(row.kind.as_str(), kind) && same(row.stable_key.as_str(), stable_key) && same(
            row.entity_id.as_str(),
            id,
        ) {
            return Ok(());
        }
        i += 1;
    }
    Err(owned("VISUAL_MANIFEST_RECEIPT_MISMATCH"))
}

fn selected(rows: &Vec<SelectionRow>, stable_key: &str, snapshot: &str) -> (r: bool)
    ensures
        r == is_selected(rows@, stable_key@, snapshot@),
{
    let mut i: usize = 0;
    while i < rows.len()
        invariant
            i <= rows.len(),
            forall|j: int|
                0 <= j < i ==> !((#[trigger] rows@[j]).planning_scene_stable_key@ == stable_key@
                    && rows@[j].scene_context_snapshot_id@ == snapshot@),
        decreases rows.len() - i,
    {
        let row = &rows[i];
        if same(row.planning_scene_stable_key.as_str(), stable_key) && same(
            row.scene_context_snapshot_id.as_str(),
            snapshot,
        ) {
            return true;
        }
        i += 1;
    }
    false
}

// ---------------------------------------------------------------------------
// Scene contexts
// ---------------------------------------------------------------------------

/// Reads one scene context: its text must be JSON and must have the stored hash.
pub open spec fn read_context_spec(row: ContextSource) -> Result<ContextView, Seq<char>> {
    context_from(row, json_parsed(row.context_json@))
}

/// A scene context from the value of its text.
pub open spec fn context_from(row: ContextSource, context: Option<JsonView>) -> Result<
    ContextView,
    Seq<char>,
> {
    match context {
        None => Err("VISUAL_MANIFEST_CONTEXT_MISSING"@),
        Some(context) => if row.computed_hash@ != row.context_hash@ {
            Err("VISUAL_MANIFEST_CONTEXT_MISMATCH"@)
        } else {
            Ok(
                ContextView {
                    production_scene_id: row.production_scene_id@,
                    planning_scene_stable_key: row.planning_scene_stable_key@,
                    snapshot_id: row.snapshot_id@,
                    fingerprint: row.fingerprint@,
                    canon_version_id: row.canon_version_id@,
                    state_version_id: opt_view(row.state_version_id),
                    continuity_version_id: row.continuity_version_id@,
                    resolved_context: context,
                    resolved_context_hash: row.context_hash@,
                },
            )
        },
    }
}

/// Enters a context under its scene: at its place in the order of scene identifiers, in the
/// place of an earlier context of the same scene.
pub open spec fn put_context(s: Seq<ContextView>, c: ContextView) -> Seq<ContextView>
    decreases s.len(),
{
    if s.len() == 0 {
        seq![c]
    } else if precedes(s[0].production_scene_id, c.production_scene_id) {
        seq![s[0]] + put_context(s.subrange(1, s.len() as int), c)
    } else if s[0].production_scene_id == c.production_scene_id {
        s.update(0, c)
    } else {
        seq![c] + s
    }
}

/// The contexts by scene identifier.
pub open spec fn by_scene(v: Seq<ContextView>) -> Seq<ContextView>
    decreases v.len(),
{
    if v.len() == 0 {
        Seq::empty()
    } else {
        put_context(by_scene(v.drop_last()), v.last())
    }
}

/// The scene contexts of a chapter by scene identifier; there must be at least one.
pub open spec fn load_contexts_spec(rows: Seq<ContextSource>) -> Result<
    Seq<ContextView>,
    Seq<char>,
> {
    match try_map(rows, |r: ContextSource| read_context_spec(r)) {
        Err(e) => Err(e),
        Ok(v) => if v.len() == 0 {
            Err("VISUAL_MANIFEST_CONTEXT_MISSING"@)
        } else {
            Ok(by_scene(v))
        },
    }
}

/// Whether scene identifiers increase strictly.
pub open spec fn scenes_increase(s: Seq<ContextView>) -> bool {
    forall|i: int, j: int|
        0 <= i < j < s.len() ==> precedes(
            (#[trigger] s[i]).production_scene_id,
            (#[trigger] s[j]).production_scene_id,
        )
}

proof fn lemma_put_context_at(s: Seq<ContextView>, c: ContextView, k: int)
    requires
        0 <= k <= s.len(),
        forall|i: int|
            0 <= i < k ==> precedes((#[trigger] s[i]).production_scene_id, c.production_scene_id),
        k < s.len() ==> !precedes(s[k].production_scene_id, c.production_scene_id),
    ensures
        put_context(s, c) == if k < s.len() && s[k].production_scene_id == c.production_scene_id {
            s.update(k, c)
        } else {
            s.insert(k, c)
        },
    decreases k,
{
    if k == 0 {
        if s.len() == 0 {
            assert(s.insert(0, c) =~= seq![c]);
        } else {
            assert(s.insert(0, c) =~= seq![c] + s);
        }
    } else {
        let rest = s.subrange(1, s.len() as int);
        assert(precedes(s[0].production_scene_id, c.production_scene_id));
        assert forall|i: int| 0 <= i < k - 1 implies precedes(
            (#[trigger] rest[i]).production_scene_id,
            c.production_scene_id,
        ) by {
            assert(rest[i] == s[i + 1]);
        }
        lemma_put_context_at(rest, c, k - 1);
        if k < s.len() && s[k].production_scene_id == c.production_scene_id {
            assert(seq![s[0]] + rest.update(k - 1, c) =~= s.update(k, c));
        } else {
            assert(seq![s[0]] + rest.insert(k - 1, c) =~= s.insert(k, c));
        }
    }
}

/// Entering a context keeps the scene identifiers strictly increasing.
pub proof fn put_context_keeps_order(s: Seq<ContextView>, c: ContextView)
    requires
        scenes_increase(s),
    ensures
        scenes_increase(put_context(s, c)),
        forall|x: ContextView| #[trigger]
            put_context(s, c).contains(x) ==> x == c || s.contains(x),
        put_context(s, c).contains(c),
    decreases s.len(),
{
    let key = c.production_scene_id;
    if s.len() == 0 {
        assert(seq![c][0] == c);
    } else if precedes(s[0].production_scene_id, key) {
        let rest = s.subrange(1, s.len() as int);
        assert forall|i: int, j: int| 0 <= i < j < rest.len() implies precedes(
            (#[trigger] rest[i]).production_scene_id,
            (#[trigger] rest[j]).production_scene_id,
        ) by {
            assert(rest[i] == s[i + 1] && rest[j] == s[j + 1]);
        }
        put_context_keeps_order(rest, c);
        let tail = put_context(rest, c);
        let whole = seq![s[0]] + tail;
        assert forall|x: ContextView| #[trigger] whole.contains(x) implies x == c || s.contains(
            x,
        ) by {
            let i = choose|i: int| 0 <= i < whole.len() && whole[i] == x;
            if i == 0 {
                assert(s[0] == x);
            } else {
                assert(tail[i - 1] == x);
                assert(tail.contains(x));
                if x != c {
                    let m = choose|m: int| 0 <= m < rest.len() && rest[m] == x;
                    assert(s[m + 1] == x);
                }
            }
        }
        assert forall|i: int, j: int| 0 <= i < j < whole.len() implies precedes(
            (#[trigger] whole[i]).production_scene_id,
            (#[trigger] whole[j]).production_scene_id,
        ) by {
            if i == 0 {
                let x = whole[j];
                assert(tail[j - 1] == x);
                assert(tail.contains(x));
                if x != c {
                    let m = choose|m: int| 0 <= m < rest.len() && rest[m] == x;
                    assert(s[m + 1] == x);
                }
            } else {
                assert(whole[i] == tail[i - 1] && whole[j] == tail[j - 1]);
            }
        }
        let m = choose|m: int| 0 <= m < tail.len() && tail[m] == c;
        assert(whole[m + 1] == c);
    } else if s[0].production_scene_id == key {
        let whole = s.update(0, c);
        assert(whole[0] == c);
        assert forall|x: ContextView| #[trigger] whole.contains(x) implies x == c || s.contains(
            x,
        ) by {
            let i = choose|i: int| 0 <= i < whole.len() && whole[i] == x;
            if i > 0 {
                assert(s[i] == x);
            }
        }
    } else {
        let whole = seq![c] + s;
        assert(whole[0] == c);
        lemma_precedes_total(s[0].production_scene_id, key);
        assert forall|i: int, j: int| 0 <= i < j < whole.len() implies precedes(
            (#[trigger] whole[i]).production_scene_id,
            (#[trigger] whole[j]).production_scene_id,
        ) by {
            if i == 0 {
                assert(whole[j] == s[j - 1]);
                if j > 1 {
                    lemma_precedes_trans(
                        key,
                        s[0].production_scene_id,
                        s[j - 1].production_scene_id,
                    );
                }
            } else {
                assert(whole[i] == s[i - 1] && whole[j] == s[j - 1]);
            }
        }
        assert forall|x: ContextView| #[trigger] whole.contains(x) implies x == c || s.contains(
            x,
        ) by {
            let i = choose|i: int| 0 <= i < whole.len() && whole[i] == x;
            if i > 0 {
                assert(s[i - 1] == x);
            }
        }
    }
}

/// The scene contexts of a manifest come in strictly increasing order of scene identifiers,
/// in whatever order they were read.
pub proof fn contexts_are_ordered_by_scene(v: Seq<ContextView>)
    ensures
        scenes_increase(by_scene(v)),
    decreases v.len(),
{
    if v.len() > 0 {
        contexts_are_ordered_by_scene(v.drop_last());
        put_context_keeps_order(by_scene(v.drop_last()), v.last());
    }
}

fn copy_text_option(o: &Option<String>) -> (r: Option<String>)
    ensures
        opt_view(r) == opt_view(*o),
{
    match o {
        Some(s) => Some(s.clone()),
        None => None,
    }
}

fn read_context(row: &ContextSource) -> (r: Result<ContextRow, String>)
    ensures
        result_view(r) == read_context_spec(*row),
{
    check_context(row, parse(row.context_json.as_str()))
}

/// Checks one scene context; `context` is the value of its text, where it is JSON.
pub fn check_context(row: &ContextSource, context: Option<Json>) -> (r: Result<ContextRow, String>)
    ensures
        result_view(r) == context_from(*row, opt_view(context)),
{
    match context {
        None => Err(owned("VISUAL_MANIFEST_CONTEXT_MISSING")),
        Some(context) => {
            if !same(row.computed_hash.as_str(), row.context_hash.as_str()) {
                return Err(owned("VISUAL_MANIFEST_CONTEXT_MISMATCH"));
            }
            Ok(
                ContextRow {
                    production_scene_id: row.production_scene_id.clone(),
                    planning_scene_stable_key: row.planning_scene_stable_key.clone(),
                    snapshot_id: row.snapshot_id.clone(),
                    fingerprint: row.fingerprint.clone(),
                    canon_version_id: row.canon_version_id.clone(),
                    state_version_id: copy_text_option(&row.state_version_id),
                    continuity_version_id: row.continuity_version_id.clone(),
                    resolved_context: context,
                    resolved_context_hash: row.context_hash.clone(),
                },
            )
        },
    }
}

fn enter_context(list: &mut Vec<ContextRow>, row: ContextRow)
    ensures
        contexts_view(final(list)@) == put_context(contexts_view(old(list)@), row@),
{
    let ghost before = contexts_view(list@);
    let ghost c = row@;
    let mut k: usize = 0;
    while k < list.len() && text_precedes(
        list[k].production_scene_id.as_str(),
        row.production_scene_id.as_str(),
    )
        invariant
            k <= list.len(),
            before == contexts_view(list@),
            c == row@,
            forall|i: int|
                0 <= i < k ==> precedes(
                    (#[trigger] before[i]).production_scene_id,
                    c.production_scene_id,
                ),
        decreases list.len() - k,
    {
        k += 1;
    }
    proof {
        lemma_put_context_at(before, c, k as int);
    }
    if k < list.len() && same(
        list[k].production_scene_id.as_str(),
        row.production_scene_id.as_str(),
    ) {
        let _ = list.remove(k);
        list.insert(k, row);
        assert(contexts_view(list@) =~= before.update(k as int, c));
    } else {
        list.insert(k, row);
        assert(contexts_view(list@) =~= before.insert(k as int, c));
    }
}

/// Reads the scene contexts of a chapter.
pub fn load_contexts(rows: &Vec<ContextSource>) -> (r: Result<Vec<ContextRow>, String>)
    ensures
        (match r {
            Ok(v) => Ok(contexts_view(v@)),
            Err(e) => Err(e@),
        }) == load_contexts_spec(rows@),
{
    let ghost step = |r: ContextSource| read_context_spec(r);
    let mut out: Vec<ContextRow> = Vec::new();
    let ghost mut done: Seq<ContextView> = Seq::empty();
    let mut i: usize = 0;
    assert(contexts_view(out@) =~= by_scene(done));
    while i < rows.len()
        invariant
            i <= rows.len(),
            step == (|r: ContextSource| read_context_spec(r)),
            try_map(rows@.take(i as int), step) == Ok::<Seq<ContextView>, Seq<char>>(done),
            done.len() == i,
            contexts_view(out@) == by_scene(done),
        decreases rows.len() - i,
    {
        proof {
            lemma_try_map_step(rows@, step, i as int);
        }
        match read_context(&rows[i]) {
            Ok(row) => {
                proof {
                    let before = done;
                    done = done.push(row@);
                    assert(done.drop_last() =~= before);
                }
                enter_context(&mut out, row);
            },
            Err(e) => {
                proof {
                    lemma_try_map_error(rows@, step, i + 1);
                }
                return Err(e);
            },
        }
        i += 1;
    }
    assert(rows@.take(i as int) =~= rows@);
    if rows.len() == 0 {
        return Err(owned("VISUAL_MANIFEST_CONTEXT_MISSING"));
    }
    Ok(out)
}

// ---------------------------------------------------------------------------
// Panels and pages
// ---------------------------------------------------------------------------

/// The stored panel with a stable key and number.
pub open spec fn panel_is(key: Seq<char>, no: int) -> spec_fn(ProductionPanel) -> bool {
    |p: ProductionPanel| p.stable_key@ == key && p.panel_no == no
}

/// The stored page with a stable key and number.
pub open spec fn page_is(key: Seq<char>, no: int) -> spec_fn(ProductionPage) -> bool {
    |p: ProductionPage| p.stable_key@ == key && p.page_no == no
}

/// The context of a scene.
pub open spec fn scene_is(id: Seq<char>) -> spec_fn(ContextView) -> bool {
    |c: ContextView| c.production_scene_id == id
}

/// The scene that a planned panel asks for, under its present or its former name.
pub open spec fn requested_scene(panel: JsonView) -> Option<Seq<char>> {
    match field(panel, "planningSceneStableKey"@) {
        Some(v) => as_text(Some(v)),
        None => text_at(panel, "sceneStableKey"@),
    }
}

/// A panel of the manifest.
pub open spec fn panel_value(
    row: ProductionPanel,
    scene: Seq<char>,
    key: Seq<char>,
    no: int,
    snapshot: Seq<char>,
    spec_value: JsonView,
) -> JsonView {
    JsonView::Obj(
        no_members()
            .push(("productionPanelId"@, JsonView::Str(row.id@)))
            .push(("productionSceneId"@, JsonView::Str(scene)))
            .push(("stableKey"@, JsonView::Str(key)))
            .push(("panelNo"@, JsonView::Int(no)))
            .push(("sceneContextSnapshotId"@, JsonView::Str(snapshot)))
            .push(("spec"@, spec_value)),
    )
}

/// The scene part of a panel: its stored scene must have a context, which must be the one
/// that the planned panel asks for.
pub open spec fn panel_with_scene(
    row: ProductionPanel,
    contexts: Seq<ContextView>,
    panel: JsonView,
    key: Seq<char>,
    no: int,
    spec_value: JsonView,
) -> Result<JsonView, Seq<char>> {
    match row.scene_id {
        None => Err("VISUAL_MANIFEST_CONTEXT_MISSING"@),
        Some(scene) => match find_first(contexts, scene_is(scene@)) {
            None => Err("VISUAL_MANIFEST_CONTEXT_MISSING"@),
            Some(context) => match requested_scene(panel) {
                None => Err("VISUAL_MANIFEST_PLAN_INVALID"@),
                Some(requested) => if requested != context.planning_scene_stable_key {
                    Err("VISUAL_MANIFEST_TREE_MISMATCH"@)
                } else {
                    Ok(panel_value(row, scene@, key, no, context.snapshot_id, spec_value))
                },
            },
        },
    }
}

/// A planned panel frozen into the manifest: the stored panel must hold exactly the planned
/// one and be mapped by the receipt.
pub open spec fn panel_output(
    map: Seq<EntityMapRow>,
    rows: Seq<ProductionPanel>,
    contexts: Seq<ContextView>,
    panel: JsonView,
) -> Result<JsonView, Seq<char>> {
    match (required_text(panel, "stableKey"@), required_int(panel, "panelNo"@)) {
        (Ok(key), Ok(no)) => match find_first(rows, panel_is(key, no)) {
            None => Err("VISUAL_MANIFEST_TREE_MISMATCH"@),
            Some(row) => stored_panel(map, row, contexts, panel, key, no, json_parsed(row.spec_json@)),
        },
        _ => Err("VISUAL_MANIFEST_PLAN_INVALID"@),
    }
}

/// A planned panel from the stored one; `stored` is what the stored one holds.
pub open spec fn stored_panel(
    map: Seq<EntityMapRow>,
    row: ProductionPanel,
    contexts: Seq<ContextView>,
    panel: JsonView,
    key: Seq<char>,
    no: int,
    stored: Option<JsonView>,
) -> Result<JsonView, Seq<char>> {
    match stored {
        None => Err("VISUAL_MANIFEST_TREE_MISMATCH"@),
        Some(spec_value) => if !json_same(spec_value, panel) {
            Err("VISUAL_MANIFEST_TREE_MISMATCH"@)
        } else if !is_mapped(map, "production_panel"@, key, row.id@) {
            Err("VISUAL_MANIFEST_RECEIPT_MISMATCH"@)
        } else {
            panel_with_scene(row, contexts, panel, key, no, spec_value)
        },
    }
}

/// The layout of a planned page, which must be an object.
pub open spec fn page_layout(page: JsonView) -> Option<JsonView> {
    match field(page, "layout"@) {
        Some(JsonView::Obj(m)) => Some(JsonView::Obj(m)),
        _ => None,
    }
}

/// A page of the manifest.
pub open spec fn page_value(
    id: Seq<char>,
    key: Seq<char>,
    no: int,
    layout: JsonView,
    panels: Seq<JsonView>,
) -> JsonView {
    JsonView::Obj(
        no_members()
            .push(("productionPageId"@, JsonView::Str(id)))
            .push(("stableKey"@, JsonView::Str(key)))
            .push(("pageNo"@, JsonView::Int(no)))
            .push(("layout"@, layout))
            .push(("panels"@, JsonView::Arr(panels))),
    )
}

/// A planned page frozen into the manifest: it must be stored, mapped by the receipt, and
/// have exactly as many panels as planned.
pub open spec fn page_output(
    map: Seq<EntityMapRow>,
    rows: Seq<ProductionPage>,
    contexts: Seq<ContextView>,
    page: JsonView,
) -> Result<JsonView, Seq<char>> {
    match (
        required_text(page, "stableKey"@),
        required_int(page, "pageNo"@),
        page_layout(page),
        items_at(page, "panels"@),
    ) {
        (Ok(key), Ok(no), Some(layout), Some(panels)) => if panels.len() == 0 {
            Err("VISUAL_MANIFEST_PLAN_INVALID"@)
        } else {
            match find_first(rows, page_is(key, no)) {
                None => Err("VISUAL_MANIFEST_TREE_MISMATCH"@),
                Some(row) => if !is_mapped(map, "production_page"@, key, row.id@) {
                    Err("VISUAL_MANIFEST_RECEIPT_MISMATCH"@)
                } else if row.panels@.len() != panels.len() {
                    Err("VISUAL_MANIFEST_TREE_MISMATCH"@)
                } else {
                    match try_map(panels, panel_step(map, row.panels@, contexts)) {
                        Err(e) => Err(e),
                        Ok(out) => Ok(page_value(row.id@, key, no, layout, out)),
                    }
                },
            }
        },
        _ => Err("VISUAL_MANIFEST_PLAN_INVALID"@),
    }
}

/// `panel_output` as a step over the panels of a page.
pub open spec fn panel_step(
    map: Seq<EntityMapRow>,
    rows: Seq<ProductionPanel>,
    contexts: Seq<ContextView>,
) -> spec_fn(JsonView) -> Result<JsonView, Seq<char>> {
    |panel: JsonView| panel_output(map, rows, contexts, panel)
}

/// `page_output` as a step over the pages of a plan.
pub open spec fn page_step(
    map: Seq<EntityMapRow>,
    rows: Seq<ProductionPage>,
    contexts: Seq<ContextView>,
) -> spec_fn(JsonView) -> Result<JsonView, Seq<char>> {
    |page: JsonView| page_output(map, rows, contexts, page)
}

fn find_panel<'a>(rows: &'a Vec<ProductionPanel>, key: &str, no: i64) -> (r: Option<
    &'a ProductionPanel,
>)
    ensures
        (match r {
            Some(p) => Some(*p),
            None => None,
        }) == find_first(rows@, panel_is(key@, no as int)),
{
    let ghost p = panel_is(key@, no as int);
    let mut i: usize = 0;
    while i < rows.len()
        invariant
            i <= rows.len(),
            p == panel_is(key@, no as int),
            forall|j: int| 0 <= j < i ==> !p(#[trigger] rows@[j]),
        decreases rows.len() - i,
    {
        if same(rows[i].stable_key.as_str(), key) && rows[i].panel_no == no {
            proof {
                lemma_find_first(rows@, p, i as int);
            }
            return Some(&rows[i]);
        }
        i += 1;
    }
    proof {
        lemma_find_first(rows@, p, i as int);
    }
    None
}

fn find_page<'a>(rows: &'a Vec<ProductionPage>, key: &str, no: i64) -> (r: Option<
    &'a ProductionPage,
>)
    ensures
        (match r {
            Some(p) => Some(*p),
            None => None,
        }) == find_first(rows@, page_is(key@, no as int)),
{
    let ghost p = page_is(key@, no as int);
    let mut i: usize = 0;
    while i < rows.len()
        invariant
            i <= rows.len(),
            p == page_is(key@, no as int),
            forall|j: int| 0 <= j < i ==> !p(#[trigger] rows@[j]),
        decreases rows.len() - i,
    {
        if same(rows[i].stable_key.as_str(), key) && rows[i].page_no == no {
            proof {
                lemma_find_first(rows@, p, i as int);
            }
            return Some(&rows[i]);
        }
        i += 1;
    }
    proof {
        lemma_find_first(rows@, p, i as int);
    }
    None
}

fn find_context<'a>(contexts: &'a Vec<ContextRow>, scene: &str) -> (r: Option<&'a ContextRow>)
    ensures
        opt_view(r) == find_first(contexts_view(contexts@), scene_is(scene@)),
{
    let ghost p = scene_is(scene@);
    let ghost views = contexts_view(contexts@);
    let mut i: usize = 0;
    while i < contexts.len()
        invariant
            i <= contexts.len(),
            p == scene_is(scene@),
            views == contexts_view(contexts@),
            forall|j: int| 0 <= j < i ==> !p(#[trigger] views[j]),
        decreases contexts.len() - i,
    {
        if same(contexts[i].production_scene_id.as_str(), scene) {
            proof {
                lemma_find_first(views, p, i as int);
            }
            return Some(&contexts[i]);
        }
        i += 1;
    }
    proof {
        lemma_find_first(views, p, i as int);
    }
    None
}

fn requested_scene_of(panel: &Json) -> (r: Option<&str>)
    ensures
        opt_view(r) == requested_scene(panel@),
{
    match panel.get("planningSceneStableKey") {
        Some(v) => v.as_str(),
        None => panel.text_at("sceneStableKey"),
    }
}

/// Freezes one planned panel.
pub fn build_panel(
    map: &Vec<EntityMapRow>,
    rows: &Vec<ProductionPanel>,
    contexts: &Vec<ContextRow>,
    panel: &Json,
) -> (r: Result<Json, String>)
    ensures
        result_view(r) == panel_output(map@, rows@, contexts_view(contexts@), panel@),
{
    let key = match required_str(panel, "stableKey") {
        Ok(key) => key,
        Err(e) => return Err(e),
    };
    let no: i64 = match required_i64(panel, "panelNo") {
        Ok(no) => no,
        Err(e) => return Err(e),
    };
    let row = match find_panel(rows, key.as_str(), no) {
        Some(row) => row,
        None => return Err(owned("VISUAL_MANIFEST_TREE_MISMATCH")),
    };
    freeze_panel(map, row, contexts, panel, key.as_str(), no, parse(row.spec_json.as_str()))
}

/// Freezes one planned panel from the stored one; `stored` is the value of its text, where it
/// is JSON.
pub fn freeze_panel(
    map: &Vec<EntityMapRow>,
    row: &ProductionPanel,
    contexts: &Vec<ContextRow>,
    panel: &Json,
    key: &str,
    no: i64,
    stored: Option<Json>,
) -> (r: Result<Json, String>)
    ensures
        result_view(r) == stored_panel(
            map@,
            *row,
            contexts_view(contexts@),
            panel@,
            key@,
            no as int,
            opt_view(stored),
        ),
{
    let spec_value = match stored {
        Some(v) => v,
        None => return Err(owned("VISUAL_MANIFEST_TREE_MISMATCH")),
    };
    if !spec_value.same(panel) {
        return Err(owned("VISUAL_MANIFEST_TREE_MISMATCH"));
    }
    match ensure_entity_map(map, "production_panel", key, row.id.as_str()) {
        Ok(_) => {},
        Err(e) => return Err(e),
    }
    let scene = match &row.scene_id {
        Some(scene) => scene,
        None => return Err(owned("VISUAL_MANIFEST_CONTEXT_MISSING")),
    };
    let context = match find_context(contexts, scene.as_str()) {
        Some(context) => context,
        None => return Err(owned("VISUAL_MANIFEST_CONTEXT_MISSING")),
    };
    let requested = match requested_scene_of(panel) {
        Some(requested) => requested,
        None => return Err(owned("VISUAL_MANIFEST_PLAN_INVALID")),
    };
    if !same(requested, context.planning_scene_stable_key.as_str()) {
        return Err(owned("VISUAL_MANIFEST_TREE_MISMATCH"));
    }
    Ok(
        fields().text("productionPanelId", row.id.as_str()).text(
            "productionSceneId",
            scene.as_str(),
        ).text("stableKey", key).number("panelNo", no).text(
            "sceneContextSnapshotId",
            context.snapshot_id.as_str(),
        ).with("spec", spec_value).object(),
    )
}

fn build_panels(
    map: &Vec<EntityMapRow>,
    rows: &Vec<ProductionPanel>,
    contexts: &Vec<ContextRow>,
    panels: &Vec<Json>,
) -> (r: Result<Vec<Json>, String>)
    ensures
        (match r {
            Ok(v) => Ok(items_view(v@)),
            Err(e) => Err(e@),
        }) == try_map(items_view(panels@), panel_step(map@, rows@, contexts_view(contexts@))),
{
    let ghost step = panel_step(map@, rows@, contexts_view(contexts@));
    let ghost all = items_view(panels@);
    let mut out: Vec<Json> = Vec::new();
    assert(items_view(out@) =~= Seq::<JsonView>::empty());
    let mut i: usize = 0;
    while i < panels.len()
        invariant
            i <= panels.len(),
            step == panel_step(map@, rows@, contexts_view(contexts@)),
            all == items_view(panels@),
            try_map(all.take(i as int), step) == Ok::<Seq<JsonView>, Seq<char>>(items_view(out@)),
        decreases panels.len() - i,
    {
        proof {
            lemma_try_map_step(all, step, i as int);
        }
        match build_panel(map, rows, contexts, &panels[i]) {
            Ok(v) => {
                let ghost before = items_view(out@);
                out.push(v);
                assert(items_view(out@) =~= before.push(v@));
            },
            Err(e) => {
                proof {
                    lemma_try_map_error(all, step, i + 1);
                }
                return Err(e);
            },
        }
        i += 1;
    }
    assert(all.take(i as int) =~= all);
    Ok(out)
}

/// Freezes one planned page.
pub fn build_page(
    map: &Vec<EntityMapRow>,
    rows: &Vec<ProductionPage>,
    contexts: &Vec<ContextRow>,
    page: &Json,
) -> (r: Result<Json, String>)
    ensures
        result_view(r) == page_output(map@, rows@, contexts_view(contexts@), page@),
{
    let key = match required_str(page, "stableKey") {
        Ok(key) => key,
        Err(e) => return Err(e),
    };
    let no: i64 = match required_i64(page, "pageNo") {
        Ok(no) => no,
        Err(e) => return Err(e),
    };
    let layout = match page.get("layout") {
        Some(layout) => match layout.as_object() {
            Some(_) => layout.copy(),
            None => return Err(owned("VISUAL_MANIFEST_PLAN_INVALID")),
        },
        None => return Err(owned("VISUAL_MANIFEST_PLAN_INVALID")),
    };
    let panels = match page.items_at("panels") {
        Some(panels) => panels,
        None => return Err(owned("VISUAL_MANIFEST_PLAN_INVALID")),
    };
    if panels.len() == 0 {
        return Err(owned("VISUAL_MANIFEST_PLAN_INVALID"));
    }
    let row = match find_page(rows, key.as_str(), no) {
        Some(row) => row,
        None => return Err(owned("VISUAL_MANIFEST_TREE_MISMATCH")),
    };
    match ensure_entity_map(map, "production_page", key.as_str(), row.id.as_str()) {
        Ok(_) => {},
        Err(e) => return Err(e),
    }
    if row.panels.len() != panels.len() {
        return Err(owned("VISUAL_MANIFEST_TREE_MISMATCH"));
    }
    match build_panels(map, &row.panels, contexts, panels) {
        Ok(out) => Ok(
            fields().text("productionPageId", row.id.as_str()).text(
                "stableKey",
                key.as_str(),
            ).number("pageNo", no).with("layout", layout).with(
                "panels",
                json_array(out),
            ).object(),
        ),
        Err(e) => Err(e),
    }
}

fn build_pages(
    map: &Vec<EntityMapRow>,
    rows: &Vec<ProductionPage>,
    contexts: &Vec<ContextRow>,
    pages: &Vec<Json>,
) -> (r: Result<Vec<Json>, String>)
    ensures
        (match r {
            Ok(v) => Ok(items_view(v@)),
            Err(e) => Err(e@),
        }) == try_map(items_view(pages@), page_step(map@, rows@, contexts_view(contexts@))),
{
    let ghost step = page_step(map@, rows@, contexts_view(contexts@));
    let ghost all = items_view(pages@);
    let mut out: Vec<Json> = Vec::new();
    assert(items_view(out@) =~= Seq::<JsonView>::empty());
    let mut i: usize = 0;
    while i < pages.len()
        invariant
            i <= pages.len(),
            step == page_step(map@, rows@, contexts_view(contexts@)),
            all == items_view(pages@),
            try_map(all.take(i as int), step) == Ok::<Seq<JsonView>, Seq<char>>(items_view(out@)),
        decreases pages.len() - i,
    {
        proof {
            lemma_try_map_step(all, step, i as int);
        }
        match build_page(map, rows, contexts, &pages[i]) {
            Ok(v) => {
                let ghost before = items_view(out@);
                out.push(v);
                assert(items_view(out@) =~= before.push(v@));
            },
            Err(e) => {
                proof {
                    lemma_try_map_error(all, step, i + 1);
                }
                return Err(e);
            },
        }
        i += 1;
    }
    assert(all.take(i as int) =~= all);
    Ok(out)
}

// ---------------------------------------------------------------------------
// The manifest
// ---------------------------------------------------------------------------

/// A manifest about to be stored.
#[derive(Debug)]
pub struct BuiltManifest {
    pub page_panel_plan_revision_id: String,
    pub fingerprint: String,
    pub manifest: Json,
}

/// What a built manifest says.
pub struct BuiltManifestView {
    pub page_panel_plan_revision_id: Seq<char>,
    pub fingerprint: Seq<char>,
    pub manifest: JsonView,
}

impl View for BuiltManifest {
    type V = BuiltManifestView;

    open spec fn view(&self) -> BuiltManifestView {
        BuiltManifestView {
            page_panel_plan_revision_id: self.page_panel_plan_revision_id@,
            fingerprint: self.fingerprint@,
            manifest: self.manifest@,
        }
    }
}

/// A text or null.
pub open spec fn optional_text_value(s: Option<Seq<char>>) -> JsonView {
    match s {
        Some(s) => JsonView::Str(s),
        None => JsonView::Null,
    }
}

/// A frozen scene context of the manifest.
pub open spec fn context_value(c: ContextView) -> JsonView {
    JsonView::Obj(
        no_members()
            .push(("productionSceneId"@, JsonView::Str(c.production_scene_id)))
            .push(("planningSceneStableKey"@, JsonView::Str(c.planning_scene_stable_key)))
            .push(("sceneContextSnapshotId"@, JsonView::Str(c.snapshot_id)))
            .push(("contextFingerprint"@, JsonView::Str(c.fingerprint)))
            .push(("novelCanonVersionId"@, JsonView::Str(c.canon_version_id)))
            .push(("novelStateVersionId"@, optional_text_value(c.state_version_id)))
            .push(("continuityStateVersionId"@, JsonView::Str(c.continuity_version_id)))
            .push(("resolvedContext"@, c.resolved_context))
            .push(("resolvedContextHash"@, JsonView::Str(c.resolved_context_hash))),
    )
}

/// The manifest of a chapter.
pub open spec fn manifest_value(
    planning_key: Seq<char>,
    revisions: Seq<Seq<char>>,
    contexts: Seq<ContextView>,
    pages: Seq<JsonView>,
) -> JsonView {
    JsonView::Obj(
        no_members()
            .push(("schemaVersion"@, JsonView::Str(CONTRACT_VERSION@)))
            .push((
                "provenance"@,
                JsonView::Obj(
                    no_members()
            .push(("planningChapterStableKey"@, JsonView::Str(planning_key)))
            .push((
                            "sourceRevisionIds"@,
                            JsonView::Arr(revisions.map_values(|r: Seq<char>| JsonView::Str(r))),
                        ))
            .push((
                            "sceneContexts"@,
                            JsonView::Arr(contexts.map_values(|c: ContextView| context_value(c))),
                        )),
                ),
            ))
            .push(("pages"@, JsonView::Arr(pages))),
    )
}

/// Whether the receipt maps a scene and the operation selected its context.
pub open spec fn context_receipted(src: ChapterSources, c: ContextView) -> bool {
    &&& is_mapped(
        src.entity_map@,
        "production_scene"@,
        c.planning_scene_stable_key,
        c.production_scene_id,
    )
    &&& is_selected(src.selections@, c.planning_scene_stable_key, c.snapshot_id)
}

/// The planned pages, of which there must be at least one.
pub open spec fn planned_pages(plan_json: Seq<char>) -> Option<Seq<JsonView>> {
    pages_of_plan(json_parsed(plan_json))
}

/// The pages of a plan, of which there must be at least one.
pub open spec fn pages_of_plan(plan: Option<JsonView>) -> Option<Seq<JsonView>> {
    match plan {
        None => None,
        Some(plan) => match items_at(plan, "pages"@) {
            Some(pages) => if pages.len() > 0 {
                Some(pages)
            } else {
                None
            },
            None => None,
        },
    }
}

/// The manifest of a chapter from its contexts and planned pages.
pub open spec fn manifest_of_pages(
    src: ChapterSources,
    scope: ChapterScope,
    pages: Seq<JsonView>,
    contexts: Seq<ContextView>,
) -> Result<BuiltManifestView, Seq<char>> {
    if src.scene_count != contexts.len() {
        Err("VISUAL_MANIFEST_CONTEXT_MISSING"@)
    } else if exists|i: int| 0 <= i < contexts.len() && !context_receipted(src, #[trigger] contexts[i]) {
        Err("VISUAL_MANIFEST_RECEIPT_MISMATCH"@)
    } else if src.pages@.len() != pages.len() {
        Err("VISUAL_MANIFEST_TREE_MISMATCH"@)
    } else {
        match try_map(pages, page_step(src.entity_map@, src.pages@, contexts)) {
            Err(e) => Err(e),
            Ok(out) => {
                let manifest = manifest_value(
                    scope.planning_chapter_stable_key@,
                    texts_view(src.source_revision_ids@),
                    contexts,
                    out,
                );
                Ok(
                    BuiltManifestView {
                        page_panel_plan_revision_id: scope.page_panel_plan_revision_id@,
                        fingerprint: md5_hex(json_text(manifest)),
                        manifest,
                    },
                )
            },
        }
    }
}

/// The manifest of a chapter: from the active scope alone, and only where the receipt maps
/// the chapter, sources are recorded, the plan has pages, and contexts, pages and panels all
/// agree with the plan and the receipt.
pub open spec fn build_manifest_spec(src: ChapterSources) -> Result<BuiltManifestView, Seq<char>> {
    manifest_of_plan(src, json_parsed(src.plan_json@))
}

/// The manifest of a chapter from the value of its plan.
pub open spec fn manifest_of_plan(src: ChapterSources, plan: Option<JsonView>) -> Result<
    BuiltManifestView,
    Seq<char>,
> {
    match src.scope {
        None => Err("VISUAL_MANIFEST_STALE_OR_SCOPE_MISMATCH"@),
        Some(scope) => if !is_mapped(
            src.entity_map@,
            "production_chapter"@,
            scope.planning_chapter_stable_key@,
            src.production_chapter_id@,
        ) {
            Err("VISUAL_MANIFEST_RECEIPT_MISMATCH"@)
        } else if src.source_revision_ids@.len() == 0 {
            Err("VISUAL_MANIFEST_SOURCE_MISSING"@)
        } else {
            match pages_of_plan(plan) {
                None => Err("VISUAL_MANIFEST_PLAN_INVALID"@),
                Some(pages) => match load_contexts_spec(src.contexts@) {
                    Err(e) => Err(e),
                    Ok(contexts) => manifest_of_pages(src, scope, pages, contexts),
                },
            }
        },
    }
}

fn text_array(list: &Vec<String>) -> (r: Json)
    ensures
        r@ == JsonView::Arr(texts_view(list@).map_values(|r: Seq<char>| JsonView::Str(r))),
{
    let mut out: Vec<Json> = Vec::new();
    let mut i: usize = 0;
    while i < list.len()
        invariant
            i <= list.len(),
            out.len() == i,
            forall|j: int| 0 <= j < i ==> (#[trigger] out@[j])@ == JsonView::Str(list@[j]@),
        decreases list.len() - i,
    {
        out.push(json_text_value(list[i].as_str()));
        i += 1;
    }
    assert(items_view(out@) =~= texts_view(list@).map_values(|r: Seq<char>| JsonView::Str(r)));
    json_array(out)
}

fn context_json(c: &ContextRow) -> (r: Json)
    ensures
        r@ == context_value(c@),
{
    let state = match &c.state_version_id {
        Some(s) => json_text_value(s.as_str()),
        None => Json::Null,
    };
    fields().text("productionSceneId", c.production_scene_id.as_str()).text(
        "planningSceneStableKey",
        c.planning_scene_stable_key.as_str(),
    ).text("sceneContextSnapshotId", c.snapshot_id.as_str()).text(
        "contextFingerprint",
        c.fingerprint.as_str(),
    ).text("novelCanonVersionId", c.canon_version_id.as_str()).with(
        "novelStateVersionId",
        state,
    ).text("continuityStateVersionId", c.continuity_version_id.as_str()).with(
        "resolvedContext",
        c.resolved_context.copy(),
    ).text("resolvedContextHash", c.resolved_context_hash.as_str()).object()
}

fn context_array(list: &Vec<ContextRow>) -> (r: Json)
    ensures
        r@ == JsonView::Arr(contexts_view(list@).map_values(|c: ContextView| context_value(c))),
{
    let mut out: Vec<Json> = Vec::new();
    let mut i: usize = 0;
    while i < list.len()
        invariant
            i <= list.len(),
            out.len() == i,
            forall|j: int| 0 <= j < i ==> (#[trigger] out@[j])@ == context_value(list@[j]@),
        decreases list.len() - i,
    {
        out.push(context_json(&list[i]));
        i += 1;
    }
    assert(items_view(out@) =~= contexts_view(list@).map_values(
        |c: ContextView| context_value(c),
    ));
    json_array(out)
}

fn contexts_receipted(src: &ChapterSources, contexts: &Vec<ContextRow>) -> (r: bool)
    ensures
        r == !(exists|i: int|
            0 <= i < contexts_view(contexts@).len() && !context_receipted(
                *src,
                #[trigger] contexts_view(contexts@)[i],
            )),
{
    let ghost views = contexts_view(contexts@);
    let mut i: usize = 0;
    while i < contexts.len()
        invariant
            i <= contexts.len(),
            views == contexts_view(contexts@),
            forall|j: int| 0 <= j < i ==> context_receipted(*src, #[trigger] views[j]),
        decreases contexts.len() - i,
    {
        let c = &contexts[i];
        assert(views[i as int] == c@);
        let mapped = ensure_entity_map(
            &src.entity_map,
            "production_scene",
            c.planning_scene_stable_key.as_str(),
            c.production_scene_id.as_str(),
        );
        if mapped.is_err() || !selected(
            &src.selections,
            c.planning_scene_stable_key.as_str(),
            c.snapshot_id.as_str(),
        ) {
            return false;
        }
        i += 1;
    }
    true
}

/// Freezes a chapter into a manifest.
pub fn build_manifest(src: &ChapterSources) -> (r: Result<BuiltManifest, String>)
    ensures
        result_view(r) == build_manifest_spec(*src),
{
    freeze_plan(src, parse(src.plan_json.as_str()))
}

/// Freezes a chapter into a manifest; `plan` is the value of its plan, where it is JSON.
pub fn freeze_plan(src: &ChapterSources, plan: Option<Json>) -> (r: Result<BuiltManifest, String>)
    ensures
        result_view(r) == manifest_of_plan(*src, opt_view(plan)),
{
    let scope = match &src.scope {
        Some(scope) => scope,
        None => return Err(owned("VISUAL_MANIFEST_STALE_OR_SCOPE_MISMATCH")),
    };
    match ensure_entity_map(
        &src.entity_map,
        "production_chapter",
        scope.planning_chapter_stable_key.as_str(),
        src.production_chapter_id.as_str(),
    ) {
        Ok(_) => {},
        Err(e) => return Err(e),
    }
    if src.source_revision_ids.len() == 0 {
        return Err(owned("VISUAL_MANIFEST_SOURCE_MISSING"));
    }
    let plan = match plan {
        Some(plan) => plan,
        None => return Err(owned("VISUAL_MANIFEST_PLAN_INVALID")),
    };
    let pages = match plan.items_at("pages") {
        Some(pages) => pages,
        None => return Err(owned("VISUAL_MANIFEST_PLAN_INVALID")),
    };
    if pages.len() == 0 {
        return Err(owned("VISUAL_MANIFEST_PLAN_INVALID"));
    }
    let contexts = match load_contexts(&src.contexts) {
        Ok(contexts) => contexts,
        Err(e) => return Err(e),
    };
    if src.scene_count < 0 || src.scene_count as u64 != contexts.len() as u64 {
        return Err(owned("VISUAL_MANIFEST_CONTEXT_MISSING"));
    }
    if !contexts_receipted(src, &contexts) {
        return Err(owned("VISUAL_MANIFEST_RECEIPT_MISMATCH"));
    }
    if src.pages.len() != pages.len() {
        return Err(owned("VISUAL_MANIFEST_TREE_MISMATCH"));
    }
    let out = match build_pages(&src.entity_map, &src.pages, &contexts, pages) {
        Ok(out) => out,
        Err(e) => return Err(e),
    };
    let provenance = fields().text(
        "planningChapterStableKey",
        scope.planning_chapter_stable_key.as_str(),
    ).with("sourceRevisionIds", text_array(&src.source_revision_ids)).with(
        "sceneContexts",
        context_array(&contexts),
    ).object();
    let manifest = fields().text("schemaVersion", CONTRACT_VERSION).with(
        "provenance",
        provenance,
    ).with("pages", json_array(out)).object();
    let fingerprint = md5_digest(render(&manifest).as_str());
    Ok(
        BuiltManifest {
            page_panel_plan_revision_id: scope.page_panel_plan_revision_id.clone(),
            fingerprint,
            manifest,
        },
    )
}

// ---------------------------------------------------------------------------
// Preparing and reading
// ---------------------------------------------------------------------------

/// The request that identifies a preparation; its hash guards the idempotency key.
pub open spec fn prepare_request_value(input: ComicVisualManifestPrepareInput) -> JsonView {
    JsonView::Obj(
        no_members()
            .push(("projectId"@, JsonView::Str(input.project_id@)))
            .push(("novelWorkId"@, JsonView::Str(input.novel_work_id@)))
            .push(("comicAdaptationId"@, JsonView::Str(input.comic_adaptation_id@)))
            .push(("applyOperationId"@, JsonView::Str(input.apply_operation_id@)))
            .push(("productionChapterId"@, JsonView::Str(input.production_chapter_id@))),
    )
}

/// The request that identifies a preparation.
pub fn prepare_request(input: &ComicVisualManifestPrepareInput) -> (r: Json)
    ensures
        r@ == prepare_request_value(*input),
{
    fields().text("projectId", input.project_id.as_str()).text(
        "novelWorkId",
        input.novel_work_id.as_str(),
    ).text("comicAdaptationId", input.comic_adaptation_id.as_str()).text(
        "applyOperationId",
        input.apply_operation_id.as_str(),
    ).text("productionChapterId", input.production_chapter_id.as_str()).object()
}

/// The receipt of an earlier preparation under the same idempotency key.
#[derive(Debug)]
pub struct PrepareReceipt {
    pub request_hash: String,
    pub manifest_id: String,
}

impl View for PrepareReceipt {
    type V = (Seq<char>, Seq<char>);

    /// The request hash and the manifest of a receipt.
    open spec fn view(&self) -> (Seq<char>, Seq<char>) {
        (self.request_hash@, self.manifest_id@)
    }
}

/// What is left to do for a preparation.
#[derive(Debug)]
pub enum PrepareStep {
    /// The key was used for the same request: hand out its manifest.
    Replay(String),
    /// The chapter has a current manifest: record the key and hand it out.
    Reuse(String),
    /// Freeze a new manifest.
    Build,
}

/// What is left to do for a preparation, in characters.
pub enum PrepareStepView {
    Replay(Seq<char>),
    Reuse(Seq<char>),
    Build,
}

impl View for PrepareStep {
    type V = PrepareStepView;

    open spec fn view(&self) -> PrepareStepView {
        match self {
            PrepareStep::Replay(id) => PrepareStepView::Replay(id@),
            PrepareStep::Reuse(id) => PrepareStepView::Reuse(id@),
            PrepareStep::Build => PrepareStepView::Build,
        }
    }
}

/// Whether a manifest belongs to the scope of a preparation.
pub open spec fn owns_manifest(row: ManifestRow, input: ComicVisualManifestPrepareInput) -> bool {
    &&& row.project_id@ == input.project_id@
    &&& row.novel_work_id@ == input.novel_work_id@
    &&& row.comic_adaptation_id@ == input.comic_adaptation_id@
    &&& row.apply_operation_id@ == input.apply_operation_id@
    &&& row.production_chapter_id@ == input.production_chapter_id@
}

/// Fails unless a manifest belongs to the scope of a preparation.
pub fn validate_manifest_owner(row: &ManifestRow, input: &ComicVisualManifestPrepareInput) -> (r:
    Result<(), String>)
    ensures
        r is Ok <==> owns_manifest(*row, *input),
        r matches Err(e) ==> e@ == "VISUAL_MANIFEST_SCOPE_MISMATCH"@,
{
    if same(row.project_id.as_str(), input.project_id.as_str()) && same(
        row.novel_work_id.as_str(),
        input.novel_work_id.as_str(),
    ) && same(row.comic_adaptation_id.as_str(), input.comic_adaptation_id.as_str()) && same(
        row.apply_operation_id.as_str(),
        input.apply_operation_id.as_str(),
    ) && same(row.production_chapter_id.as_str(), input.production_chapter_id.as_str()) {
        Ok(())
    } else {
        Err(owned("VISUAL_MANIFEST_SCOPE_MISMATCH"))
    }
}

/// What a preparation does: a used key replays its own request only; a manifest that the
/// chapter already has is handed out only to its owner and only while it is current, and is
/// never overwritten.
pub open spec fn prepare_step_spec(
    input: ComicVisualManifestPrepareInput,
    request_hash: Seq<char>,
    receipt: Option<(Seq<char>, Seq<char>)>,
    existing: Option<ManifestRow>,
    scope_ready: bool,
) -> Result<PrepareStepView, Seq<char>> {
    match receipt {
        Some(receipt) => if receipt.0 != request_hash {
            Err("IDEMPOTENCY_MISMATCH"@)
        } else {
            Ok(PrepareStepView::Replay(receipt.1))
        },
        None => match existing {
            None => Ok(PrepareStepView::Build),
            Some(row) => if !owns_manifest(row, input) {
                Err("VISUAL_MANIFEST_SCOPE_MISMATCH"@)
            } else if !scope_ready {
                Err("VISUAL_MANIFEST_STALE_OR_SCOPE_MISMATCH"@)
            } else {
                Ok(PrepareStepView::Reuse(row.id@))
            },
        },
    }
}

/// Decides what a preparation does.
pub fn prepare_step(
    input: &ComicVisualManifestPrepareInput,
    request_hash: &str,
    receipt: Option<PrepareReceipt>,
    existing: Option<ManifestRow>,
    scope_ready: bool,
) -> (r: Result<PrepareStep, String>)
    ensures
        result_view(r) == prepare_step_spec(
            *input,
            request_hash@,
            opt_view(receipt),
            existing,
            scope_ready,
        ),
{
    match receipt {
        Some(receipt) => {
            if !same(receipt.request_hash.as_str(), request_hash) {
                return Err(owned("IDEMPOTENCY_MISMATCH"));
            }
            Ok(PrepareStep::Replay(receipt.manifest_id))
        },
        None => match existing {
            None => Ok(PrepareStep::Build),
            Some(row) => {
                match validate_manifest_owner(&row, input) {
                    Ok(_) => {},
                    Err(e) => return Err(e),
                }
                if !scope_ready {
                    return Err(owned("VISUAL_MANIFEST_STALE_OR_SCOPE_MISMATCH"));
                }
                Ok(PrepareStep::Reuse(row.id))
            },
        },
    }
}

/// Whether two preparations ask for the same thing, under whatever keys.
pub open spec fn same_preparation(
    a: ComicVisualManifestPrepareInput,
    b: ComicVisualManifestPrepareInput,
) -> bool {
    &&& a.project_id@ == b.project_id@
    &&& a.novel_work_id@ == b.novel_work_id@
    &&& a.comic_adaptation_id@ == b.comic_adaptation_id@
    &&& a.apply_operation_id@ == b.apply_operation_id@
    &&& a.production_chapter_id@ == b.production_chapter_id@
}

/// What a request hash is taken of tells two preparations apart exactly where they ask for
/// different things.
pub proof fn prepare_request_tells_scopes_apart(
    a: ComicVisualManifestPrepareInput,
    b: ComicVisualManifestPrepareInput,
)
    ensures
        prepare_request_value(a) == prepare_request_value(b) <==> same_preparation(a, b),
{
    if prepare_request_value(a) == prepare_request_value(b) {
        let p = prepare_request_value(a)->Obj_0;
        let q = prepare_request_value(b)->Obj_0;
        assert(p[0] == ("projectId"@, JsonView::Str(a.project_id@)));
        assert(q[0] == ("projectId"@, JsonView::Str(b.project_id@)));
        assert(p[1] == ("novelWorkId"@, JsonView::Str(a.novel_work_id@)));
        assert(q[1] == ("novelWorkId"@, JsonView::Str(b.novel_work_id@)));
        assert(p[2] == ("comicAdaptationId"@, JsonView::Str(a.comic_adaptation_id@)));
        assert(q[2] == ("comicAdaptationId"@, JsonView::Str(b.comic_adaptation_id@)));
        assert(p[3] == ("applyOperationId"@, JsonView::Str(a.apply_operation_id@)));
        assert(q[3] == ("applyOperationId"@, JsonView::Str(b.apply_operation_id@)));
        assert(p[4] == ("productionChapterId"@, JsonView::Str(a.production_chapter_id@)));
        assert(q[4] == ("productionChapterId"@, JsonView::Str(b.production_chapter_id@)));
    }
}

/// The freshness of a manifest.
pub open spec fn freshness_of(scope_ready: bool) -> Seq<char> {
    if scope_ready {
        "ready"@
    } else {
        "stale"@
    }
}

/// Whether a manifest is a row with its text read and its freshness told.
pub open spec fn manifest_is(
    m: ComicVisualManifest,
    row: ManifestRow,
    value: JsonView,
    scope_ready: bool,
) -> bool {
    &&& m.id@ == row.id@
    &&& m.contract_version@ == row.contract_version@
    &&& m.project_id@ == row.project_id@
    &&& m.novel_work_id@ == row.novel_work_id@
    &&& m.comic_adaptation_id@ == row.comic_adaptation_id@
    &&& m.apply_operation_id@ == row.apply_operation_id@
    &&& m.production_chapter_id@ == row.production_chapter_id@
    &&& m.page_panel_plan_revision_id@ == row.page_panel_plan_revision_id@
    &&& m.freshness@ == freshness_of(scope_ready)
    &&& m.manifest_fingerprint@ == row.manifest_fingerprint@
    &&& m.created_at == row.created_at
    &&& m.manifest@ == value
}

/// Whether the stored text is JSON whose digest is the stored fingerprint.
pub open spec fn fingerprint_holds(row: ManifestRow) -> bool {
    match json_parsed(row.manifest_json@) {
        Some(value) => md5_hex(json_text(value)) == row.manifest_fingerprint@,
        None => false,
    }
}

/// Reads a stored manifest: a text that does not have the stored fingerprint is refused
/// before the outcome of the scope lookup counts. A manifest without fractions that was
/// stored with its own text and fingerprint is read back as it was.
pub fn manifest_from_row(row: ManifestRow, scope_ready: Result<bool, String>) -> (r: Result<
    ComicVisualManifest,
    String,
>)
    ensures
        !fingerprint_holds(row) ==> (r matches Err(e) && e@ == "VISUAL_MANIFEST_CORRUPT"@),
        fingerprint_holds(row) ==> match scope_ready {
            Err(e) => r matches Err(f) && f@ == e@,
            Ok(ready) => r matches Ok(m) && manifest_is(
                m,
                row,
                json_parsed(row.manifest_json@)->0,
                ready,
            ),
        },
        forall|j: JsonView|
            is_plain(j, 100) && row.manifest_json@ == #[trigger] json_text(j)
                && row.manifest_fingerprint@ == md5_hex(json_text(j)) && scope_ready is Ok
                ==> r is Ok && json_same(r->Ok_0.manifest@, j),
{
    match parse(row.manifest_json.as_str()) {
        Some(manifest) => {
            let actual = md5_digest(render(&manifest).as_str());
            check_manifest(row, manifest, actual.as_str(), scope_ready)
        },
        None => Err(owned("VISUAL_MANIFEST_CORRUPT")),
    }
}

/// Checks a stored manifest; `manifest` is the value of its text and `actual` the digest of
/// that value.
pub fn check_manifest(
    row: ManifestRow,
    manifest: Json,
    actual: &str,
    scope_ready: Result<bool, String>,
) -> (r: Result<ComicVisualManifest, String>)
    ensures
        if actual@ != row.manifest_fingerprint@ {
            r matches Err(e) && e@ == "VISUAL_MANIFEST_CORRUPT"@
        } else {
            match scope_ready {
                Err(e) => r matches Err(f) && f@ == e@,
                Ok(ready) => r matches Ok(m) && manifest_is(m, row, manifest@, ready),
            }
        },
{
    if !same(actual, row.manifest_fingerprint.as_str()) {
        return Err(owned("VISUAL_MANIFEST_CORRUPT"));
    }
    let ready = match scope_ready {
        Ok(ready) => ready,
        Err(e) => return Err(e),
    };
    let freshness = if ready {
        owned("ready")
    } else {
        owned("stale")
    };
    Ok(
        ComicVisualManifest {
            id: row.id,
            contract_version: row.contract_version,
            project_id: row.project_id,
            novel_work_id: row.novel_work_id,
            comic_adaptation_id: row.comic_adaptation_id,
            apply_operation_id: row.apply_operation_id,
            production_chapter_id: row.production_chapter_id,
            page_panel_plan_revision_id: row.page_panel_plan_revision_id,
            freshness,
            manifest_fingerprint: row.manifest_fingerprint,
            created_at: row.created_at,
            manifest,
        },
    )
}

/// What the database holds of manifests: the receipts of preparations by their keys, each with
/// the request hash and the manifest, and the manifests.
pub struct ManifestStore {
    pub receipts: Map<Seq<char>, (Seq<char>, Seq<char>)>,
    pub rows: Seq<ManifestRow>,
}

/// The receipt under a key.
pub open spec fn prepare_receipt(store: ManifestStore, key: Seq<char>) -> Option<
    (Seq<char>, Seq<char>),
> {
    if store.receipts.dom().contains(key) {
        Some(store.receipts[key])
    } else {
        None
    }
}

/// Whether a manifest was made of a chapter of an apply operation.
pub open spec fn made_of(operation: Seq<char>, chapter: Seq<char>) -> spec_fn(ManifestRow) -> bool {
    |row: ManifestRow| row.apply_operation_id@ == operation && row.production_chapter_id@ == chapter
}

/// Whether a manifest has an identifier, within a project and a work.
pub open spec fn is_manifest(id: Seq<char>, project: Seq<char>, work: Seq<char>) -> spec_fn(
    ManifestRow,
) -> bool {
    |row: ManifestRow| row.id@ == id && row.project_id@ == project && row.novel_work_id@ == work
}

/// A manifest that is handed out.
pub struct HandedManifest {
    pub id: Seq<char>,
    pub manifest: JsonView,
    pub freshness: Seq<char>,
}

/// The manifest that is handed out for an identifier.
pub open spec fn handed_out(
    rows: Seq<ManifestRow>,
    input: ComicVisualManifestPrepareInput,
    id: Seq<char>,
    ready: bool,
) -> Result<HandedManifest, Seq<char>> {
    match find_first(rows, is_manifest(id, input.project_id@, input.novel_work_id@)) {
        None => Err("VISUAL_MANIFEST_UNKNOWN"@),
        Some(row) => if !fingerprint_holds(row) {
            Err("VISUAL_MANIFEST_CORRUPT"@)
        } else {
            Ok(
                HandedManifest {
                    id,
                    manifest: json_parsed(row.manifest_json@)->0,
                    freshness: freshness_of(ready),
                },
            )
        },
    }
}

/// What a preparation makes of the store, in its one transaction, and its result. `hash` stands
/// for the request hash, `ready` for whether the scope is ready, `built` for the manifest that
/// is frozen, where it comes to that.
pub open spec fn prepared(
    store: ManifestStore,
    input: ComicVisualManifestPrepareInput,
    hash: spec_fn(JsonView) -> Seq<char>,
    ready: bool,
    built: Result<ManifestRow, Seq<char>>,
) -> (ManifestStore, Result<HandedManifest, Seq<char>>) {
    let key = input.idempotency_key@;
    let request_hash = hash(prepare_request_value(input));
    match prepare_step_spec(
        input,
        request_hash,
        prepare_receipt(store, key),
        find_first(store.rows, made_of(input.apply_operation_id@, input.production_chapter_id@)),
        ready,
    ) {
        Err(e) => (store, Err(e)),
        Ok(PrepareStepView::Replay(id)) => (store, handed_out(store.rows, input, id, ready)),
        Ok(PrepareStepView::Reuse(id)) => (
            ManifestStore { receipts: store.receipts.insert(key, (request_hash, id)), ..store },
            handed_out(store.rows, input, id, ready),
        ),
        Ok(PrepareStepView::Build) => match built {
            Err(e) => (store, Err(e)),
            Ok(row) => {
                let rows = store.rows.push(row);
                (
                    ManifestStore {
                        receipts: store.receipts.insert(key, (request_hash, row.id@)),
                        rows,
                    },
                    handed_out(rows, input, row.id@, ready),
                )
            },
        },
    }
}

/// What the request hash of a preparation of a manifest was taken of.
pub open spec fn scope_value(row: ManifestRow) -> JsonView {
    JsonView::Obj(
        no_members()
            .push(("projectId"@, JsonView::Str(row.project_id@)))
            .push(("novelWorkId"@, JsonView::Str(row.novel_work_id@)))
            .push(("comicAdaptationId"@, JsonView::Str(row.comic_adaptation_id@)))
            .push(("applyOperationId"@, JsonView::Str(row.apply_operation_id@)))
            .push(("productionChapterId"@, JsonView::Str(row.production_chapter_id@))),
    )
}

proof fn lemma_scope_value(row: ManifestRow, input: ComicVisualManifestPrepareInput)
    ensures
        scope_value(row) == prepare_request_value(input) <==> owns_manifest(row, input),
{
    if scope_value(row) == prepare_request_value(input) {
        let p = scope_value(row)->Obj_0;
        let q = prepare_request_value(input)->Obj_0;
        assert(p[0] == ("projectId"@, JsonView::Str(row.project_id@)));
        assert(q[0] == ("projectId"@, JsonView::Str(input.project_id@)));
        assert(p[1] == ("novelWorkId"@, JsonView::Str(row.novel_work_id@)));
        assert(q[1] == ("novelWorkId"@, JsonView::Str(input.novel_work_id@)));
        assert(p[2] == ("comicAdaptationId"@, JsonView::Str(row.comic_adaptation_id@)));
        assert(q[2] == ("comicAdaptationId"@, JsonView::Str(input.comic_adaptation_id@)));
        assert(p[3] == ("applyOperationId"@, JsonView::Str(row.apply_operation_id@)));
        assert(q[3] == ("applyOperationId"@, JsonView::Str(input.apply_operation_id@)));
        assert(p[4] == ("productionChapterId"@, JsonView::Str(row.production_chapter_id@)));
        assert(q[4] == ("productionChapterId"@, JsonView::Str(input.production_chapter_id@)));
    }
}

/// Whether two manifests are told apart: by their identifiers, and by the chapter of the apply
/// operation that they were made of.
pub open spec fn rows_differ(a: ManifestRow, b: ManifestRow) -> bool {
    &&& a.id@ != b.id@
    &&& a.apply_operation_id@ != b.apply_operation_id@ || a.production_chapter_id@
        != b.production_chapter_id@
}

/// Whether a receipt names a manifest that was prepared for its request.
pub open spec fn receipt_holds(
    rows: Seq<ManifestRow>,
    hash: spec_fn(JsonView) -> Seq<char>,
    receipt: (Seq<char>, Seq<char>),
    i: int,
) -> bool {
    0 <= i < rows.len() && rows[i].id@ == receipt.1 && receipt.0 == hash(scope_value(rows[i]))
}

/// Whether a store is as preparations leave it: no two manifests share an identifier or a
/// chapter, and every receipt names the manifest of its request.
pub open spec fn store_valid(store: ManifestStore, hash: spec_fn(JsonView) -> Seq<char>) -> bool {
    &&& forall|i: int, j: int|
        0 <= i < j < store.rows.len() ==> rows_differ(
            #[trigger] store.rows[i],
            #[trigger] store.rows[j],
        )
    &&& forall|key: Seq<char>| #[trigger]
        store.receipts.dom().contains(key) ==> exists|i: int|
            receipt_holds(store.rows, hash, store.receipts[key], i)
}

/// Whether a store is that of an earlier time: no manifest and no receipt of it has changed,
/// and more may have come.
pub open spec fn store_later(earlier: ManifestStore, store: ManifestStore) -> bool {
    &&& earlier.rows.len() <= store.rows.len()
    &&& forall|i: int|
        0 <= i < earlier.rows.len() ==> #[trigger] store.rows[i] == earlier.rows[i]
    &&& forall|key: Seq<char>| #[trigger]
        earlier.receipts.dom().contains(key) ==> store.receipts.dom().contains(key)
            && store.receipts[key] == earlier.receipts[key]
}

/// Whether a frozen manifest is a new one of the scope of its preparation.
pub open spec fn is_built(
    store: ManifestStore,
    input: ComicVisualManifestPrepareInput,
    row: ManifestRow,
) -> bool {
    &&& owns_manifest(row, input)
    &&& forall|i: int| 0 <= i < store.rows.len() ==> (#[trigger] store.rows[i]).id@ != row.id@
}

/// Whether a hash tells all requests apart.
pub open spec fn hash_tells_apart(hash: spec_fn(JsonView) -> Seq<char>) -> bool {
    forall|x: JsonView, y: JsonView| #[trigger] hash(x) == #[trigger] hash(y) ==> x == y
}

proof fn lemma_prepared(
    store: ManifestStore,
    input: ComicVisualManifestPrepareInput,
    hash: spec_fn(JsonView) -> Seq<char>,
    ready: bool,
    built: Result<ManifestRow, Seq<char>>,
) -> (i: int)
    requires
        hash_tells_apart(hash),
        store_valid(store, hash),
        built is Ok ==> is_built(store, input, built->Ok_0),
        prepared(store, input, hash, ready, built).1 is Ok,
    ensures
        ({
            let (after, result) = prepared(store, input, hash, ready, built);
            &&& store_valid(after, hash)
            &&& store_later(store, after)
            &&& 0 <= i < after.rows.len()
            &&& owns_manifest(after.rows[i], input)
            &&& after.rows[i].id@ == result->Ok_0.id
            &&& fingerprint_holds(after.rows[i])
            &&& result->Ok_0.manifest == json_parsed(after.rows[i].manifest_json@)->0
            &&& prepare_receipt(after, input.idempotency_key@) == Some(
                (hash(prepare_request_value(input)), result->Ok_0.id),
            )
        }),
{
    let (after, result) = prepared(store, input, hash, ready, built);
    let key = input.idempotency_key@;
    let h = hash(prepare_request_value(input));
    let p = made_of(input.apply_operation_id@, input.production_chapter_id@);
    let id = result->Ok_0.id;
    let i = if prepare_receipt(store, key) is Some {
        let i = choose|i: int| receipt_holds(store.rows, hash, store.receipts[key], i);
        lemma_scope_value(store.rows[i], input);
        i
    } else {
        let k = lemma_first_index(store.rows, p);
        if k < store.rows.len() {
            lemma_scope_value(store.rows[k], input);
        } else {
            lemma_scope_value(built->Ok_0, input);
        }
        k
    };
    assert forall|a: int, b: int| 0 <= a < b < after.rows.len() implies rows_differ(
        #[trigger] after.rows[a],
        #[trigger] after.rows[b],
    ) by {
        if b == store.rows.len() {
            assert(!p(store.rows[a]));
        } else {
            assert(rows_differ(store.rows[a], store.rows[b]));
        }
    }
    assert forall|k: Seq<char>| #[trigger] after.receipts.dom().contains(k) implies exists|x: int|
        receipt_holds(after.rows, hash, after.receipts[k], x) by {
        if store.receipts.dom().contains(k) && after.receipts[k] == store.receipts[k] {
            let x = choose|x: int| receipt_holds(store.rows, hash, store.receipts[k], x);
            assert(receipt_holds(after.rows, hash, after.receipts[k], x));
        } else {
            assert(receipt_holds(after.rows, hash, after.receipts[k], i));
        }
    }
    let q = is_manifest(id, input.project_id@, input.novel_work_id@);
    assert forall|x: int| 0 <= x < i implies !q(#[trigger] after.rows[x]) by {
        assert(rows_differ(after.rows[x], after.rows[i]));
    }
    lemma_find_first(after.rows, q, i);
    i
}

/// A preparation that has given a manifest gives that manifest however often it is repeated, at
/// any later time: `later` is the store by then, in which manifests and receipts have only been
/// added. The same request under the same key is answered with the same manifest, fresh or
/// stale as it is by then, and changes nothing. The same key for another request, as one for
/// another chapter, is refused. The same request under a new key is answered with the same
/// manifest where the scope is still ready, and is refused otherwise; no second manifest is
/// frozen, and none ever changes.
pub proof fn repeated_preparation_gives_the_same_manifest(
    store: ManifestStore,
    input: ComicVisualManifestPrepareInput,
    hash: spec_fn(JsonView) -> Seq<char>,
    ready: bool,
    built: Result<ManifestRow, Seq<char>>,
    later: ManifestStore,
    again: ComicVisualManifestPrepareInput,
    other: ComicVisualManifestPrepareInput,
    renewed: ComicVisualManifestPrepareInput,
    later_ready: bool,
    later_built: Result<ManifestRow, Seq<char>>,
)
    requires
        hash_tells_apart(hash),
        store_valid(store, hash),
        built is Ok ==> is_built(store, input, built->Ok_0),
        prepared(store, input, hash, ready, built).1 is Ok,
        store_later(prepared(store, input, hash, ready, built).0, later),
        store_valid(later, hash),
        same_preparation(again, input),
        again.idempotency_key@ == input.idempotency_key@,
        !same_preparation(other, input),
        other.idempotency_key@ == input.idempotency_key@,
        same_preparation(renewed, input),
        prepare_receipt(later, renewed.idempotency_key@) is None,
    ensures
        ({
            let (after, result) = prepared(store, input, hash, ready, built);
            let given = HandedManifest {
                freshness: freshness_of(later_ready),
                ..result->Ok_0
            };
            let fresh = prepared(later, renewed, hash, later_ready, later_built);
            &&& store_valid(after, hash)
            &&& store_later(store, after)
            &&& prepared(later, again, hash, later_ready, later_built) == (later, Ok::<
                _,
                Seq<char>,
            >(given))
            &&& prepared(later, other, hash, later_ready, later_built) == (later, Err::<
                HandedManifest,
                _,
            >("IDEMPOTENCY_MISMATCH"@))
            &&& later_ready ==> fresh.1 == Ok::<_, Seq<char>>(given) && fresh.0.rows == later.rows
            &&& !later_ready ==> fresh == (later, Err::<HandedManifest, _>(
                "VISUAL_MANIFEST_STALE_OR_SCOPE_MISMATCH"@,
            ))
        }),
{
    prepare_request_tells_scopes_apart(again, input);
    prepare_request_tells_scopes_apart(other, input);
    prepare_request_tells_scopes_apart(renewed, input);
    let (after, result) = prepared(store, input, hash, ready, built);
    let i = lemma_prepared(store, input, hash, ready, built);
    let row = later.rows[i];
    assert(row == after.rows[i]);
    let id = result->Ok_0.id;
    let q = is_manifest(id, input.project_id@, input.novel_work_id@);
    assert forall|x: int| 0 <= x < i implies !q(#[trigger] later.rows[x]) by {
        assert(rows_differ(later.rows[x], later.rows[i]));
    }
    lemma_find_first(later.rows, q, i);
    let p = made_of(input.apply_operation_id@, input.production_chapter_id@);
    assert forall|x: int| 0 <= x < i implies !p(#[trigger] later.rows[x]) by {
        assert(rows_differ(later.rows[x], later.rows[i]));
    }
    lemma_find_first(later.rows, p, i);
    assert(after.receipts.dom().contains(input.idempotency_key@));
}

/// A manifest that was built carries the digest of its own text, the adopted plan's revision
/// and one page per planned page, in the order of the plan.
pub proof fn built_manifest_carries_its_digest(src: ChapterSources)
    requires
        build_manifest_spec(src) is Ok,
    ensures
        ({
            let built = build_manifest_spec(src)->Ok_0;
            &&& built.fingerprint == md5_hex(json_text(built.manifest))
            &&& src.scope is Some
            &&& built.page_panel_plan_revision_id == src.scope->0.page_panel_plan_revision_id@
            &&& planned_pages(src.plan_json@) is Some
            &&& items_at(built.manifest, "pages"@) is Some
            &&& items_at(built.manifest, "pages"@)->0.len() == planned_pages(
                src.plan_json@,
            )->0.len()
        }),
{
    let pages = planned_pages(src.plan_json@)->0;
    let contexts = load_contexts_spec(src.contexts@)->Ok_0;
    lemma_try_map_ok(pages, page_step(src.entity_map@, src.pages@, contexts));
    let built = build_manifest_spec(src)->Ok_0;
    let members = built.manifest->Obj_0;
    reveal_strlit("schemaVersion");
    reveal_strlit("provenance");
    reveal_strlit("pages");
    assert("schemaVersion"@.len() != "pages"@.len());
    assert("provenance"@.len() != "pages"@.len());
    assert(members[0].0 == "schemaVersion"@ && members[1].0 == "provenance"@);
    assert(members[2].0 == "pages"@);
    lemma_lookup(members, "pages"@, 2);
}

} // verus!
