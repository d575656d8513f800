//! What a compiled page request holds: the layout, the scenes and every printable word of its
//! page.
use crate::comic_page_compiler::{
    all_dialogues, are_request_keys, are_texts, compiled, context_is, contexts_of_panels,
    dialogue_ledger, dialogue_value, escaped, escaped_char, has_ledger, is_dialogue, is_markup,
    is_printable_key, is_request_key, is_supported, manifest_contexts, named, page_has_ledger,
    page_size, panel_context, panel_ledger, prompt_v2, prompt_v3, request_options, request_text,
    scene_contexts, scene_seen, semantic_panel, semantic_panels, source_data_v2, source_data_v3,
    source_revisions, text_ledger, text_render_plan, text_value, texts_of, without_text,
    COMPILER_CONTRACT, COMPILER_CONTRACT_V2, PROMPT_HEAD, PROMPT_RULES, PROMPT_RULES_V2,
};
use crate::comic_page_layout::{
    are_geometry_panels, bleed_value, bounds_value, control_value, geometry_panel_no,
    geometry_panel_value, geometry_value, ints_value, is_bleed, is_bounds, is_controlled,
    is_geometry_panel, is_mapping, is_normalized, is_order, is_point, is_polygon, mapping_target,
    mapping_value, one_to_one_value, order_of, panel_numbers, point_value, polygon_value, positive,
    stated_mappings,
};
use crate::json::{
    as_int, as_items, as_text, bool_at, field, int_at, items_at, json_text, lemma_lookup_push,
    lookup, members_at, no_members, text_at, JsonView,
};
use crate::sequence::lemma_first_index;
use crate::text::{
    before_char, decimal, decimal_reads_back, is_blank, is_digit, lemma_before_absent,
    lemma_parse_digits, lemma_split_once, lemma_trimmed_fixed, parse_unsigned, split_once_at,
    trimmed,
};
use vstd::prelude::*;

verus! {

// ---------------------------------------------------------------------------
// The layout control
// ---------------------------------------------------------------------------

/// Whether a number of the unit interval is handed on as it is written; zero and one are
/// written as fractions.
pub open spec fn number_is_kept(given: Option<JsonView>, out: Option<JsonView>) -> bool {
    match given {
        Some(JsonView::Float(s)) => out == Some(JsonView::Float(s)),
        Some(JsonView::Int(i)) => (i == 0 && out == Some(JsonView::Float("0.0"@))) || (i == 1
            && out == Some(JsonView::Float("1.0"@))),
        _ => false,
    }
}

/// Whether integers are handed on one by one.
pub open spec fn integers_are_kept(given: Option<JsonView>, out: Option<JsonView>) -> bool {
    &&& as_items(given) is Some && as_items(out) is Some
    &&& as_items(out)->0.len() == as_items(given)->0.len()
    &&& forall|i: int|
        0 <= i < as_items(out)->0.len() ==> as_int(Some(as_items(given)->0[i])) is Some && (
        #[trigger] as_items(out)->0[i]) == JsonView::Int(as_int(Some(as_items(given)->0[i]))->0)
}

/// Whether a box is handed on, and nothing besides.
pub open spec fn box_is_kept(given: Option<JsonView>, out: Option<JsonView>) -> bool {
    &&& given is Some && out is Some && out->0 is Obj
    &&& out->0->Obj_0.len() == 4
    &&& number_is_kept(field(given->0, "x"@), field(out->0, "x"@))
    &&& number_is_kept(field(given->0, "y"@), field(out->0, "y"@))
    &&& number_is_kept(field(given->0, "width"@), field(out->0, "width"@))
    &&& number_is_kept(field(given->0, "height"@), field(out->0, "height"@))
}

/// Whether an outline of three to eight points is handed on, point by point.
pub open spec fn outline_is_kept(given: Option<JsonView>, out: Option<JsonView>) -> bool {
    &&& as_items(given) is Some && as_items(out) is Some
    &&& as_items(out)->0.len() == as_items(given)->0.len()
    &&& 3 <= as_items(out)->0.len() <= 8
    &&& forall|i: int|
        0 <= i < as_items(out)->0.len() ==> point_is_kept(
            as_items(given)->0[i],
            #[trigger] as_items(out)->0[i],
        )
}

/// Whether a point is handed on.
pub open spec fn point_is_kept(given: JsonView, out: JsonView) -> bool {
    &&& number_is_kept(field(given, "x"@), field(out, "x"@))
    &&& number_is_kept(field(given, "y"@), field(out, "y"@))
}

/// Whether the bleed of a panel is handed on, edge by edge.
pub open spec fn bleed_is_kept(given: Option<JsonView>, out: Option<JsonView>) -> bool {
    &&& given is Some <==> out is Some
    &&& given is Some ==> {
        &&& bool_at(out->0, "top"@) == bool_at(given->0, "top"@)
        &&& bool_at(out->0, "right"@) == bool_at(given->0, "right"@)
        &&& bool_at(out->0, "bottom"@) == bool_at(given->0, "bottom"@)
        &&& bool_at(out->0, "left"@) == bool_at(given->0, "left"@)
    }
}

/// Whether a panel of the geometry is handed on.
pub open spec fn geometry_panel_is_kept(given: JsonView, out: JsonView) -> bool {
    &&& int_at(given, "panelNo"@) is Some && int_at(given, "panelNo"@)->0 > 0
    &&& int_at(out, "panelNo"@) == int_at(given, "panelNo"@)
    &&& outline_is_kept(field(given, "polygon"@), field(out, "polygon"@))
    &&& box_is_kept(field(given, "bounds"@), field(out, "bounds"@))
    &&& box_is_kept(field(given, "textZone"@), field(out, "textZone"@))
    &&& int_at(out, "parentPanelNo"@) == int_at(given, "parentPanelNo"@)
    &&& bleed_is_kept(field(given, "bleed"@), field(out, "bleed"@))
}

/// Whether a geometry is handed on with all its panels.
pub open spec fn geometry_is_kept(given: Option<JsonView>, out: Option<JsonView>) -> bool {
    &&& given is Some && out is Some
    &&& text_at(out->0, "coordinateSystem"@) == Some("normalized-0-1"@)
    &&& text_at(given->0, "coordinateSystem"@) == Some("normalized-0-1"@)
    &&& int_at(out->0, "panelCount"@) == int_at(given->0, "panelCount"@)
    &&& integers_are_kept(field(given->0, "readingOrder"@), field(out->0, "readingOrder"@))
    &&& number_is_kept(field(given->0, "gutter"@), field(out->0, "gutter"@))
    &&& box_is_kept(field(given->0, "safeArea"@), field(out->0, "safeArea"@))
    &&& items_at(given->0, "panels"@) is Some && items_at(out->0, "panels"@) is Some
    &&& items_at(out->0, "panels"@)->0.len() == items_at(given->0, "panels"@)->0.len()
    &&& forall|i: int|
        0 <= i < items_at(out->0, "panels"@)->0.len() ==> geometry_panel_is_kept(
            items_at(given->0, "panels"@)->0[i],
            #[trigger] items_at(out->0, "panels"@)->0[i],
        )
}

/// Whether a mapping of source panels onto a target is handed on.
pub open spec fn mapping_is_kept(given: JsonView, out: JsonView) -> bool {
    &&& int_at(given, "targetPanelNo"@) is Some
    &&& int_at(out, "targetPanelNo"@) == int_at(given, "targetPanelNo"@)
    &&& integers_are_kept(field(given, "sourcePanelNos"@), field(out, "sourcePanelNos"@))
    &&& text_at(given, "mode"@) is Some
    &&& text_at(out, "mode"@) == text_at(given, "mode"@)
    &&& bool_at(given, "isDominant"@) is Some
    &&& bool_at(out, "isDominant"@) == bool_at(given, "isDominant"@)
}

/// Whether a mapping is the one of a panel onto itself.
pub open spec fn maps_onto_itself(out: JsonView, no: JsonView, dominant: Option<int>) -> bool {
    &&& int_at(out, "targetPanelNo"@) == as_int(Some(no))
    &&& items_at(out, "sourcePanelNos"@) is Some
    &&& items_at(out, "sourcePanelNos"@)->0.len() == 1
    &&& items_at(out, "sourcePanelNos"@)->0[0] == no
    &&& text_at(out, "mode"@) == Some("one_to_one"@)
    &&& bool_at(out, "isDominant"@) == Some(as_int(Some(no)) == dominant)
}

proof fn lemma_number(given: Option<JsonView>, allow_zero: bool)
    requires
        is_normalized(given, allow_zero),
    ensures
        number_is_kept(given, Some(crate::comic_page_layout::normalized_value(given))),
{
}

proof fn lemma_box(given: Option<JsonView>)
    requires
        is_bounds(given),
    ensures
        box_is_kept(given, Some(bounds_value(given))),
{
    broadcast use lemma_lookup_push;

    reveal_strlit("x");
    reveal_strlit("y");
    reveal_strlit("width");
    reveal_strlit("height");
    assert("x"@.len() == 1);
    assert("y"@.len() == 1);
    assert("x"@[0] == 'x');
    assert("y"@[0] == 'y');
    assert("width"@.len() == 5);
    assert("height"@.len() == 6);
    let m = crate::json::as_members(given)->0;
    lemma_number(lookup(m, "x"@), true);
    lemma_number(lookup(m, "y"@), true);
    lemma_number(lookup(m, "width"@), false);
    lemma_number(lookup(m, "height"@), false);
}

proof fn lemma_outline(given: Option<JsonView>)
    requires
        is_polygon(given),
    ensures
        outline_is_kept(given, Some(polygon_value(given))),
{
    broadcast use lemma_lookup_push;

    reveal_strlit("x");
    reveal_strlit("y");
    assert("x"@.len() == 1);
    assert("y"@.len() == 1);
    assert("x"@[0] == 'x');
    assert("y"@[0] == 'y');
    let v = as_items(given)->0;
    let out = polygon_value(given)->Arr_0;
    assert forall|i: int| 0 <= i < out.len() implies point_is_kept(v[i], #[trigger] out[i]) by {
        assert(is_point(v[i]));
        assert(out[i] == point_value(v[i]));
    }
}

proof fn lemma_bleed(given: JsonView)
    requires
        is_bleed(given),
    ensures
        bleed_is_kept(Some(given), Some(bleed_value(given))),
{
    broadcast use lemma_lookup_push;

    reveal_strlit("top");
    reveal_strlit("right");
    reveal_strlit("bottom");
    reveal_strlit("left");
    assert("top"@.len() == 3);
    assert("left"@.len() == 4);
    assert("right"@.len() == 5);
    assert("bottom"@.len() == 6);
}

proof fn lemma_geometry_panel(given: JsonView, order: Seq<int>)
    requires
        is_geometry_panel(given, order),
    ensures
        geometry_panel_is_kept(given, geometry_panel_value(given)),
{
    broadcast use lemma_lookup_push;

    reveal_strlit("panelNo");
    reveal_strlit("polygon");
    reveal_strlit("bounds");
    reveal_strlit("textZone");
    reveal_strlit("parentPanelNo");
    reveal_strlit("bleed");
    assert("bleed"@.len() == 5);
    assert("bounds"@.len() == 6);
    assert("panelNo"@.len() == 7);
    assert("polygon"@.len() == 7);
    assert("panelNo"@[1] == 'a');
    assert("polygon"@[1] == 'o');
    assert("textZone"@.len() == 8);
    assert("parentPanelNo"@.len() == 13);
    lemma_outline(field(given, "polygon"@));
    lemma_box(field(given, "bounds"@));
    lemma_box(field(given, "textZone"@));
    if field(given, "bleed"@) is Some {
        lemma_bleed(field(given, "bleed"@)->0);
    }
}

proof fn lemma_order(given: Option<JsonView>, count: int)
    requires
        crate::comic_page_layout::is_order(given, count),
    ensures
        integers_are_kept(given, Some(ints_value(order_of(given)))),
{
    let items = as_items(given)->0;
    assert forall|i: int| 0 <= i < items.len() implies as_int(Some(items[i])) is Some && (
    #[trigger] ints_value(order_of(given))->Arr_0[i]) == JsonView::Int(as_int(Some(items[i]))->0) by {
        assert(positive(Some(items[i])) is Some);
    }
}

proof fn lemma_geometry(given: Option<JsonView>, count: int, order: Seq<int>)
    requires
        crate::comic_page_layout::is_geometry(given, count, order),
    ensures
        geometry_is_kept(given, Some(geometry_value(given, count, order))),
{
    broadcast use lemma_lookup_push;

    reveal_strlit("coordinateSystem");
    reveal_strlit("panelCount");
    reveal_strlit("readingOrder");
    reveal_strlit("gutter");
    reveal_strlit("safeArea");
    reveal_strlit("panels");
    assert("gutter"@.len() == 6);
    assert("panels"@.len() == 6);
    assert("gutter"@[0] == 'g');
    assert("panels"@[0] == 'p');
    assert("safeArea"@.len() == 8);
    assert("panelCount"@.len() == 10);
    assert("readingOrder"@.len() == 12);
    assert("coordinateSystem"@.len() == 16);
    let g = given->0;
    let out = geometry_value(given, count, order);
    lemma_order(field(g, "readingOrder"@), count);
    lemma_number(field(g, "gutter"@), true);
    lemma_box(field(g, "safeArea"@));
    let panels = items_at(g, "panels"@)->0;
    let kept = items_at(out, "panels"@)->0;
    assert forall|i: int| 0 <= i < kept.len() implies geometry_panel_is_kept(
        panels[i],
        #[trigger] kept[i],
    ) by {
        assert(is_geometry_panel(panels[i], order));
        lemma_geometry_panel(panels[i], order);
        assert(kept[i] == geometry_panel_value(panels[i]));
    }
}

proof fn lemma_mapping(given: JsonView, order: Seq<int>, sources: Seq<int>, dominant: int)
    requires
        is_mapping(given, order, sources, dominant),
    ensures
        mapping_is_kept(given, mapping_value(given)),
{
    broadcast use lemma_lookup_push;

    reveal_strlit("targetPanelNo");
    reveal_strlit("sourcePanelNos");
    reveal_strlit("mode");
    reveal_strlit("isDominant");
    assert("mode"@.len() == 4);
    assert("isDominant"@.len() == 10);
    assert("targetPanelNo"@.len() == 13);
    assert("sourcePanelNos"@.len() == 14);
    let items = items_at(given, "sourcePanelNos"@)->0;
    let out = ints_value(order_of(field(given, "sourcePanelNos"@)))->Arr_0;
    assert forall|i: int| 0 <= i < items.len() implies as_int(Some(items[i])) is Some && (
    #[trigger] out[i]) == JsonView::Int(as_int(Some(items[i]))->0) by {
        assert(positive(Some(items[i])) is Some);
    }
}

proof fn lemma_self_mapping(no: int, dominant: int)
    requires
        0 < no <= i64::MAX,
    ensures
        maps_onto_itself(one_to_one_value(no, dominant), JsonView::Int(no), Some(dominant)),
{
    broadcast use lemma_lookup_push;

    reveal_strlit("targetPanelNo");
    reveal_strlit("sourcePanelNos");
    reveal_strlit("mode");
    reveal_strlit("isDominant");
    assert("mode"@.len() == 4);
    assert("isDominant"@.len() == 10);
    assert("targetPanelNo"@.len() == 13);
    assert("sourcePanelNos"@.len() == 14);
}

/// Whether a layout control repeats what the layout of a page says and nothing else.
pub open spec fn layout_is_repeated(page: JsonView, c: JsonView) -> bool {
    let layout = field(page, "layout"@)->0;
    let given = items_at(layout, "targetPanelMappings"@);
    let out = items_at(c, "targetPanelMappings"@);
    let order = items_at(layout, "readingOrder"@);
    &&& field(page, "layout"@) is Some && layout is Obj
    &&& c is Obj && c->Obj_0.len() == 9
    &&& int_at(page, "pageNo"@) is Some && int_at(page, "pageNo"@)->0 > 0
    &&& int_at(c, "pageNo"@) == int_at(page, "pageNo"@)
    &&& text_at(c, "aspectRatio"@) == Some("2:3"@)
    &&& text_at(layout, "templateId"@) is Some
    &&& text_at(c, "templateId"@) == text_at(layout, "templateId"@)
    &&& text_at(c, "layoutKind"@) == Some(
        if text_at(layout, "templateId"@) == Some("custom_irregular"@) {
            "custom_irregular"@
        } else {
            "template"@
        },
    )
    &&& int_at(layout, "panelCount"@) is Some
    &&& int_at(c, "panelCount"@) == int_at(layout, "panelCount"@)
    &&& items_at(page, "panels"@) is Some && items_at(page, "panels"@)->0.len() == int_at(
        layout,
        "panelCount"@,
    )->0
    &&& integers_are_kept(field(layout, "readingOrder"@), field(c, "readingOrder"@))
    &&& int_at(layout, "dominantPanel"@) is Some
    &&& int_at(c, "dominantPanel"@) == int_at(layout, "dominantPanel"@)
    &&& geometry_is_kept(field(layout, "geometry"@), field(c, "geometry"@))
    &&& out is Some
    &&& given is Some && given->0.len() > 0 ==> out->0.len() == given->0.len() && forall|i: int|
        0 <= i < out->0.len() ==> mapping_is_kept(given->0[i], #[trigger] out->0[i])
    &&& given is None || given->0.len() == 0 ==> out->0.len() == order->0.len() && forall|i: int|
        0 <= i < out->0.len() ==> maps_onto_itself(
            #[trigger] out->0[i],
            order->0[i],
            int_at(layout, "dominantPanel"@),
        )
}

/// The layout control of a page repeats what its layout says and nothing else: the number of the
/// page, the template and its kind, how many panels there are, in which order they are read and
/// which one dominates, the whole geometry, and which source panels become which panel; where
/// the layout maps none, every panel stands for itself.
pub proof fn control_repeats_the_layout(page: JsonView, layout_accepted: bool)
    requires
        is_controlled(page, layout_accepted),
    ensures
        layout_accepted,
        layout_is_repeated(page, control_value(page)),
{
    broadcast use lemma_lookup_push;

    reveal_strlit("pageNo");
    reveal_strlit("aspectRatio");
    reveal_strlit("templateId");
    reveal_strlit("layoutKind");
    reveal_strlit("panelCount");
    reveal_strlit("readingOrder");
    reveal_strlit("dominantPanel");
    reveal_strlit("geometry");
    reveal_strlit("targetPanelMappings");
    assert("pageNo"@.len() == 6);
    assert("geometry"@.len() == 8);
    assert("templateId"@.len() == 10);
    assert("layoutKind"@.len() == 10);
    assert("panelCount"@.len() == 10);
    assert("templateId"@[0] == 't');
    assert("layoutKind"@[0] == 'l');
    assert("panelCount"@[0] == 'p');
    assert("aspectRatio"@.len() == 11);
    assert("readingOrder"@.len() == 12);
    assert("dominantPanel"@.len() == 13);
    assert("targetPanelMappings"@.len() == 19);
    let layout = field(page, "layout"@)->0;
    let c = control_value(page);
    let count = int_at(layout, "panelCount"@)->0;
    let order = order_of(field(layout, "readingOrder"@));
    lemma_order(field(layout, "readingOrder"@), count);
    lemma_geometry(field(layout, "geometry"@), count, order);
    let out = items_at(c, "targetPanelMappings"@)->0;
    let panels = items_at(page, "panels"@)->0;
    let dominant = int_at(layout, "dominantPanel"@)->0;
    match stated_mappings(layout) {
        Some(given) => {
            assert forall|i: int| 0 <= i < out.len() implies mapping_is_kept(
                given[i],
                #[trigger] out[i],
            ) by {
                assert(out[i] == mapping_value(given[i]));
                assert(is_mapping(
                    given[i],
                    order,
                    crate::comic_page_layout::panel_numbers(panels),
                    dominant,
                ));
                lemma_mapping(
                    given[i],
                    order,
                    crate::comic_page_layout::panel_numbers(panels),
                    dominant,
                );
            }
        },
        None => {
            let listed = items_at(layout, "readingOrder"@)->0;
            assert forall|i: int| 0 <= i < out.len() implies maps_onto_itself(
                #[trigger] out[i],
                listed[i],
                Some(dominant),
            ) by {
                assert(positive(Some(listed[i])) is Some);
                assert(out[i] == one_to_one_value(order[i], dominant));
                lemma_self_mapping(order[i], dominant);
                assert(listed[i] == JsonView::Int(order[i]));
            }
        },
    }
}

// ---------------------------------------------------------------------------
// The words of a page
// ---------------------------------------------------------------------------

/// Whether a list of the ledger holds every text of a list of the panel, one entry for each, in
/// order and word for word.
pub open spec fn texts_are_kept(
    given: JsonView,
    entry: JsonView,
    key: Seq<char>,
    kind: Seq<char>,
) -> bool {
    let texts = items_at(given, key);
    let out = items_at(entry, key);
    &&& out is Some
    &&& field(given, key) is None ==> out->0.len() == 0
    &&& field(given, key) is Some ==> texts is Some && out->0.len() == texts->0.len()
    &&& forall|i: int|
        0 <= i < out->0.len() ==> as_text(Some(texts->0[i])) is Some && text_at(
            #[trigger] out->0[i],
            "renderText"@,
        ) == as_text(Some(texts->0[i])) && text_at(out->0[i], "renderKind"@) == Some(kind)
}

/// Whether a panel names a character.
pub open spec fn names_character(given: JsonView, name: Seq<char>) -> bool {
    exists|k: int|
        0 <= k < items_at(given, "characterKeys"@)->0.len() && #[trigger] items_at(
            given,
            "characterKeys"@,
        )->0[k] == JsonView::Str(name)
}

/// Whether an entry of the ledger holds a dialogue: what is said, word for word, who is hinted
/// to say it, and who that is, where the panel names a character so.
pub open spec fn dialogue_is_kept(given: JsonView, item: JsonView, entry: JsonView) -> bool {
    let said = match item {
        JsonView::Str(s) => Some(s),
        _ => text_at(item, "text"@),
    };
    let speaker = text_at(item, "speaker"@);
    &&& said is Some
    &&& text_at(entry, "renderText"@) == said
    &&& field(item, "speaker"@) is Some ==> speaker is Some
    &&& text_at(entry, "speakerHint"@) == speaker
    &&& text_at(entry, "resolvedCharacterKey"@) == if speaker is Some && field(
        given,
        "characterKeys"@,
    ) is Some && names_character(given, speaker->0) {
        speaker
    } else {
        None
    }
}

/// Whether the ledger holds every dialogue of a panel, in order.
pub open spec fn dialogues_are_kept(given: JsonView, entry: JsonView) -> bool {
    let items = items_at(given, "dialogues"@);
    let out = items_at(entry, "dialogues"@);
    &&& out is Some
    &&& field(given, "dialogues"@) is None ==> out->0.len() == 0
    &&& field(given, "dialogues"@) is Some ==> items is Some && out->0.len() == items->0.len()
    &&& forall|i: int|
        0 <= i < out->0.len() ==> dialogue_is_kept(given, items->0[i], #[trigger] out->0[i])
}

/// Whether an entry of the ledger holds all printable words of a panel, each under its own
/// heading.
pub open spec fn words_are_kept(panel: JsonView, entry: JsonView) -> bool {
    let given = field(panel, "spec"@)->0;
    &&& field(panel, "spec"@) is Some && given is Obj
    &&& int_at(panel, "panelNo"@) is Some
    &&& int_at(entry, "panelNo"@) == int_at(panel, "panelNo"@)
    &&& dialogues_are_kept(given, entry)
    &&& texts_are_kept(given, entry, "captions"@, "caption"@)
    &&& texts_are_kept(given, entry, "soundEffects"@, "soundEffect"@)
}

/// Whether a panel is handed on without its printable words, and otherwise as it is.
pub open spec fn semantics_are_kept(panel: JsonView, out: JsonView) -> bool {
    let given = field(panel, "spec"@)->0;
    let left = field(out, "spec"@)->0;
    &&& field(out, "spec"@) is Some
    &&& forall|k: Seq<char>| k != "spec"@ ==> #[trigger] field(out, k) == field(panel, k)
    &&& forall|k: Seq<char>| #[trigger]
        field(left, k) == if k == "dialogues"@ || k == "captions"@ || k == "soundEffects"@ {
            None
        } else {
            field(given, k)
        }
}

proof fn lemma_texts(given: JsonView, key: Seq<char>, kind: Seq<char>, entry: JsonView)
    requires
        crate::comic_page_compiler::are_texts(field(given, key)),
        field(entry, key) == Some(JsonView::Arr(text_ledger(field(given, key), kind))),
    ensures
        texts_are_kept(given, entry, key, kind),
{
    let texts = items_at(given, key)->0;
    let out = items_at(entry, key)->0;
    assert forall|i: int| 0 <= i < out.len() implies as_text(Some(texts[i])) is Some && text_at(
        #[trigger] out[i],
        "renderText"@,
    ) == as_text(Some(texts[i])) && text_at(out[i], "renderKind"@) == Some(kind) by {
        broadcast use lemma_lookup_push;

        reveal_strlit("renderText");
        reveal_strlit("renderKind");
        assert("renderText"@.len() == 10);
        assert("renderKind"@.len() == 10);
        assert("renderText"@[6] == 'T');
        assert("renderKind"@[6] == 'K');
        assert("renderText"@[6] == 'T' && "renderKind"@[6] == 'K');
        assert(as_text(Some(texts[i])) is Some);
        assert(out[i] == text_value(as_text(Some(texts[i]))->0, kind));
    }
}

proof fn lemma_dialogue(given: JsonView, item: JsonView)
    requires
        is_dialogue(item),
        crate::comic_page_compiler::are_texts(field(given, "characterKeys"@)),
    ensures
        dialogue_is_kept(
            given,
            item,
            dialogue_value(item, texts_of(field(given, "characterKeys"@))),
        ),
{
    broadcast use lemma_lookup_push;

    reveal_strlit("renderText");
    reveal_strlit("speakerHint");
    reveal_strlit("resolvedCharacterKey");
    assert("renderText"@.len() == 10);
    assert("speakerHint"@.len() == 11);
    assert("resolvedCharacterKey"@.len() == 20);
    let keys = texts_of(field(given, "characterKeys"@));
    let speaker = text_at(item, "speaker"@);
    if speaker is Some && field(given, "characterKeys"@) is Some {
        let items = items_at(given, "characterKeys"@)->0;
        if names_character(given, speaker->0) {
            let k = choose|k: int| 0 <= k < items.len() && items[k] == JsonView::Str(speaker->0);
            assert(keys[k] == speaker->0);
        }
        if keys.contains(speaker->0) {
            let k = choose|k: int| 0 <= k < keys.len() && keys[k] == speaker->0;
            assert(as_text(Some(items[k])) is Some);
            assert(items_at(given, "characterKeys"@)->0[k] == JsonView::Str(speaker->0));
        }
    }
}

proof fn lemma_words(panel: JsonView)
    requires
        has_ledger(panel),
    ensures
        words_are_kept(panel, panel_ledger(panel)),
{
    let given = field(panel, "spec"@)->0;
    let entry = panel_ledger(panel);
    assert(int_at(entry, "panelNo"@) == int_at(panel, "panelNo"@) && field(entry, "dialogues"@)
        == Some(
        JsonView::Arr(
            dialogue_ledger(field(given, "dialogues"@), texts_of(field(given, "characterKeys"@))),
        ),
    ) && field(entry, "captions"@) == Some(
        JsonView::Arr(text_ledger(field(given, "captions"@), "caption"@)),
    ) && field(entry, "soundEffects"@) == Some(
        JsonView::Arr(text_ledger(field(given, "soundEffects"@), "soundEffect"@)),
    )) by {
        broadcast use lemma_lookup_push;

        reveal_strlit("panelNo");
        reveal_strlit("dialogues");
        reveal_strlit("captions");
        reveal_strlit("soundEffects");
        assert("panelNo"@.len() == 7);
        assert("captions"@.len() == 8);
        assert("dialogues"@.len() == 9);
        assert("soundEffects"@.len() == 12);
    }
    lemma_texts(given, "captions"@, "caption"@, entry);
    lemma_texts(given, "soundEffects"@, "soundEffect"@, entry);
    if field(given, "dialogues"@) is Some {
        let items = items_at(given, "dialogues"@)->0;
        let out = items_at(entry, "dialogues"@)->0;
        assert forall|i: int| 0 <= i < out.len() implies dialogue_is_kept(
            given,
            items[i],
            #[trigger] out[i],
        ) by {
            assert(is_dialogue(items[i]));
            lemma_dialogue(given, items[i]);
        }
    }
}

proof fn lemma_without_text(m: Seq<(Seq<char>, JsonView)>, key: Seq<char>)
    ensures
        lookup(without_text(m), key) == if is_printable_key(key) {
            None
        } else {
            lookup(m, key)
        },
    decreases m.len(),
{
    let keep = |e: (Seq<char>, JsonView)| !is_printable_key(e.0);
    reveal(Seq::filter);
    if m.len() > 0 {
        let rest = m.drop_last();
        let last = m.last();
        lemma_without_text(rest, key);
        assert(m =~= rest.push((last.0, last.1)));
        lemma_lookup_push(rest, last.0, last.1, key);
        if keep(last) {
            assert(without_text(m) == without_text(rest).push((last.0, last.1)));
            lemma_lookup_push(without_text(rest), last.0, last.1, key);
        }
    }
}

proof fn lemma_semantic_lookup(m: Seq<(Seq<char>, JsonView)>, key: Seq<char>)
    ensures
        field(semantic_panel(JsonView::Obj(m)), key) == match lookup(m, key) {
            Some(v) => Some(
                if key == "spec"@ {
                    crate::comic_page_compiler::stripped(v)
                } else {
                    v
                },
            ),
            None => None,
        },
    decreases m.len(),
{
    let out = semantic_panel(JsonView::Obj(m))->Obj_0;
    if m.len() > 0 {
        let rest = m.drop_last();
        let last = m.last();
        lemma_semantic_lookup(rest, key);
        assert(m =~= rest.push((last.0, last.1)));
        lemma_lookup_push(rest, last.0, last.1, key);
        let left = semantic_panel(JsonView::Obj(rest))->Obj_0;
        let end = out[m.len() - 1];
        assert(out =~= left.push((end.0, end.1)));
        lemma_lookup_push(left, end.0, end.1, key);
    }
}

proof fn lemma_semantics(panel: JsonView)
    requires
        has_ledger(panel),
    ensures
        semantics_are_kept(panel, semantic_panel(panel)),
{
    let out = semantic_panel(panel);
    let m = panel->Obj_0;
    lemma_semantic_lookup(m, "spec"@);
    assert forall|k: Seq<char>| k != "spec"@ implies #[trigger] field(out, k) == field(panel, k) by {
        lemma_semantic_lookup(m, k);
    }
    let given = field(panel, "spec"@)->0;
    let left = field(out, "spec"@)->0;
    assert forall|k: Seq<char>| #[trigger]
        field(left, k) == if k == "dialogues"@ || k == "captions"@ || k == "soundEffects"@ {
            None
        } else {
            field(given, k)
        } by {
        lemma_without_text(given->Obj_0, k);
    }
}

// ---------------------------------------------------------------------------
// The scenes of a page
// ---------------------------------------------------------------------------

/// Whether a panel and a context name the same scene.
pub open spec fn scene_agrees(panel: JsonView, context: JsonView) -> bool {
    text_at(context, "productionSceneId"@) is Some && text_at(context, "productionSceneId"@)
        == text_at(panel, "productionSceneId"@)
}

/// Whether a context is frozen in a manifest, resolved, and the one that a panel of a page names
/// by its scene and its snapshot.
pub open spec fn context_is_named(all: Seq<JsonView>, panels: Seq<JsonView>, context: JsonView) -> bool {
    &&& all.contains(context)
    &&& field(context, "resolvedContext"@) is Some && field(context, "resolvedContext"@)->0 is Obj
    &&& text_at(context, "resolvedContextHash"@) is Some
    &&& !is_blank(text_at(context, "resolvedContextHash"@)->0)
    &&& exists|i: int|
        0 <= i < panels.len() && scene_agrees(#[trigger] panels[i], context) && text_at(
            context,
            "sceneContextSnapshotId"@,
        ) == text_at(panels[i], "sceneContextSnapshotId"@)
}

/// Whether contexts hold the one of a panel's scene.
pub open spec fn scene_is_told(contexts: Seq<JsonView>, panel: JsonView) -> bool {
    exists|c: int| 0 <= c < contexts.len() && scene_agrees(panel, #[trigger] contexts[c])
}

/// Whether contexts are those of the scenes of panels, each scene once.
pub open spec fn scenes_are_told(
    all: Seq<JsonView>,
    panels: Seq<JsonView>,
    contexts: Seq<JsonView>,
) -> bool {
    &&& forall|c: int|
        0 <= c < contexts.len() ==> context_is_named(all, panels, #[trigger] contexts[c])
    &&& forall|i: int| 0 <= i < panels.len() ==> scene_is_told(contexts, #[trigger] panels[i])
    &&& forall|c: int, d: int|
        0 <= c < d < contexts.len() ==> text_at(#[trigger] contexts[c], "productionSceneId"@)
            != text_at(#[trigger] contexts[d], "productionSceneId"@)
}

proof fn lemma_panel_context(all: Seq<JsonView>, panels: Seq<JsonView>, i: int)
    requires
        0 <= i < panels.len(),
        panel_context(all, panels[i]) is Some,
    ensures
        context_is_named(all, panels, panel_context(all, panels[i])->0),
        scene_agrees(panels[i], panel_context(all, panels[i])->0),
        named(panels[i], "productionSceneId"@) == text_at(panels[i], "productionSceneId"@),
{
    let panel = panels[i];
    let scene = named(panel, "productionSceneId"@)->0;
    let snapshot = named(panel, "sceneContextSnapshotId"@)->0;
    let k = lemma_first_index(all, context_is(scene, snapshot));
    let context = panel_context(all, panel)->0;
    assert(context == all[k]);
    assert(context_is(scene, snapshot)(all[k]));
    assert(scene_agrees(panels[i], context));
}

/// Whether every panel has a context.
spec fn all_have_contexts(all: Seq<JsonView>, panels: Seq<JsonView>) -> bool {
    forall|i: int| 0 <= i < panels.len() ==> panel_context(all, #[trigger] panels[i]) is Some
}

proof fn lemma_rest_has_contexts(all: Seq<JsonView>, panels: Seq<JsonView>)
    requires
        panels.len() > 0,
        all_have_contexts(all, panels),
    ensures
        all_have_contexts(all, panels.drop_last()),
{
    assert forall|i: int| 0 <= i < panels.drop_last().len() implies panel_context(
        all,
        #[trigger] panels.drop_last()[i],
    ) is Some by {
        assert(panels.drop_last()[i] == panels[i]);
    }
}

proof fn lemma_still_named(all: Seq<JsonView>, panels: Seq<JsonView>, context: JsonView)
    requires
        panels.len() > 0,
        context_is_named(all, panels.drop_last(), context),
    ensures
        context_is_named(all, panels, context),
{
    let rest = panels.drop_last();
    let i = choose|i: int|
        0 <= i < rest.len() && scene_agrees(#[trigger] rest[i], context) && text_at(
            context,
            "sceneContextSnapshotId"@,
        ) == text_at(rest[i], "sceneContextSnapshotId"@);
    assert(panels[i] == rest[i]);
}

proof fn lemma_contexts_named(all: Seq<JsonView>, panels: Seq<JsonView>)
    requires
        all_have_contexts(all, panels),
    ensures
        forall|c: int|
            0 <= c < contexts_of_panels(all, panels).len() ==> context_is_named(
                all,
                panels,
                #[trigger] contexts_of_panels(all, panels)[c],
            ),
    decreases panels.len(),
{
    if panels.len() > 0 {
        let rest = panels.drop_last();
        lemma_rest_has_contexts(all, panels);
        lemma_contexts_named(all, rest);
        let before = contexts_of_panels(all, rest);
        let after = contexts_of_panels(all, panels);
        assert(panels.last() == panels[panels.len() - 1]);
        lemma_panel_context(all, panels, panels.len() - 1);
        assert forall|c: int| 0 <= c < after.len() implies context_is_named(
            all,
            panels,
            #[trigger] after[c],
        ) by {
            if c < before.len() {
                assert(after[c] == before[c]);
                lemma_still_named(all, panels, before[c]);
            }
        }
    }
}

proof fn lemma_told_more(contexts: Seq<JsonView>, more: Seq<JsonView>, panel: JsonView)
    requires
        scene_is_told(contexts, panel),
        contexts.len() <= more.len(),
        forall|c: int| 0 <= c < contexts.len() ==> contexts[c] == #[trigger] more[c],
    ensures
        scene_is_told(more, panel),
{
    let c = choose|c: int| 0 <= c < contexts.len() && scene_agrees(panel, #[trigger] contexts[c]);
    assert(scene_agrees(panel, more[c]));
}

proof fn lemma_told_alike(contexts: Seq<JsonView>, a: JsonView, b: JsonView)
    requires
        scene_is_told(contexts, a),
        text_at(a, "productionSceneId"@) == text_at(b, "productionSceneId"@),
    ensures
        scene_is_told(contexts, b),
{
    let c = choose|c: int| 0 <= c < contexts.len() && scene_agrees(a, #[trigger] contexts[c]);
    assert(scene_agrees(b, contexts[c]));
}

proof fn lemma_scenes_told(all: Seq<JsonView>, panels: Seq<JsonView>)
    requires
        all_have_contexts(all, panels),
    ensures
        forall|i: int|
            0 <= i < panels.len() ==> scene_is_told(
                contexts_of_panels(all, panels),
                #[trigger] panels[i],
            ),
    decreases panels.len(),
{
    if panels.len() > 0 {
        let rest = panels.drop_last();
        let n = panels.len() - 1;
        lemma_rest_has_contexts(all, panels);
        lemma_scenes_told(all, rest);
        let before = contexts_of_panels(all, rest);
        let after = contexts_of_panels(all, panels);
        let last = panels.last();
        assert(last == panels[n]);
        lemma_panel_context(all, panels, n);
        let scene = named(last, "productionSceneId"@);
        assert forall|i: int| 0 <= i < panels.len() implies scene_is_told(
            after,
            #[trigger] panels[i],
        ) by {
            if i < n {
                assert(rest[i] == panels[i]);
                lemma_told_more(before, after, rest[i]);
            } else if scene_seen(rest, scene) {
                let j = choose|j: int|
                    0 <= j < rest.len() && named(#[trigger] rest[j], "productionSceneId"@) == scene;
                assert(panels[j] == rest[j]);
                lemma_panel_context(all, panels, j);
                lemma_told_more(before, after, rest[j]);
                lemma_told_alike(after, rest[j], last);
            } else {
                assert(scene_agrees(last, after[before.len() as int]));
            }
        }
    }
}

proof fn lemma_scenes_once(all: Seq<JsonView>, panels: Seq<JsonView>)
    requires
        all_have_contexts(all, panels),
    ensures
        forall|c: int, d: int|
            0 <= c < d < contexts_of_panels(all, panels).len() ==> text_at(
                #[trigger] contexts_of_panels(all, panels)[c],
                "productionSceneId"@,
            ) != text_at(#[trigger] contexts_of_panels(all, panels)[d], "productionSceneId"@),
    decreases panels.len(),
{
    if panels.len() > 0 {
        let rest = panels.drop_last();
        let n = panels.len() - 1;
        lemma_rest_has_contexts(all, panels);
        lemma_scenes_once(all, rest);
        lemma_contexts_named(all, rest);
        let before = contexts_of_panels(all, rest);
        let after = contexts_of_panels(all, panels);
        assert(panels.last() == panels[n]);
        lemma_panel_context(all, panels, n);
        let scene = named(panels.last(), "productionSceneId"@);
        assert forall|c: int, d: int| 0 <= c < d < after.len() implies text_at(
            #[trigger] after[c],
            "productionSceneId"@,
        ) != text_at(#[trigger] after[d], "productionSceneId"@) by {
            assert(after[c] == before[c]);
            if d < before.len() {
                assert(after[d] == before[d]);
            } else {
                assert(context_is_named(all, rest, before[c]));
                let i = choose|i: int|
                    0 <= i < rest.len() && scene_agrees(#[trigger] rest[i], before[c]) && text_at(
                        before[c],
                        "sceneContextSnapshotId"@,
                    ) == text_at(rest[i], "sceneContextSnapshotId"@);
                assert(panels[i] == rest[i]);
                lemma_panel_context(all, panels, i);
                assert(named(rest[i], "productionSceneId"@) != scene);
            }
        }
    }
}

proof fn lemma_scenes(all: Seq<JsonView>, panels: Seq<JsonView>)
    requires
        all_have_contexts(all, panels),
    ensures
        scenes_are_told(all, panels, contexts_of_panels(all, panels)),
{
    lemma_contexts_named(all, panels);
    lemma_scenes_told(all, panels);
    lemma_scenes_once(all, panels);
}

// ---------------------------------------------------------------------------
// The compiled request
// ---------------------------------------------------------------------------

/// Whether every panel of a page stands in a compiled request with all its printable words and,
/// apart from them, with all that the page says of it.
pub open spec fn words_and_semantics_are_kept(page: JsonView, out: JsonView) -> bool {
    let input = field(out, "compilerInput"@)->0;
    let plan = field(input, "textRenderPlan"@)->0;
    let panels = items_at(page, "panels"@);
    &&& field(out, "compilerInput"@) is Some && field(input, "textRenderPlan"@) is Some
    &&& panels is Some && panels->0.len() > 0
    &&& text_at(plan, "version"@) == Some("comic-text-render-plan.v1"@)
    &&& items_at(plan, "panels"@) is Some
    &&& items_at(plan, "panels"@)->0.len() == panels->0.len()
    &&& forall|i: int|
        0 <= i < panels->0.len() ==> words_are_kept(
            panels->0[i],
            #[trigger] items_at(plan, "panels"@)->0[i],
        )
    &&& items_at(input, "pagePanels"@) is Some
    &&& items_at(input, "pagePanels"@)->0.len() == panels->0.len()
    &&& forall|i: int|
        0 <= i < panels->0.len() ==> semantics_are_kept(
            panels->0[i],
            #[trigger] items_at(input, "pagePanels"@)->0[i],
        )
}

/// Whether the input of a compiled request tells the scenes of a page and repeats its layout.
pub open spec fn input_is_of(manifest: JsonView, page: JsonView, input: JsonView) -> bool {
    let provenance = field(manifest, "provenance"@)->0;
    &&& field(manifest, "provenance"@) is Some
    &&& items_at(provenance, "sceneContexts"@) is Some
    &&& items_at(page, "panels"@) is Some
    &&& items_at(input, "sceneContexts"@) is Some
    &&& scenes_are_told(
        items_at(provenance, "sceneContexts"@)->0,
        items_at(page, "panels"@)->0,
        items_at(input, "sceneContexts"@)->0,
    )
    &&& field(input, "control"@) is Some
    &&& layout_is_repeated(page, field(input, "control"@)->0)
}

/// A compiled page loses no printable word and nothing else that it says: each panel has its
/// entry in the text plan, under whose headings every dialogue, caption and sound effect stands
/// once, in order and word for word; and each panel is described by all its other fields.
pub proof fn compiled_page_loses_no_words(
    request: JsonView,
    fingerprint: Seq<char>,
    manifest: JsonView,
    page: JsonView,
    default_model: Seq<char>,
    layout_accepted: bool,
)
    requires
        compiled(
            "comic-page-compiler.v3"@,
            request,
            fingerprint,
            manifest,
            page,
            default_model,
            layout_accepted,
        ) is Ok,
    ensures
        words_and_semantics_are_kept(
            page,
            compiled(
                "comic-page-compiler.v3"@,
                request,
                fingerprint,
                manifest,
                page,
                default_model,
                layout_accepted,
            )->Ok_0,
        ),
{
    let out = compiled(
        "comic-page-compiler.v3"@,
        request,
        fingerprint,
        manifest,
        page,
        default_model,
        layout_accepted,
    )->Ok_0;
    lemma_versions_differ();
    let contexts = scene_contexts(manifest, page)->Ok_0;
    lemma_compiled_fields(
        "comic-page-compiler.v3"@,
        request,
        fingerprint,
        manifest,
        page,
        default_model,
        layout_accepted,
    );
    let input = field(out, "compilerInput"@)->0;
    lemma_input_fields(page, contexts);
    let plan = field(input, "textRenderPlan"@)->0;
    assert(text_at(plan, "version"@) == Some("comic-text-render-plan.v1"@) && items_at(
        plan,
        "panels"@,
    ) is Some) by {
        broadcast use lemma_lookup_push;

        reveal_strlit("version");
        reveal_strlit("panels");
        assert("panels"@.len() == 6);
        assert("version"@.len() == 7);
    }
    let panels = items_at(page, "panels"@)->0;
    let entries = items_at(plan, "panels"@)->0;
    assert(entries =~= Seq::new(panels.len(), |i: int| panel_ledger(panels[i]))) by {
        broadcast use lemma_lookup_push;

        reveal_strlit("version");
        reveal_strlit("panels");
        assert("panels"@.len() == 6);
        assert("version"@.len() == 7);
    }
    let semantics = items_at(input, "pagePanels"@)->0;
    assert forall|i: int| 0 <= i < panels.len() implies words_are_kept(
        panels[i],
        #[trigger] entries[i],
    ) by {
        assert(has_ledger(panels[i]));
        lemma_words(panels[i]);
    }
    assert forall|i: int| 0 <= i < panels.len() implies semantics_are_kept(
        panels[i],
        #[trigger] semantics[i],
    ) by {
        assert(has_ledger(panels[i]));
        lemma_semantics(panels[i]);
    }
}

proof fn lemma_versions_differ()
    ensures
        "comic-page-compiler.v2"@ != "comic-page-compiler.v3"@,
        COMPILER_CONTRACT@ == "comic-page-compiler.v3"@,
        COMPILER_CONTRACT_V2@ == "comic-page-compiler.v2"@,
{
    reveal_strlit("comic-page-compiler.v2");
    reveal_strlit("comic-page-compiler.v3");
    assert("comic-page-compiler.v2"@[21] == '2');
    assert("comic-page-compiler.v3"@[21] == '3');
}

/// The input of a request of the present contract.
spec fn input_v3(page: JsonView, contexts: Seq<JsonView>) -> JsonView {
    JsonView::Obj(
        no_members()
            .push(("pagePanels"@, semantic_panels(page)))
            .push(("textRenderPlan"@, text_render_plan(page)))
            .push(("sceneContexts"@, JsonView::Arr(contexts)))
            .push(("control"@, control_value(page))),
    )
}

/// The input of a request of the second contract.
spec fn input_v2(page: JsonView, contexts: Seq<JsonView>) -> JsonView {
    JsonView::Obj(
        no_members()
            .push(("page"@, page))
            .push(("sceneContexts"@, JsonView::Arr(contexts)))
            .push(("control"@, control_value(page))),
    )
}

proof fn lemma_input_fields(page: JsonView, contexts: Seq<JsonView>)
    ensures
        field(input_v3(page, contexts), "pagePanels"@) == Some(semantic_panels(page)),
        field(input_v3(page, contexts), "textRenderPlan"@) == Some(text_render_plan(page)),
        field(input_v3(page, contexts), "sceneContexts"@) == Some(JsonView::Arr(contexts)),
        field(input_v3(page, contexts), "control"@) == Some(control_value(page)),
        field(input_v2(page, contexts), "page"@) == Some(page),
        field(input_v2(page, contexts), "sceneContexts"@) == Some(JsonView::Arr(contexts)),
        field(input_v2(page, contexts), "control"@) == Some(control_value(page)),
{
    broadcast use lemma_lookup_push;

    reveal_strlit("pagePanels");
    reveal_strlit("textRenderPlan");
    reveal_strlit("sceneContexts");
    reveal_strlit("control");
    reveal_strlit("page");
    assert("page"@.len() == 4);
    assert("control"@.len() == 7);
    assert("pagePanels"@.len() == 10);
    assert("sceneContexts"@.len() == 13);
    assert("textRenderPlan"@.len() == 14);
}

proof fn lemma_compiled_fields(
    version: Seq<char>,
    request: JsonView,
    fingerprint: Seq<char>,
    manifest: JsonView,
    page: JsonView,
    default_model: Seq<char>,
    layout_accepted: bool,
)
    requires
        compiled(
            version,
            request,
            fingerprint,
            manifest,
            page,
            default_model,
            layout_accepted,
        ) is Ok,
    ensures
        scene_contexts(manifest, page) is Ok,
        is_controlled(page, layout_accepted),
        version == COMPILER_CONTRACT@ || version == COMPILER_CONTRACT_V2@,
        ({
            let out = compiled(
                version,
                request,
                fingerprint,
                manifest,
                page,
                default_model,
                layout_accepted,
            )->Ok_0;
            let contexts = scene_contexts(manifest, page)->Ok_0;
            let options = request_options(request, version, fingerprint, page, default_model);
            &&& options is Ok
            &&& text_at(out, "schemaVersion"@) == Some(version)
            &&& text_at(out, "manifestFingerprint"@) == Some(fingerprint)
            &&& field(out, "productionPageId"@) == field(page, "productionPageId"@)
            &&& text_at(out, "model"@) == Some(options->Ok_0.0)
            &&& text_at(out, "size"@) == Some(options->Ok_0.1)
            &&& field(out, "compilerInput"@) == Some(
                if version == COMPILER_CONTRACT_V2@ {
                    input_v2(page, contexts)
                } else {
                    input_v3(page, contexts)
                },
            )
            &&& text_at(out, "compiledPrompt"@) == Some(
                if version == COMPILER_CONTRACT_V2@ {
                    prompt_v2(control_value(page), source_data_v2(manifest, page, contexts))
                } else {
                    prompt_v3(control_value(page), source_data_v3(manifest, page, contexts))
                },
            )
        }),
{
    broadcast use lemma_lookup_push;

    lemma_versions_differ();
    reveal_strlit("schemaVersion");
    reveal_strlit("manifestFingerprint");
    reveal_strlit("productionPageId");
    reveal_strlit("compilerInput");
    reveal_strlit("compiledPrompt");
    reveal_strlit("model");
    reveal_strlit("size");
    assert("size"@.len() == 4);
    assert("model"@.len() == 5);
    assert("schemaVersion"@.len() == 13);
    assert("compilerInput"@.len() == 13);
    assert("schemaVersion"@[0] == 's');
    assert("compilerInput"@[0] == 'c');
    assert("compiledPrompt"@.len() == 14);
    assert("productionPageId"@.len() == 16);
    assert("manifestFingerprint"@.len() == 19);
}

proof fn lemma_page_size(value: Seq<char>)
    requires
        page_size(value) is Ok,
    ensures
        is_page_size(page_size(value)->Ok_0),
{
    let sides = split_once_at(trimmed(before_char(value, '(')), 'x')->0;
    let width = parse_unsigned(trimmed(sides.0), u32::MAX as nat)->0;
    let height = parse_unsigned(trimmed(sides.1), u32::MAX as nat)->0;
    assert(page_size(value)->Ok_0 == decimal(width) + "x"@ + decimal(height));
    assert(has_sides(page_size(value)->Ok_0, width, height));
}

/// Whether a text is a width and a height in pixels, in the ratio of two to three; products
/// past the range of 32 bits are not told apart.
pub open spec fn has_sides(s: Seq<char>, width: nat, height: nat) -> bool {
    &&& s == decimal(width) + "x"@ + decimal(height)
    &&& width > 0 && height > 0
    &&& width * 3 == height * 2 || (width * 3 > u32::MAX && height * 2 >= u32::MAX) || (width * 3
        >= u32::MAX && height * 2 > u32::MAX)
}

/// Whether a text is a page size.
pub open spec fn is_page_size(s: Seq<char>) -> bool {
    exists|width: nat, height: nat| has_sides(s, width, height)
}

/// A compiled request answers the request it was compiled from: it is of the same contract, for
/// the same manifest and the same page, whose scenes it tells and whose layout it repeats. Its
/// model is the one that was asked for, or else the configured one, and its size is a page's.
/// What was asked for names nothing but these.
pub proof fn compiled_request_answers_its_request(
    version: Seq<char>,
    request: JsonView,
    fingerprint: Seq<char>,
    manifest: JsonView,
    page: JsonView,
    default_model: Seq<char>,
    layout_accepted: bool,
)
    requires
        compiled(
            version,
            request,
            fingerprint,
            manifest,
            page,
            default_model,
            layout_accepted,
        ) is Ok,
    ensures
        ({
            let out = compiled(
                version,
                request,
                fingerprint,
                manifest,
                page,
                default_model,
                layout_accepted,
            )->Ok_0;
            let input = field(out, "compilerInput"@)->0;
            &&& version == "comic-page-compiler.v2"@ || version == "comic-page-compiler.v3"@
            &&& text_at(request, "schemaVersion"@) == Some(version)
            &&& text_at(out, "schemaVersion"@) == Some(version)
            &&& text_at(request, "manifestFingerprint"@) == Some(fingerprint)
            &&& text_at(out, "manifestFingerprint"@) == Some(fingerprint)
            &&& field(page, "productionPageId"@) is Some
            &&& field(out, "productionPageId"@) == field(page, "productionPageId"@)
            &&& text_at(request, "productionPageId"@) == text_at(page, "productionPageId"@)
            &&& forall|k: int|
                0 <= k < request->Obj_0.len() ==> asks_for((#[trigger] request->Obj_0[k]).0)
            &&& text_at(out, "model"@) == Some(
                match text_at(request, "model"@) {
                    Some(model) => trimmed(model),
                    None => trimmed(default_model),
                },
            )
            &&& text_at(out, "model"@)->0.len() > 0
            &&& text_at(out, "size"@) is Some && is_page_size(text_at(out, "size"@)->0)
            &&& field(out, "compilerInput"@) is Some
            &&& input_is_of(manifest, page, input)
            &&& version == "comic-page-compiler.v2"@ ==> field(input, "page"@) == Some(page)
        }),
{
    lemma_versions_differ();
    lemma_compiled_fields(
        version,
        request,
        fingerprint,
        manifest,
        page,
        default_model,
        layout_accepted,
    );
    let contexts = scene_contexts(manifest, page)->Ok_0;
    lemma_input_fields(page, contexts);
    control_repeats_the_layout(page, layout_accepted);
    let all = manifest_contexts(manifest)->0;
    let panels = items_at(page, "panels"@)->0;
    lemma_scenes(all, panels);
    let asked = match request_text(request, "size"@)->Ok_0 {
        Some(size) => size,
        None => "1024x1536"@,
    };
    lemma_page_size(asked);
}

/// Whether a request may ask for a field.
pub open spec fn asks_for(name: Seq<char>) -> bool {
    name == "schemaVersion"@ || name == "manifestFingerprint"@ || name == "productionPageId"@
        || name == "model"@ || name == "size"@
}

/// The size of a page is taken as it is asked for, just where its sides are in the ratio of two
/// to three.
pub proof fn page_size_is_taken_as_asked(width: nat, height: nat)
    requires
        width * 3 <= u32::MAX,
        height * 2 <= u32::MAX,
    ensures
        ({
            let asked = decimal(width) + "x"@ + decimal(height);
            page_size(asked) == if width > 0 && height > 0 && width * 3 == height * 2 {
                Ok::<Seq<char>, Seq<char>>(asked)
            } else {
                Err("VISUAL_PAGE_SIZE_INVALID"@)
            }
        }),
{
    let w = decimal(width);
    let h = decimal(height);
    reveal_strlit("x");
    assert("x"@ =~= seq!['x']);
    let out = w + seq!['x'] + h;
    decimal_reads_back(width);
    decimal_reads_back(height);
    assert forall|i: int| 0 <= i < out.len() implies is_digit(#[trigger] out[i]) || out[i] == 'x' by {
        if i < w.len() {
            assert(out[i] == w[i]);
        } else if i > w.len() {
            assert(out[i] == h[i - w.len() - 1]);
        }
    }
    assert(out[0] == w[0] && out.last() == h.last());
    assert(is_digit(w[0]) && is_digit(h[h.len() - 1]));
    assert forall|i: int| 0 <= i < out.len() implies #[trigger] out[i] != '(' by {
        assert(is_digit(out[i]) || out[i] == 'x');
    }
    lemma_before_absent(out, '(');
    lemma_trimmed_fixed(out);
    assert forall|i: int| 0 <= i < w.len() implies #[trigger] w[i] != 'x' by {
        assert(is_digit(w[i]));
    }
    lemma_split_once(w, 'x', h);
    assert(is_digit(w[w.len() - 1]) && is_digit(h[0]));
    lemma_trimmed_fixed(w);
    lemma_trimmed_fixed(h);
    lemma_parse_digits(w, u32::MAX as nat);
    lemma_parse_digits(h, u32::MAX as nat);
}

/// The prompt of a compiled request carries, as JSON, first the layout control of the request
/// and then, escaped and last, the data of the page: the very panels, words and scenes that the
/// request records, and the revisions that the manifest was made of. The three parts are the
/// data and the fixed texts before the control and between the two.
pub proof fn prompt_carries_the_page(
    request: JsonView,
    fingerprint: Seq<char>,
    manifest: JsonView,
    page: JsonView,
    default_model: Seq<char>,
    layout_accepted: bool,
) -> (parts: (JsonView, Seq<char>, Seq<char>))
    requires
        compiled(
            "comic-page-compiler.v3"@,
            request,
            fingerprint,
            manifest,
            page,
            default_model,
            layout_accepted,
        ) is Ok,
    ensures
        ({
            let out = compiled(
                "comic-page-compiler.v3"@,
                request,
                fingerprint,
                manifest,
                page,
                default_model,
                layout_accepted,
            )->Ok_0;
            let input = field(out, "compilerInput"@)->0;
            let provenance = field(manifest, "provenance"@)->0;
            &&& text_at(out, "compiledPrompt"@) == Some(
                parts.1 + json_text(field(input, "control"@)->0) + parts.2 + escaped(
                    json_text(parts.0),
                ) + "\n</comic-source-data>"@,
            )
            &&& field(input, "pagePanels"@) is Some && field(parts.0, "pagePanels"@) == field(
                input,
                "pagePanels"@,
            )
            &&& field(input, "textRenderPlan"@) is Some && field(parts.0, "textRenderPlan"@)
                == field(input, "textRenderPlan"@)
            &&& field(input, "sceneContexts"@) is Some && field(parts.0, "sceneContexts"@) == field(
                input,
                "sceneContexts"@,
            )
            &&& field(parts.0, "sourceRevisionIds"@) == match field(
                provenance,
                "sourceRevisionIds"@,
            ) {
                Some(ids) => Some(ids),
                None => Some(JsonView::Arr(Seq::empty())),
            }
        }),
{
    lemma_versions_differ();
    lemma_compiled_fields(
        "comic-page-compiler.v3"@,
        request,
        fingerprint,
        manifest,
        page,
        default_model,
        layout_accepted,
    );
    let contexts = scene_contexts(manifest, page)->Ok_0;
    lemma_input_fields(page, contexts);
    let source = source_data_v3(manifest, page, contexts);
    assert(field(source, "pagePanels"@) == Some(semantic_panels(page)) && field(
        source,
        "textRenderPlan"@,
    ) == Some(text_render_plan(page)) && field(source, "sceneContexts"@) == Some(
        JsonView::Arr(contexts),
    ) && field(source, "sourceRevisionIds"@) == Some(source_revisions(manifest))) by {
        broadcast use lemma_lookup_push;

        reveal_strlit("pagePanels");
        reveal_strlit("textRenderPlan");
        reveal_strlit("sceneContexts");
        reveal_strlit("sourceRevisionIds");
        assert("pagePanels"@.len() == 10);
        assert("sceneContexts"@.len() == 13);
        assert("textRenderPlan"@.len() == 14);
        assert("sourceRevisionIds"@.len() == 17);
    }
    (source, PROMPT_HEAD@, PROMPT_RULES@)
}

/// The prompt of a request of the second contract carries the layout control and, escaped and
/// last, the panels of the page as they stand, with the scenes that the request records.
pub proof fn former_prompt_carries_the_page(
    request: JsonView,
    fingerprint: Seq<char>,
    manifest: JsonView,
    page: JsonView,
    default_model: Seq<char>,
    layout_accepted: bool,
) -> (parts: (JsonView, Seq<char>, Seq<char>))
    requires
        compiled(
            "comic-page-compiler.v2"@,
            request,
            fingerprint,
            manifest,
            page,
            default_model,
            layout_accepted,
        ) is Ok,
    ensures
        ({
            let out = compiled(
                "comic-page-compiler.v2"@,
                request,
                fingerprint,
                manifest,
                page,
                default_model,
                layout_accepted,
            )->Ok_0;
            let input = field(out, "compilerInput"@)->0;
            let provenance = field(manifest, "provenance"@)->0;
            &&& text_at(out, "compiledPrompt"@) == Some(
                parts.1 + json_text(field(input, "control"@)->0) + parts.2 + escaped(
                    json_text(parts.0),
                ) + "\n</comic-source-data>"@,
            )
            &&& field(parts.0, "pagePanels"@) == field(page, "panels"@)
            &&& field(input, "sceneContexts"@) is Some && field(parts.0, "sceneContexts"@) == field(
                input,
                "sceneContexts"@,
            )
            &&& field(parts.0, "sourceRevisionIds"@) == match field(
                provenance,
                "sourceRevisionIds"@,
            ) {
                Some(ids) => Some(ids),
                None => Some(JsonView::Arr(Seq::empty())),
            }
        }),
{
    lemma_versions_differ();
    lemma_compiled_fields(
        "comic-page-compiler.v2"@,
        request,
        fingerprint,
        manifest,
        page,
        default_model,
        layout_accepted,
    );
    let contexts = scene_contexts(manifest, page)->Ok_0;
    lemma_input_fields(page, contexts);
    let source = source_data_v2(manifest, page, contexts);
    assert(field(source, "pagePanels"@) == field(page, "panels"@) && field(
        source,
        "sceneContexts"@,
    ) == Some(JsonView::Arr(contexts)) && field(source, "sourceRevisionIds"@) == Some(
        source_revisions(manifest),
    )) by {
        broadcast use lemma_lookup_push;

        reveal_strlit("pagePanels");
        reveal_strlit("sceneContexts");
        reveal_strlit("sourceRevisionIds");
        assert("pagePanels"@.len() == 10);
        assert("sceneContexts"@.len() == 13);
        assert("sourceRevisionIds"@.len() == 17);
    }
    (source, PROMPT_HEAD@, PROMPT_RULES_V2@)
}

/// Escaping goes character by character: the escaped form of a text is that of its parts in
/// turn; a text without markup stays as it is; and the five characters of markup become the
/// escapes of JSON that stand for them.
pub proof fn escaping_goes_by_characters(a: Seq<char>, b: Seq<char>)
    ensures
        escaped(a + b) == escaped(a) + escaped(b),
        (forall|i: int| 0 <= i < a.len() ==> !is_markup(#[trigger] a[i])) ==> escaped(a) == a,
        escaped(seq!['<']) == "\\u003c"@,
        escaped(seq!['>']) == "\\u003e"@,
        escaped(seq!['&']) == "\\u0026"@,
        escaped(seq!['\u{2028}']) == "\\u2028"@,
        escaped(seq!['\u{2029}']) == "\\u2029"@,
    decreases a.len() + b.len(),
{
    reveal_with_fuel(escaped, 2);
    assert(seq!['<'].drop_last() =~= Seq::<char>::empty());
    assert(seq!['>'].drop_last() =~= Seq::<char>::empty());
    assert(seq!['&'].drop_last() =~= Seq::<char>::empty());
    assert(seq!['\u{2028}'].drop_last() =~= Seq::<char>::empty());
    assert(seq!['\u{2029}'].drop_last() =~= Seq::<char>::empty());
    assert(Seq::<char>::empty() + "\\u003c"@ =~= "\\u003c"@);
    assert(Seq::<char>::empty() + "\\u003e"@ =~= "\\u003e"@);
    assert(Seq::<char>::empty() + "\\u0026"@ =~= "\\u0026"@);
    assert(Seq::<char>::empty() + "\\u2028"@ =~= "\\u2028"@);
    assert(Seq::<char>::empty() + "\\u2029"@ =~= "\\u2029"@);
    if b.len() > 0 {
        let rest = b.drop_last();
        escaping_goes_by_characters(a, rest);
        assert((a + b).drop_last() =~= a + rest);
        assert((a + b).last() == b.last());
        assert(escaped(a) + escaped(rest) + escaped_char(b.last()) =~= escaped(a) + (escaped(rest)
            + escaped_char(b.last())));
    } else {
        assert(a + b =~= a);
        assert(escaped(a) + escaped(b) =~= escaped(a));
    }
    if a.len() > 0 {
        let rest = a.drop_last();
        escaping_goes_by_characters(rest, Seq::empty());
        if forall|i: int| 0 <= i < a.len() ==> !is_markup(#[trigger] a[i]) {
            assert forall|i: int| 0 <= i < rest.len() implies !is_markup(#[trigger] rest[i]) by {
                assert(rest[i] == a[i]);
            }
            assert(a =~= rest + seq![a.last()]);
        }
    } else {
        assert(escaped(a) =~= a);
    }
}

/// Whether an option of a request is absent, or a text of 1 to 160 characters without the white
/// space around it.
pub open spec fn option_is_usable(request: JsonView, key: Seq<char>) -> bool {
    field(request, key) is Some ==> text_at(request, key) is Some && 1 <= trimmed(
        text_at(request, key)->0,
    ).len() <= 160
}

/// A request is taken just where it is an object with no other fields than the known ones, is of
/// this contract, for this manifest and this page, and names usable options; a model must be
/// named or configured, and a size that is named must be a page's. The size of a request without
/// one is 1024 by 1536.
pub proof fn request_is_taken_when_it_fits(
    request: JsonView,
    version: Seq<char>,
    fingerprint: Seq<char>,
    page: JsonView,
    default_model: Seq<char>,
)
    ensures
        ({
            let options = request_options(request, version, fingerprint, page, default_model);
            &&& options is Ok <==> {
                &&& request is Obj
                &&& forall|k: int|
                    0 <= k < request->Obj_0.len() ==> asks_for((#[trigger] request->Obj_0[k]).0)
                &&& text_at(request, "schemaVersion"@) == Some(version)
                &&& text_at(request, "manifestFingerprint"@) == Some(fingerprint)
                &&& text_at(request, "productionPageId"@) == text_at(page, "productionPageId"@)
                &&& option_is_usable(request, "model"@) && option_is_usable(request, "size"@)
                &&& field(request, "model"@) is None ==> trimmed(default_model).len() > 0
                &&& field(request, "size"@) is Some ==> page_size(
                    trimmed(text_at(request, "size"@)->0),
                ) is Ok
            }
            &&& options is Ok && field(request, "size"@) is None ==> options->Ok_0.1 == "1024x1536"@
            &&& options is Ok && field(request, "size"@) is Some ==> page_size(
                trimmed(text_at(request, "size"@)->0),
            ) == Ok::<Seq<char>, Seq<char>>(options->Ok_0.1)
        }),
{
    reveal_strlit("1024x1536");
    reveal_strlit("1024");
    reveal_strlit("1536");
    reveal_strlit("x");
    reveal_with_fuel(decimal, 5);
    assert(decimal(1024) =~= "1024"@);
    assert(decimal(1536) =~= "1536"@);
    assert("1024x1536"@ =~= decimal(1024) + "x"@ + decimal(1536));
    page_size_is_taken_as_asked(1024, 1536);
    if request is Obj {
        if are_request_keys(request->Obj_0) {
            assert forall|k: int| 0 <= k < request->Obj_0.len() implies asks_for(
                (#[trigger] request->Obj_0[k]).0,
            ) by {
                assert(is_request_key(request->Obj_0[k].0));
            }
        }
        if forall|k: int|
            0 <= k < request->Obj_0.len() ==> asks_for((#[trigger] request->Obj_0[k]).0) {
            assert(are_request_keys(request->Obj_0));
        }
    }
}

/// Whether the words of a panel can be printed as they stand: texts where there are to be texts,
/// and dialogues that are texts or have one, with a speaker that is a text where there is one.
pub open spec fn words_can_be_printed(panel: JsonView) -> bool {
    let given = field(panel, "spec"@)->0;
    &&& int_at(panel, "panelNo"@) is Some && int_at(panel, "panelNo"@)->0 > 0
    &&& field(panel, "spec"@) is Some && given is Obj
    &&& is_text_list(given, "characterKeys"@)
    &&& is_text_list(given, "captions"@)
    &&& is_text_list(given, "soundEffects"@)
    &&& field(given, "dialogues"@) is Some ==> items_at(given, "dialogues"@) is Some && forall|
        i: int,
    |
        0 <= i < items_at(given, "dialogues"@)->0.len() ==> can_be_said(
            #[trigger] items_at(given, "dialogues"@)->0[i],
        )
}

/// Whether a field is absent or a list of texts.
pub open spec fn is_text_list(value: JsonView, key: Seq<char>) -> bool {
    field(value, key) is Some ==> items_at(value, key) is Some && forall|i: int|
        0 <= i < items_at(value, key)->0.len() ==> (#[trigger] items_at(value, key)->0[i]) is Str
}

/// Whether a dialogue is a text or has one, and names its speaker by a text where it does.
pub open spec fn can_be_said(item: JsonView) -> bool {
    &&& item is Str || text_at(item, "text"@) is Some
    &&& field(item, "speaker"@) is Some ==> text_at(item, "speaker"@) is Some
}

/// A page is compiled just where its request fits, every panel tells a scene that is resolved,
/// its layout can be drawn, its words can be printed and it has an identifier.
pub proof fn page_is_compiled_when_complete(
    request: JsonView,
    fingerprint: Seq<char>,
    manifest: JsonView,
    page: JsonView,
    default_model: Seq<char>,
    layout_accepted: bool,
)
    ensures
        compiled(
            "comic-page-compiler.v3"@,
            request,
            fingerprint,
            manifest,
            page,
            default_model,
            layout_accepted,
        ) is Ok <==> {
            let provenance = field(manifest, "provenance"@)->0;
            let all = items_at(provenance, "sceneContexts"@)->0;
            let panels = items_at(page, "panels"@)->0;
            &&& request_options(
                request,
                "comic-page-compiler.v3"@,
                fingerprint,
                page,
                default_model,
            ) is Ok
            &&& field(manifest, "provenance"@) is Some && items_at(
                provenance,
                "sceneContexts"@,
            ) is Some
            &&& items_at(page, "panels"@) is Some && panels.len() > 0
            &&& forall|i: int| 0 <= i < panels.len() ==> panel_context(all, #[trigger] panels[i]) is Some
            &&& forall|i: int| 0 <= i < panels.len() ==> words_can_be_printed(#[trigger] panels[i])
            &&& is_controlled(page, layout_accepted)
            &&& field(page, "productionPageId"@) is Some
        },
{
    lemma_versions_differ();
    if items_at(page, "panels"@) is Some {
        let panels = items_at(page, "panels"@)->0;
        assert forall|i: int| 0 <= i < panels.len() implies (has_ledger(#[trigger] panels[i])
            == words_can_be_printed(panels[i])) by {
            lemma_printable(panels[i]);
        }
        if page_has_ledger(page) {
            assert forall|i: int| 0 <= i < panels.len() implies words_can_be_printed(
                #[trigger] panels[i],
            ) by {
                assert(has_ledger(panels[i]));
            }
        }
    }
}

proof fn lemma_text_list(value: JsonView, key: Seq<char>)
    ensures
        are_texts(field(value, key)) == is_text_list(value, key),
{
    if items_at(value, key) is Some {
        let items = items_at(value, key)->0;
        if are_texts(field(value, key)) {
            assert forall|i: int| 0 <= i < items.len() implies (#[trigger] items[i]) is Str by {
                assert(as_text(Some(items[i])) is Some);
            }
        }
    }
}

proof fn lemma_printable(panel: JsonView)
    ensures
        has_ledger(panel) == words_can_be_printed(panel),
{
    let given = field(panel, "spec"@)->0;
    lemma_text_list(given, "characterKeys"@);
    lemma_text_list(given, "captions"@);
    lemma_text_list(given, "soundEffects"@);
    if items_at(given, "dialogues"@) is Some {
        let items = items_at(given, "dialogues"@)->0;
        assert forall|i: int| 0 <= i < items.len() implies is_dialogue(#[trigger] items[i])
            == can_be_said(items[i]) by {}
        if all_dialogues(items) {
            assert forall|i: int| 0 <= i < items.len() implies can_be_said(#[trigger] items[i]) by {
                assert(is_dialogue(items[i]));
            }
        }
        if forall|i: int| 0 <= i < items.len() ==> can_be_said(#[trigger] items[i]) {
            assert(all_dialogues(items));
        }
    }
}

/// Whether an edge of a bleed is absent or a truth value.
pub open spec fn edge_is_told(bleed: JsonView, edge: Seq<char>) -> bool {
    field(bleed, edge) is Some ==> bool_at(bleed, edge) is Some
}

/// Whether a panel of the geometry stands for a panel of the page, of which there are so many,
/// and depends on no panel but another one of the page.
pub open spec fn panel_is_drawn(panel: JsonView, count: int) -> bool {
    let no = int_at(panel, "panelNo"@);
    let parent = int_at(panel, "parentPanelNo"@);
    let bleed = field(panel, "bleed"@);
    &&& no is Some && 1 <= no->0 <= count
    &&& field(panel, "parentPanelNo"@) is Some ==> parent is Some && 1 <= parent->0 <= count
        && parent != no
    &&& bleed is Some ==> bleed->0 is Obj && edge_is_told(bleed->0, "top"@) && edge_is_told(
        bleed->0,
        "right"@,
    ) && edge_is_told(bleed->0, "bottom"@) && edge_is_told(bleed->0, "left"@)
}

/// Whether one of the panels of a page has a number.
pub open spec fn page_has_panel(panels: Seq<JsonView>, no: JsonView) -> bool {
    exists|i: int| 0 <= i < panels.len() && field(#[trigger] panels[i], "panelNo"@) == Some(no)
}

/// Whether a mapping makes a panel of the layout of panels of the page, in a known way, and is
/// marked as dominant just where its panel is.
pub open spec fn mapping_is_drawn(
    mapping: JsonView,
    count: int,
    panels: Seq<JsonView>,
    dominant: Option<int>,
) -> bool {
    let target = int_at(mapping, "targetPanelNo"@);
    let sources = items_at(mapping, "sourcePanelNos"@);
    let mode = text_at(mapping, "mode"@);
    &&& target is Some && 1 <= target->0 <= count
    &&& sources is Some && sources->0.len() > 0
    &&& forall|i: int| 0 <= i < sources->0.len() ==> page_has_panel(panels, #[trigger] sources->0[i])
    &&& mode == Some("one_to_one"@) || mode == Some("merge"@) || mode == Some("split"@)
    &&& bool_at(mapping, "isDominant"@) == Some(target == dominant)
}

/// Whether a list of numbers names each of the first numbers once.
pub open spec fn is_order_of(items: Option<Seq<JsonView>>, count: int) -> bool {
    &&& items is Some && items->0.len() == count
    &&& forall|i: int|
        0 <= i < items->0.len() ==> as_int(Some(#[trigger] items->0[i])) is Some && 1 <= as_int(
            Some(items->0[i]),
        )->0 <= count
    &&& forall|i: int, j: int|
        0 <= i < j < items->0.len() ==> (#[trigger] items->0[i]) != (#[trigger] items->0[j])
}

proof fn lemma_is_order(value: Option<JsonView>, count: int)
    requires
        is_order(value, count),
    ensures
        is_order_of(as_items(value), count),
        forall|n: int| #[trigger] order_of(value).contains(n) ==> 1 <= n <= count,
{
    let items = as_items(value)->0;
    assert forall|i: int| 0 <= i < items.len() implies as_int(Some(#[trigger] items[i])) is Some && 1
        <= as_int(Some(items[i]))->0 <= count by {
        assert(positive(Some(items[i])) is Some);
    }
    assert forall|i: int, j: int| 0 <= i < j < items.len() implies (#[trigger] items[i]) != (
    #[trigger] items[j]) by {
        assert(positive(Some(items[i])) != positive(Some(items[j])));
    }
    assert forall|n: int| #[trigger] order_of(value).contains(n) implies 1 <= n <= count by {
        let i = choose|i: int| 0 <= i < order_of(value).len() && order_of(value)[i] == n;
        assert(positive(Some(items[i])) is Some);
    }
}

proof fn lemma_mapping_drawn(
    mapping: JsonView,
    order: Option<JsonView>,
    count: int,
    panels: Seq<JsonView>,
    dominant: int,
)
    requires
        is_order(order, count),
        is_mapping(mapping, order_of(order), panel_numbers(panels), dominant),
        forall|i: int|
            0 <= i < panels.len() ==> positive(field(#[trigger] panels[i], "panelNo"@)) is Some,
    ensures
        mapping_is_drawn(mapping, count, panels, Some(dominant)),
{
    lemma_is_order(order, count);
    let sources = items_at(mapping, "sourcePanelNos"@)->0;
    let numbers = panel_numbers(panels);
    assert forall|i: int| 0 <= i < sources.len() implies page_has_panel(
        panels,
        #[trigger] sources[i],
    ) by {
        assert(positive(Some(sources[i])) is Some);
        let no = positive(Some(sources[i]))->0;
        assert(numbers.contains(no));
        let k = choose|k: int| 0 <= k < numbers.len() && numbers[k] == no;
        assert(positive(field(panels[k], "panelNo"@)) == Some(no));
        assert(field(panels[k], "panelNo"@) == Some(sources[i]));
    }
}

/// Whether mappings make every panel of a layout once.
pub open spec fn mappings_are_drawn(
    stated: Seq<JsonView>,
    count: int,
    panels: Seq<JsonView>,
    dominant: Option<int>,
) -> bool {
    &&& stated.len() == count
    &&& forall|i: int|
        0 <= i < stated.len() ==> mapping_is_drawn(#[trigger] stated[i], count, panels, dominant)
    &&& forall|i: int, j: int|
        0 <= i < j < stated.len() ==> int_at(#[trigger] stated[i], "targetPanelNo"@) != int_at(
            #[trigger] stated[j],
            "targetPanelNo"@,
        )
}

/// Whether the panels of a geometry are those of the page, each once.
pub open spec fn panels_are_drawn(drawn: Option<Seq<JsonView>>, count: int) -> bool {
    &&& drawn is Some && drawn->0.len() == count
    &&& forall|i: int| 0 <= i < drawn->0.len() ==> panel_is_drawn(#[trigger] drawn->0[i], count)
    &&& forall|i: int, j: int|
        0 <= i < j < drawn->0.len() ==> int_at(#[trigger] drawn->0[i], "panelNo"@) != int_at(
            #[trigger] drawn->0[j],
            "panelNo"@,
        )
}

proof fn lemma_panels_drawn(drawn: Seq<JsonView>, order: Option<JsonView>, count: int)
    requires
        is_order(order, count),
        are_geometry_panels(drawn, count, order_of(order)),
    ensures
        panels_are_drawn(Some(drawn), count),
{
    lemma_is_order(order, count);
    assert forall|i: int| 0 <= i < drawn.len() implies panel_is_drawn(#[trigger] drawn[i], count) by {
        assert(is_geometry_panel(drawn[i], order_of(order)));
    }
    assert forall|i: int, j: int| 0 <= i < j < drawn.len() implies int_at(
        #[trigger] drawn[i],
        "panelNo"@,
    ) != int_at(#[trigger] drawn[j], "panelNo"@) by {
        assert(is_geometry_panel(drawn[i], order_of(order)));
        assert(is_geometry_panel(drawn[j], order_of(order)));
        assert(geometry_panel_no(drawn[i]) != geometry_panel_no(drawn[j]));
    }
}

/// A layout that is drawn fits its page: it is of a known template, reads every panel once,
/// draws every panel once, in the same order, and makes every panel of panels that the page has.
pub proof fn drawn_layout_fits_its_page(page: JsonView, layout_accepted: bool)
    requires
        is_controlled(page, layout_accepted),
    ensures
        ({
            let layout = field(page, "layout"@)->0;
            let geometry = field(layout, "geometry"@)->0;
            let panels = items_at(page, "panels"@)->0;
            let count = panels.len() as int;
            let dominant = int_at(layout, "dominantPanel"@);
            let stated = items_at(layout, "targetPanelMappings"@);
            let template = text_at(layout, "templateId"@);
            &&& template is Some && is_known_template(template->0)
            &&& text_at(layout, "layoutKind"@) is Some ==> text_at(layout, "layoutKind"@) == Some(
                if template == Some("custom_irregular"@) {
                    "custom_irregular"@
                } else {
                    "template"@
                },
            )
            &&& int_at(layout, "panelCount"@) == Some(count)
            &&& is_order_of(items_at(layout, "readingOrder"@), count)
            &&& dominant is Some && 1 <= dominant->0 <= count
            &&& is_order_of(items_at(geometry, "readingOrder"@), count)
            &&& panels_are_drawn(items_at(geometry, "panels"@), count)
            &&& stated is Some && stated->0.len() > 0 ==> mappings_are_drawn(
                stated->0,
                count,
                panels,
                dominant,
            )
        }),
{
    let layout = field(page, "layout"@)->0;
    let geometry = field(layout, "geometry"@)->0;
    let panels = items_at(page, "panels"@)->0;
    let count = panels.len() as int;
    let order = field(layout, "readingOrder"@);
    let dominant = int_at(layout, "dominantPanel"@)->0;
    assert(layout == JsonView::Obj(members_at(page, "layout"@)->0));
    lemma_is_order(order, count);
    lemma_is_order(field(geometry, "readingOrder"@), count);
    lemma_panels_drawn(items_at(geometry, "panels"@)->0, order, count);
    if stated_mappings(layout) is Some {
        let stated = stated_mappings(layout)->0;
        assert forall|i: int| 0 <= i < stated.len() implies mapping_is_drawn(
            #[trigger] stated[i],
            count,
            panels,
            Some(dominant),
        ) by {
            lemma_mapping_drawn(stated[i], order, count, panels, dominant);
        }
        assert forall|i: int, j: int| 0 <= i < j < stated.len() implies int_at(
            #[trigger] stated[i],
            "targetPanelNo"@,
        ) != int_at(#[trigger] stated[j], "targetPanelNo"@) by {
            assert(mapping_target(stated[i]) != mapping_target(stated[j]));
            assert(is_mapping(stated[i], order_of(order), panel_numbers(panels), dominant));
            assert(is_mapping(stated[j], order_of(order), panel_numbers(panels), dominant));
        }
    }
}

/// Whether a template is one of those that are known.
pub open spec fn is_known_template(s: Seq<char>) -> bool {
    s == "reference_story_5"@ || s == "hero_middle_5"@ || s == "diagonal_action_5"@ || s
        == "reveal_focus_4"@ || s == "conversation_ladder_6"@ || s == "detail_to_wide_5"@ || s
        == "full_bleed_insets_4"@ || s == "nine_grid_9"@ || s == "custom_irregular"@
}

/// Two contracts are supported: the present one and the one before it.
pub proof fn two_contracts_are_supported(version: Seq<char>)
    ensures
        is_supported(version) <==> (version == "comic-page-compiler.v2"@ || version
            == "comic-page-compiler.v3"@),
{
    lemma_versions_differ();
}

} // verus!
