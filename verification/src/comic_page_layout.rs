//! The frozen layout control of a comic page: panel order, normalized geometry and the
//! mapping from source panels to target panels.
//!
//! Every part is either accepted as a whole and reduced to the fields that the renderer may
//! see, or refused with one and the same code.
use crate::json::{
    as_bool, as_int, as_items, as_members, bool_at, field, fields, find_member, items_at,
    items_view, json_array, lookup, members_at, members_view, no_members, number_bits,
    parse_number_bits, text_at, Fields, Json, JsonView,
};
use crate::sequence::contains_i64;
use crate::text::{opt_view, owned, same};
use crate::unit::{in_unit, sum_above_one, sum_exceeds_one, unit_accepts, ONE_BITS};
use vstd::prelude::*;

verus! {

/// The aspect ratio of every page.
pub const PAGE_ASPECT_RATIO: &'static str = "2:3";

/// The code with which an unusable page is refused.
pub open spec fn semantics_missing() -> Seq<char> {
    "VISUAL_PAGE_SEMANTICS_MISSING"@
}

fn missing() -> (r: String)
    ensures
        r@ == semantics_missing(),
{
    owned("VISUAL_PAGE_SEMANTICS_MISSING")
}

// ---------------------------------------------------------------------------
// Integers
// ---------------------------------------------------------------------------

/// A positive integer.
pub open spec fn positive(value: Option<JsonView>) -> Option<int> {
    match as_int(value) {
        Some(i) => if i > 0 {
            Some(i)
        } else {
            None
        },
        None => None,
    }
}

/// The numbers of a list.
pub open spec fn ints_view(v: Seq<i64>) -> Seq<int> {
    Seq::new(v.len(), |i: int| v[i] as int)
}

/// A list of numbers as JSON.
pub open spec fn ints_value(v: Seq<int>) -> JsonView {
    JsonView::Arr(Seq::new(v.len(), |i: int| JsonView::Int(v[i])))
}

/// Reads a positive integer.
pub fn positive_i64(value: Option<&Json>) -> (r: Result<i64, String>)
    ensures
        r is Ok <==> positive(opt_view(value)) is Some,
        r matches Ok(i) ==> positive(opt_view(value)) == Some(i as int),
        r matches Err(e) ==> e@ == semantics_missing(),
{
    match value {
        Some(v) => {
            let found: Option<i64> = v.as_i64();
            match found {
                Some(i) => if i > 0 {
                    Ok(i)
                } else {
                    Err(missing())
                },
                None => Err(missing()),
            }
        },
        None => Err(missing()),
    }
}

/// Whether a value is an order of `count` panels: as many different numbers, each from one to
/// `count`.
pub open spec fn is_order(value: Option<JsonView>, count: int) -> bool {
    match as_items(value) {
        Some(items) => {
            &&& items.len() == count
            &&& forall|i: int|
                0 <= i < items.len() ==> positive(Some(#[trigger] items[i])) is Some && positive(
                    Some(items[i]),
                )->0 <= count
            &&& forall|i: int, j: int|
                0 <= i < j < items.len() ==> positive(Some(#[trigger] items[i])) != positive(
                    Some(#[trigger] items[j]),
                )
        },
        None => false,
    }
}

/// The numbers of an order.
pub open spec fn order_of(value: Option<JsonView>) -> Seq<int> {
    let items = as_items(value)->0;
    Seq::new(items.len(), |i: int| positive(Some(items[i]))->0)
}

/// Reads an order of `count` panels.
pub fn integer_order(value: Option<&Json>, panel_count: i64) -> (r: Result<Vec<i64>, String>)
    requires
        panel_count > 0,
    ensures
        r is Ok <==> is_order(opt_view(value), panel_count as int),
        r matches Ok(v) ==> ints_view(v@) == order_of(opt_view(value)),
        r matches Err(e) ==> e@ == semantics_missing(),
{
    let values = match value {
        Some(v) => match v.as_array() {
            Some(values) => values,
            None => return Err(missing()),
        },
        None => return Err(missing()),
    };
    let ghost items = items_view(values@);
    if values.len() as u64 != panel_count as u64 {
        return Err(missing());
    }
    let mut result: Vec<i64> = Vec::new();
    let mut i: usize = 0;
    while i < values.len()
        invariant
            i <= values.len(),
            values.len() == panel_count,
            items == items_view(values@),
            as_items(opt_view(value)) == Some(items),
            result.len() == i,
            forall|j: int|
                0 <= j < i ==> positive(Some(#[trigger] items[j])) == Some(result@[j] as int)
                    && result@[j] <= panel_count,
            forall|j: int, k: int|
                0 <= j < k < i ==> positive(Some(#[trigger] items[j])) != positive(
                    Some(#[trigger] items[k]),
                ),
        decreases values.len() - i,
    {
        assert(items[i as int] == values@[i as int]@);
        let read: Result<i64, String> = positive_i64(Some(&values[i]));
        match read {
            Ok(no) => {
                if no > panel_count {
                    return Err(missing());
                }
                if contains_i64(&result, no) {
                    proof {
                        let j = choose|j: int| 0 <= j < result@.len() && result@[j] == no;
                        assert(positive(Some(items[j])) == positive(Some(items[i as int])));
                    }
                    return Err(missing());
                }
                proof {
                    assert forall|j: int| 0 <= j < i implies positive(Some(#[trigger] items[j]))
                        != positive(Some(items[i as int])) by {
                        assert(result@[j] != no) by {
                            if result@[j] == no {
                                assert(result@.contains(no));
                            }
                        }
                    }
                }
                result.push(no);
            },
            Err(e) => return Err(e),
        }
        i += 1;
    }
    assert(ints_view(result@) =~= order_of(opt_view(value)));
    Ok(result)
}

fn int_array(list: &Vec<i64>) -> (r: Json)
    ensures
        r@ == ints_value(ints_view(list@)),
{
    let mut out: Vec<Json> = Vec::new();
    let mut i: usize = 0;
    while i < list.len()
        invariant
            i <= list.len(),
            out.len() == i,
            forall|j: int| 0 <= j < i ==> (#[trigger] out@[j])@ == JsonView::Int(list@[j] as int),
        decreases list.len() - i,
    {
        out.push(Json::Int(list[i]));
        i += 1;
    }
    let r = json_array(out);
    assert(r@->Arr_0 =~= ints_value(ints_view(list@))->Arr_0);
    r
}

// ---------------------------------------------------------------------------
// Normalized geometry
// ---------------------------------------------------------------------------

/// The text and the bits of a number, where it can lie in the unit interval: of the integers
/// only zero and one can.
pub open spec fn double_of(value: Option<JsonView>) -> Option<(Seq<char>, u64)> {
    match value {
        Some(JsonView::Float(s)) => match number_bits(s) {
            Some(bits) => Some((s, bits)),
            None => None,
        },
        Some(JsonView::Int(i)) => if i == 0 {
            Some(("0.0"@, 0))
        } else if i == 1 {
            Some(("1.0"@, ONE_BITS))
        } else {
            None
        },
        _ => None,
    }
}

/// Whether a value is a number from zero to one.
pub open spec fn is_normalized(value: Option<JsonView>, allow_zero: bool) -> bool {
    match double_of(value) {
        Some(d) => in_unit(d.1, allow_zero),
        None => false,
    }
}

/// A normalized number as a fraction.
pub open spec fn normalized_value(value: Option<JsonView>) -> JsonView {
    JsonView::Float((double_of(value)->0).0)
}

/// The bits of a normalized number.
pub open spec fn normalized_bits(value: Option<JsonView>) -> u64 {
    (double_of(value)->0).1
}

/// A normalized number: its text and its bits.
#[derive(Debug)]
pub struct Normalized {
    pub text: String,
    pub bits: u64,
}

/// Reads a number from zero to one.
pub fn normalized_number(value: Option<&Json>, allow_zero: bool) -> (r: Result<Normalized, String>)
    ensures
        r is Ok <==> is_normalized(opt_view(value), allow_zero),
        r matches Ok(n) ==> double_of(opt_view(value)) == Some((n.text@, n.bits)),
        r matches Err(e) ==> e@ == semantics_missing(),
{
    broadcast use {crate::json::lemma_arr_view, crate::json::lemma_obj_view};

    let found = match value {
        Some(Json::Float(s)) => {
            let bits: Option<u64> = parse_number_bits(s.as_str());
            match bits {
                Some(bits) => Normalized { text: s.clone(), bits },
                None => return Err(missing()),
            }
        },
        Some(Json::Int(i)) => if *i == 0 {
            Normalized { text: owned("0.0"), bits: 0 }
        } else if *i == 1 {
            Normalized { text: owned("1.0"), bits: ONE_BITS }
        } else {
            return Err(missing());
        },
        Some(Json::Uint(u)) => if *u == 0 {
            Normalized { text: owned("0.0"), bits: 0 }
        } else if *u == 1 {
            Normalized { text: owned("1.0"), bits: ONE_BITS }
        } else {
            return Err(missing());
        },
        _ => return Err(missing()),
    };
    if unit_accepts(found.bits, allow_zero) {
        Ok(found)
    } else {
        Err(missing())
    }
}

/// Whether a value is a box inside the unit square: its far edges, rounded as sums of doubles
/// are, do not lie beyond one.
pub open spec fn is_bounds(value: Option<JsonView>) -> bool {
    match as_members(value) {
        Some(m) => {
            &&& is_normalized(lookup(m, "x"@), true)
            &&& is_normalized(lookup(m, "y"@), true)
            &&& is_normalized(lookup(m, "width"@), false)
            &&& is_normalized(lookup(m, "height"@), false)
            &&& !sum_above_one(
                normalized_bits(lookup(m, "x"@)),
                normalized_bits(lookup(m, "width"@)),
            )
            &&& !sum_above_one(
                normalized_bits(lookup(m, "y"@)),
                normalized_bits(lookup(m, "height"@)),
            )
        },
        None => false,
    }
}

/// A box reduced to its four numbers.
pub open spec fn bounds_value(value: Option<JsonView>) -> JsonView {
    let m = as_members(value)->0;
    JsonView::Obj(
        no_members()
            .push(("x"@, normalized_value(lookup(m, "x"@))))
            .push(("y"@, normalized_value(lookup(m, "y"@))))
            .push(("width"@, normalized_value(lookup(m, "width"@))))
            .push(("height"@, normalized_value(lookup(m, "height"@)))),
    )
}

/// Reads a box inside the unit square.
pub fn bounds_control(value: Option<&Json>) -> (r: Result<Json, String>)
    ensures
        r is Ok <==> is_bounds(opt_view(value)),
        r matches Ok(j) ==> j@ == bounds_value(opt_view(value)),
        r matches Err(e) ==> e@ == semantics_missing(),
{
    let object = match value {
        Some(v) => match v.as_object() {
            Some(m) => m,
            None => return Err(missing()),
        },
        None => return Err(missing()),
    };
    let x = match normalized_number(find_member(object, "x"), true) {
        Ok(n) => n,
        Err(e) => return Err(e),
    };
    let y = match normalized_number(find_member(object, "y"), true) {
        Ok(n) => n,
        Err(e) => return Err(e),
    };
    let width = match normalized_number(find_member(object, "width"), false) {
        Ok(n) => n,
        Err(e) => return Err(e),
    };
    let height = match normalized_number(find_member(object, "height"), false) {
        Ok(n) => n,
        Err(e) => return Err(e),
    };
    if sum_exceeds_one(x.bits, width.bits) || sum_exceeds_one(y.bits, height.bits) {
        return Err(missing());
    }
    Ok(
        fields().with("x", Json::Float(x.text)).with("y", Json::Float(y.text)).with(
            "width",
            Json::Float(width.text),
        ).with("height", Json::Float(height.text)).object(),
    )
}

/// Whether a value is a point of the unit square.
pub open spec fn is_point(value: JsonView) -> bool {
    match as_members(Some(value)) {
        Some(m) => is_normalized(lookup(m, "x"@), true) && is_normalized(lookup(m, "y"@), true),
        None => false,
    }
}

/// A point reduced to its two numbers.
pub open spec fn point_value(value: JsonView) -> JsonView {
    let m = as_members(Some(value))->0;
    JsonView::Obj(
        no_members()
            .push(("x"@, normalized_value(lookup(m, "x"@))))
            .push(("y"@, normalized_value(lookup(m, "y"@)))),
    )
}

fn point_control(value: &Json) -> (r: Result<Json, String>)
    ensures
        r is Ok <==> is_point(value@),
        r matches Ok(j) ==> j@ == point_value(value@),
        r matches Err(e) ==> e@ == semantics_missing(),
{
    let object = match value.as_object() {
        Some(m) => m,
        None => return Err(missing()),
    };
    let x = match normalized_number(find_member(object, "x"), true) {
        Ok(n) => n,
        Err(e) => return Err(e),
    };
    let y = match normalized_number(find_member(object, "y"), true) {
        Ok(n) => n,
        Err(e) => return Err(e),
    };
    Ok(fields().with("x", Json::Float(x.text)).with("y", Json::Float(y.text)).object())
}

/// Whether a value is a polygon of three to eight points.
pub open spec fn is_polygon(value: Option<JsonView>) -> bool {
    match as_items(value) {
        Some(v) => 3 <= v.len() <= 8 && forall|i: int|
            0 <= i < v.len() ==> is_point(#[trigger] v[i]),
        None => false,
    }
}

/// A polygon reduced to its points.
pub open spec fn polygon_value(value: Option<JsonView>) -> JsonView {
    let v = as_items(value)->0;
    JsonView::Arr(Seq::new(v.len(), |i: int| point_value(v[i])))
}

fn polygon_control(value: Option<&Json>) -> (r: Result<Json, String>)
    ensures
        r is Ok <==> is_polygon(opt_view(value)),
        r matches Ok(j) ==> j@ == polygon_value(opt_view(value)),
        r matches Err(e) ==> e@ == semantics_missing(),
{
    let points = match value {
        Some(v) => match v.as_array() {
            Some(points) => points,
            None => return Err(missing()),
        },
        None => return Err(missing()),
    };
    if points.len() < 3 || points.len() > 8 {
        return Err(missing());
    }
    let ghost items = items_view(points@);
    let mut out: Vec<Json> = Vec::new();
    let mut i: usize = 0;
    while i < points.len()
        invariant
            i <= points.len(),
            items == items_view(points@),
            as_items(opt_view(value)) == Some(items),
            out.len() == i,
            forall|j: int|
                0 <= j < i ==> is_point(#[trigger] items[j]) && out@[j]@ == point_value(items[j]),
        decreases points.len() - i,
    {
        assert(items[i as int] == points@[i as int]@);
        match point_control(&points[i]) {
            Ok(point) => out.push(point),
            Err(e) => return Err(e),
        }
        i += 1;
    }
    let r = json_array(out);
    assert(r@->Arr_0 =~= polygon_value(opt_view(value))->Arr_0);
    Ok(r)
}

/// Whether a bleed is an object whose four edges are truth values where they are given.
pub open spec fn is_bleed(value: JsonView) -> bool {
    match as_members(Some(value)) {
        Some(m) => is_edge(m, "top"@) && is_edge(m, "right"@) && is_edge(m, "bottom"@) && is_edge(
            m,
            "left"@,
        ),
        None => false,
    }
}

/// Whether an edge is absent or a truth value.
pub open spec fn is_edge(m: Seq<(Seq<char>, JsonView)>, key: Seq<char>) -> bool {
    lookup(m, key) is Some ==> as_bool(lookup(m, key)) is Some
}

/// Adds an edge where it is given.
pub open spec fn put_edge(
    out: Seq<(Seq<char>, JsonView)>,
    m: Seq<(Seq<char>, JsonView)>,
    key: Seq<char>,
) -> Seq<(Seq<char>, JsonView)> {
    match as_bool(lookup(m, key)) {
        Some(b) => out.push((key, JsonView::Bool(b))),
        None => out,
    }
}

/// A bleed reduced to its edges.
pub open spec fn bleed_value(value: JsonView) -> JsonView {
    let m = as_members(Some(value))->0;
    JsonView::Obj(
        put_edge(
            put_edge(put_edge(put_edge(no_members(), m, "top"@), m, "right"@), m, "bottom"@),
            m,
            "left"@,
        ),
    )
}

fn add_edge(out: Fields, object: &Vec<(String, Json)>, key: &str) -> (r: Result<Fields, String>)
    ensures
        r is Ok <==> is_edge(members_view(object@), key@),
        r matches Ok(f) ==> f@ == put_edge(out@, members_view(object@), key@),
        r matches Err(e) ==> e@ == semantics_missing(),
{
    match find_member(object, key) {
        Some(v) => match v.as_bool() {
            Some(b) => Ok(out.flag(key, b)),
            None => Err(missing()),
        },
        None => Ok(out),
    }
}

fn bleed_control(value: &Json) -> (r: Result<Json, String>)
    ensures
        r is Ok <==> is_bleed(value@),
        r matches Ok(j) ==> j@ == bleed_value(value@),
        r matches Err(e) ==> e@ == semantics_missing(),
{
    let object = match value.as_object() {
        Some(m) => m,
        None => return Err(missing()),
    };
    let out = match add_edge(fields(), object, "top") {
        Ok(out) => out,
        Err(e) => return Err(e),
    };
    let out = match add_edge(out, object, "right") {
        Ok(out) => out,
        Err(e) => return Err(e),
    };
    let out = match add_edge(out, object, "bottom") {
        Ok(out) => out,
        Err(e) => return Err(e),
    };
    match add_edge(out, object, "left") {
        Ok(out) => Ok(out.object()),
        Err(e) => Err(e),
    }
}

/// Whether a panel of the geometry can be used: its number stands in the reading order, its
/// outline and boxes are inside the page, its parent is another panel, its bleed is readable.
pub open spec fn is_geometry_panel(value: JsonView, order: Seq<int>) -> bool {
    match as_members(Some(value)) {
        Some(m) => {
            &&& positive(lookup(m, "panelNo"@)) is Some
            &&& order.contains(positive(lookup(m, "panelNo"@))->0)
            &&& is_polygon(lookup(m, "polygon"@))
            &&& is_bounds(lookup(m, "bounds"@))
            &&& is_bounds(lookup(m, "textZone"@))
            &&& lookup(m, "parentPanelNo"@) is Some ==> {
                &&& positive(lookup(m, "parentPanelNo"@)) is Some
                &&& positive(lookup(m, "parentPanelNo"@)) != positive(lookup(m, "panelNo"@))
                &&& order.contains(positive(lookup(m, "parentPanelNo"@))->0)
            }
            &&& lookup(m, "bleed"@) is Some ==> is_bleed(lookup(m, "bleed"@)->0)
        },
        None => false,
    }
}

/// The number of a panel of the geometry.
pub open spec fn geometry_panel_no(value: JsonView) -> Option<int> {
    positive(field(value, "panelNo"@))
}

/// A panel of the geometry reduced to what the renderer may see.
pub open spec fn geometry_panel_value(value: JsonView) -> JsonView {
    let m = as_members(Some(value))->0;
    let base = no_members()
        .push(("panelNo"@, JsonView::Int(positive(lookup(m, "panelNo"@))->0)))
        .push(("polygon"@, polygon_value(lookup(m, "polygon"@))))
        .push(("bounds"@, bounds_value(lookup(m, "bounds"@))))
        .push(("textZone"@, bounds_value(lookup(m, "textZone"@))));
    let with_parent = match positive(lookup(m, "parentPanelNo"@)) {
        Some(parent) => base.push(("parentPanelNo"@, JsonView::Int(parent))),
        None => base,
    };
    let with_bleed = match lookup(m, "bleed"@) {
        Some(bleed) => with_parent.push(("bleed"@, bleed_value(bleed))),
        None => with_parent,
    };
    JsonView::Obj(with_bleed)
}

fn geometry_panel_control(value: &Json, order: &Vec<i64>) -> (r: Result<(i64, Json), String>)
    ensures
        r is Ok <==> is_geometry_panel(value@, ints_view(order@)),
        r matches Ok(p) ==> p.1@ == geometry_panel_value(value@) && geometry_panel_no(value@)
            == Some(p.0 as int),
        r matches Err(e) ==> e@ == semantics_missing(),
{
    let ghost numbers = ints_view(order@);
    let object = match value.as_object() {
        Some(m) => m,
        None => return Err(missing()),
    };
    let no: i64 = match positive_i64(find_member(object, "panelNo")) {
        Ok(no) => no,
        Err(e) => return Err(e),
    };
    proof {
        lemma_ints_contains(order@, no);
    }
    if !contains_i64(order, no) {
        return Err(missing());
    }
    let polygon = match polygon_control(find_member(object, "polygon")) {
        Ok(j) => j,
        Err(e) => return Err(e),
    };
    let bounds = match bounds_control(find_member(object, "bounds")) {
        Ok(j) => j,
        Err(e) => return Err(e),
    };
    let zone = match bounds_control(find_member(object, "textZone")) {
        Ok(j) => j,
        Err(e) => return Err(e),
    };
    let base = fields().number("panelNo", no).with("polygon", polygon).with("bounds", bounds).with(
        "textZone",
        zone,
    );
    let with_parent = match find_member(object, "parentPanelNo") {
        Some(v) => {
            let parent: i64 = match positive_i64(Some(v)) {
                Ok(parent) => parent,
                Err(e) => return Err(e),
            };
            proof {
                lemma_ints_contains(order@, parent);
            }
            if parent == no || !contains_i64(order, parent) {
                return Err(missing());
            }
            base.number("parentPanelNo", parent)
        },
        None => base,
    };
    let whole = match find_member(object, "bleed") {
        Some(v) => match bleed_control(v) {
            Ok(bleed) => with_parent.with("bleed", bleed),
            Err(e) => return Err(e),
        },
        None => with_parent,
    };
    Ok((no, whole.object()))
}

proof fn lemma_ints_contains(v: Seq<i64>, x: i64)
    ensures
        v.contains(x) == ints_view(v).contains(x as int),
{
    if v.contains(x) {
        let i = choose|i: int| 0 <= i < v.len() && v[i] == x;
        assert(ints_view(v)[i] == x as int);
    }
    if ints_view(v).contains(x as int) {
        let i = choose|i: int| 0 <= i < v.len() && ints_view(v)[i] == x as int;
        assert(v[i] == x);
    }
}

/// Whether a geometry can be used for `count` panels in a reading order: it repeats count and
/// order, and describes every panel exactly once.
pub open spec fn is_geometry(value: Option<JsonView>, count: int, order: Seq<int>) -> bool {
    match as_members(value) {
        Some(m) => {
            let g = JsonView::Obj(m);
            &&& text_at(g, "coordinateSystem"@) == Some("normalized-0-1"@)
            &&& positive(field(g, "panelCount"@)) == Some(count)
            &&& is_order(field(g, "readingOrder"@), count)
            &&& order_of(field(g, "readingOrder"@)) == order
            &&& items_at(g, "panels"@) is Some
            &&& are_geometry_panels(items_at(g, "panels"@)->0, count, order)
            &&& is_normalized(field(g, "gutter"@), true)
            &&& is_bounds(field(g, "safeArea"@))
        },
        None => false,
    }
}

/// Whether `count` panels can be used and carry different numbers.
pub open spec fn are_geometry_panels(panels: Seq<JsonView>, count: int, order: Seq<int>) -> bool {
    &&& panels.len() == count
    &&& forall|i: int| 0 <= i < panels.len() ==> is_geometry_panel(#[trigger] panels[i], order)
    &&& forall|i: int, j: int|
        0 <= i < j < panels.len() ==> geometry_panel_no(#[trigger] panels[i]) != geometry_panel_no(
            #[trigger] panels[j],
        )
}

/// A geometry reduced to what the renderer may see.
pub open spec fn geometry_value(value: Option<JsonView>, count: int, order: Seq<int>) -> JsonView {
    let g = JsonView::Obj(as_members(value)->0);
    let panels = items_at(g, "panels"@)->0;
    JsonView::Obj(
        no_members()
            .push(("coordinateSystem"@, JsonView::Str("normalized-0-1"@)))
            .push(("panelCount"@, JsonView::Int(count)))
            .push(("readingOrder"@, ints_value(order)))
            .push(("gutter"@, normalized_value(field(g, "gutter"@))))
            .push(("safeArea"@, bounds_value(field(g, "safeArea"@))))
            .push(
                (
                    "panels"@,
                    JsonView::Arr(Seq::new(panels.len(), |i: int| geometry_panel_value(panels[i]))),
                ),
            ),
    )
}

fn geometry_panels_control(panels: &Vec<Json>, count: i64, order: &Vec<i64>) -> (r: Result<
    Json,
    String,
>)
    requires
        panels.len() == count,
    ensures
        r is Ok <==> are_geometry_panels(items_view(panels@), count as int, ints_view(order@)),
        r matches Ok(j) ==> j@ == JsonView::Arr(
            Seq::new(
                items_view(panels@).len(),
                |i: int| geometry_panel_value(items_view(panels@)[i]),
            ),
        ),
        r matches Err(e) ==> e@ == semantics_missing(),
{
    let ghost items = items_view(panels@);
    let ghost numbers = ints_view(order@);
    let mut seen: Vec<i64> = Vec::new();
    let mut cleaned: Vec<Json> = Vec::new();
    let mut i: usize = 0;
    while i < panels.len()
        invariant
            i <= panels.len(),
            items == items_view(panels@),
            numbers == ints_view(order@),
            seen.len() == i,
            cleaned.len() == i,
            forall|j: int|
                0 <= j < i ==> is_geometry_panel(#[trigger] items[j], numbers) && geometry_panel_no(
                    items[j],
                ) == Some(seen@[j] as int) && cleaned@[j]@ == geometry_panel_value(items[j]),
            forall|j: int, k: int|
                0 <= j < k < i ==> geometry_panel_no(#[trigger] items[j]) != geometry_panel_no(
                    #[trigger] items[k],
                ),
        decreases panels.len() - i,
    {
        assert(items[i as int] == panels@[i as int]@);
        match geometry_panel_control(&panels[i], order) {
            Ok(p) => {
                let no: i64 = p.0;
                if contains_i64(&seen, no) {
                    proof {
                        let j = choose|j: int| 0 <= j < seen@.len() && seen@[j] == no;
                        assert(geometry_panel_no(items[j]) == geometry_panel_no(items[i as int]));
                    }
                    return Err(missing());
                }
                proof {
                    assert forall|j: int| 0 <= j < i implies geometry_panel_no(#[trigger] items[j])
                        != geometry_panel_no(items[i as int]) by {
                        if seen@[j] == no {
                            assert(seen@.contains(no));
                        }
                    }
                }
                seen.push(no);
                cleaned.push(p.1);
            },
            Err(e) => return Err(e),
        }
        i += 1;
    }
    let r = json_array(cleaned);
    assert(r@->Arr_0 =~= Seq::new(items.len(), |i: int| geometry_panel_value(items[i])));
    Ok(r)
}

fn same_numbers(a: &Vec<i64>, b: &Vec<i64>) -> (r: bool)
    ensures
        r == (ints_view(a@) == ints_view(b@)),
{
    if a.len() != b.len() {
        assert(ints_view(a@).len() != ints_view(b@).len());
        return false;
    }
    let mut i: usize = 0;
    while i < a.len()
        invariant
            i <= a.len(),
            a.len() == b.len(),
            forall|j: int| 0 <= j < i ==> #[trigger] a@[j] == b@[j],
        decreases a.len() - i,
    {
        if a[i] != b[i] {
            assert(ints_view(a@)[i as int] != ints_view(b@)[i as int]);
            return false;
        }
        i += 1;
    }
    assert(ints_view(a@) =~= ints_view(b@));
    true
}

/// Reads a geometry for `panel_count` panels in a reading order.
pub fn geometry_control(value: Option<&Json>, panel_count: i64, reading_order: &Vec<i64>) -> (r:
    Result<Json, String>)
    requires
        panel_count > 0,
    ensures
        r is Ok <==> is_geometry(
            opt_view(value),
            panel_count as int,
            ints_view(reading_order@),
        ),
        r matches Ok(j) ==> j@ == geometry_value(
            opt_view(value),
            panel_count as int,
            ints_view(reading_order@),
        ),
        r matches Err(e) ==> e@ == semantics_missing(),
{
    let geometry = match value {
        Some(v) => match v.as_object() {
            Some(_) => v,
            None => return Err(missing()),
        },
        None => return Err(missing()),
    };
    let system = match geometry.text_at("coordinateSystem") {
        Some(s) => s,
        None => return Err(missing()),
    };
    if !same(system, "normalized-0-1") {
        return Err(missing());
    }
    let count: i64 = match positive_i64(geometry.get("panelCount")) {
        Ok(count) => count,
        Err(e) => return Err(e),
    };
    if count != panel_count {
        return Err(missing());
    }
    let order = match integer_order(geometry.get("readingOrder"), panel_count) {
        Ok(order) => order,
        Err(e) => return Err(e),
    };
    if !same_numbers(&order, reading_order) {
        return Err(missing());
    }
    let panels = match geometry.items_at("panels") {
        Some(panels) => panels,
        None => return Err(missing()),
    };
    if panels.len() as u64 != panel_count as u64 {
        return Err(missing());
    }
    let cleaned = match geometry_panels_control(panels, panel_count, reading_order) {
        Ok(cleaned) => cleaned,
        Err(e) => return Err(e),
    };
    let gutter = match normalized_number(geometry.get("gutter"), true) {
        Ok(n) => n,
        Err(e) => return Err(e),
    };
    let area = match bounds_control(geometry.get("safeArea")) {
        Ok(j) => j,
        Err(e) => return Err(e),
    };
    Ok(
        fields().text("coordinateSystem", "normalized-0-1").number("panelCount", panel_count).with(
            "readingOrder",
            int_array(reading_order),
        ).with("gutter", Json::Float(gutter.text)).with("safeArea", area).with(
            "panels",
            cleaned,
        ).object(),
    )
}

// ---------------------------------------------------------------------------
// Target panels
// ---------------------------------------------------------------------------

/// The ways in which source panels become a target panel.
pub open spec fn is_mode(s: Seq<char>) -> bool {
    s == "one_to_one"@ || s == "merge"@ || s == "split"@
}

/// Whether a list names at least one source panel, all of them existing.
pub open spec fn are_sources(items: Seq<JsonView>, sources: Seq<int>) -> bool {
    &&& items.len() > 0
    &&& forall|i: int|
        0 <= i < items.len() ==> positive(Some(#[trigger] items[i])) is Some && sources.contains(
            positive(Some(items[i]))->0,
        )
}

/// Whether a mapping can be used: its target stands in the reading order, its sources exist,
/// its mode is known, and it is marked dominant exactly where its target is.
pub open spec fn is_mapping(
    value: JsonView,
    order: Seq<int>,
    sources: Seq<int>,
    dominant: int,
) -> bool {
    &&& value is Obj
    &&& positive(field(value, "targetPanelNo"@)) is Some
    &&& order.contains(positive(field(value, "targetPanelNo"@))->0)
    &&& items_at(value, "sourcePanelNos"@) is Some
    &&& are_sources(items_at(value, "sourcePanelNos"@)->0, sources)
    &&& text_at(value, "mode"@) is Some
    &&& is_mode(text_at(value, "mode"@)->0)
    &&& bool_at(value, "isDominant"@) == Some(
        positive(field(value, "targetPanelNo"@))->0 == dominant,
    )
}

/// A mapping reduced to what the renderer may see.
pub open spec fn mapping_value(value: JsonView) -> JsonView {
    JsonView::Obj(
        no_members()
            .push(
                ("targetPanelNo"@, JsonView::Int(positive(field(value, "targetPanelNo"@))->0)),
            )
            .push(("sourcePanelNos"@, ints_value(order_of(field(value, "sourcePanelNos"@)))))
            .push(("mode"@, JsonView::Str(text_at(value, "mode"@)->0)))
            .push(("isDominant"@, JsonView::Bool(bool_at(value, "isDominant"@)->0))),
    )
}

/// The target of a mapping.
pub open spec fn mapping_target(value: JsonView) -> Option<int> {
    positive(field(value, "targetPanelNo"@))
}

/// Whether a list of mappings covers the reading order: every panel is a target exactly once,
/// the dominant panel among them.
pub open spec fn are_mappings(
    values: Seq<JsonView>,
    order: Seq<int>,
    sources: Seq<int>,
    dominant: int,
) -> bool {
    &&& values.len() == order.len()
    &&& forall|i: int|
        0 <= i < values.len() ==> is_mapping(#[trigger] values[i], order, sources, dominant)
    &&& forall|i: int, j: int|
        0 <= i < j < values.len() ==> mapping_target(#[trigger] values[i]) != mapping_target(
            #[trigger] values[j],
        )
    &&& exists|i: int| 0 <= i < values.len() && mapping_target(#[trigger] values[i]) == Some(dominant)
}

fn source_numbers(items: &Vec<Json>, sources: &Vec<i64>) -> (r: Result<Vec<i64>, String>)
    ensures
        r is Ok <==> are_sources(items_view(items@), ints_view(sources@)),
        r matches Ok(v) ==> ints_view(v@) == order_of(Some(JsonView::Arr(items_view(items@)))),
        r matches Err(e) ==> e@ == semantics_missing(),
{
    let ghost views = items_view(items@);
    if items.len() == 0 {
        return Err(missing());
    }
    let mut out: Vec<i64> = Vec::new();
    let mut i: usize = 0;
    while i < items.len()
        invariant
            i <= items.len(),
            views == items_view(items@),
            out.len() == i,
            forall|j: int|
                0 <= j < i ==> positive(Some(#[trigger] views[j])) == Some(out@[j] as int)
                    && ints_view(sources@).contains(out@[j] as int),
        decreases items.len() - i,
    {
        assert(views[i as int] == items@[i as int]@);
        let read: Result<i64, String> = positive_i64(Some(&items[i]));
        match read {
            Ok(no) => {
                proof {
                    lemma_ints_contains(sources@, no);
                }
                if !contains_i64(sources, no) {
                    return Err(missing());
                }
                out.push(no);
            },
            Err(e) => return Err(e),
        }
        i += 1;
    }
    assert(ints_view(out@) =~= order_of(Some(JsonView::Arr(views))));
    Ok(out)
}

fn mapping_control(
    value: &Json,
    order: &Vec<i64>,
    sources: &Vec<i64>,
    dominant: i64,
) -> (r: Result<(i64, Json), String>)
    ensures
        r is Ok <==> is_mapping(value@, ints_view(order@), ints_view(sources@), dominant as int),
        r matches Ok(p) ==> p.1@ == mapping_value(value@) && mapping_target(value@) == Some(
            p.0 as int,
        ),
        r matches Err(e) ==> e@ == semantics_missing(),
{
    if value.as_object().is_none() {
        return Err(missing());
    }
    let target: i64 = match positive_i64(value.get("targetPanelNo")) {
        Ok(no) => no,
        Err(e) => return Err(e),
    };
    proof {
        lemma_ints_contains(order@, target);
    }
    if !contains_i64(order, target) {
        return Err(missing());
    }
    let listed = match value.items_at("sourcePanelNos") {
        Some(items) => items,
        None => return Err(missing()),
    };
    let clean = match source_numbers(listed, sources) {
        Ok(clean) => clean,
        Err(e) => return Err(e),
    };
    let mode = match value.text_at("mode") {
        Some(mode) => mode,
        None => return Err(missing()),
    };
    if !same(mode, "one_to_one") && !same(mode, "merge") && !same(mode, "split") {
        return Err(missing());
    }
    let flag: Option<bool> = value.bool_at("isDominant");
    match flag {
        Some(is_dominant) => {
            if is_dominant != (target == dominant) {
                return Err(missing());
            }
            Ok(
                (
                    target,
                    fields().number("targetPanelNo", target).with(
                        "sourcePanelNos",
                        int_array(&clean),
                    ).text("mode", mode).flag("isDominant", is_dominant).object(),
                ),
            )
        },
        None => Err(missing()),
    }
}

/// Reads the mappings of a layout.
pub fn clean_target_mappings(
    values: &Vec<Json>,
    reading_order: &Vec<i64>,
    source_panel_nos: &Vec<i64>,
    dominant_panel: i64,
) -> (r: Result<Vec<Json>, String>)
    ensures
        r is Ok <==> are_mappings(
            items_view(values@),
            ints_view(reading_order@),
            ints_view(source_panel_nos@),
            dominant_panel as int,
        ),
        r matches Ok(v) ==> items_view(v@) == Seq::new(
            items_view(values@).len(),
            |i: int| mapping_value(items_view(values@)[i]),
        ),
        r matches Err(e) ==> e@ == semantics_missing(),
{
    let ghost items = items_view(values@);
    let ghost order = ints_view(reading_order@);
    let ghost sources = ints_view(source_panel_nos@);
    let mut seen: Vec<i64> = Vec::new();
    let mut dominant_seen = false;
    let mut cleaned: Vec<Json> = Vec::new();
    let mut i: usize = 0;
    while i < values.len()
        invariant
            i <= values.len(),
            items == items_view(values@),
            order == ints_view(reading_order@),
            sources == ints_view(source_panel_nos@),
            seen.len() == i,
            cleaned.len() == i,
            forall|j: int|
                0 <= j < i ==> is_mapping(#[trigger] items[j], order, sources, dominant_panel as int)
                    && mapping_target(items[j]) == Some(seen@[j] as int) && cleaned@[j]@
                    == mapping_value(items[j]),
            forall|j: int, k: int|
                0 <= j < k < i ==> mapping_target(#[trigger] items[j]) != mapping_target(
                    #[trigger] items[k],
                ),
            dominant_seen == (exists|j: int|
                0 <= j < i && mapping_target(#[trigger] items[j]) == Some(dominant_panel as int)),
        decreases values.len() - i,
    {
        assert(items[i as int] == values@[i as int]@);
        match mapping_control(&values[i], reading_order, source_panel_nos, dominant_panel) {
            Ok(p) => {
                let target: i64 = p.0;
                if contains_i64(&seen, target) {
                    proof {
                        let j = choose|j: int| 0 <= j < seen@.len() && seen@[j] == target;
                        assert(mapping_target(items[j]) == mapping_target(items[i as int]));
                    }
                    return Err(missing());
                }
                proof {
                    assert forall|j: int| 0 <= j < i implies mapping_target(#[trigger] items[j])
                        != mapping_target(items[i as int]) by {
                        if seen@[j] == target {
                            assert(seen@.contains(target));
                        }
                    }
                }
                seen.push(target);
                cleaned.push(p.1);
                if target == dominant_panel {
                    dominant_seen = true;
                    assert(mapping_target(items[i as int]) == Some(dominant_panel as int));
                }
            },
            Err(e) => return Err(e),
        }
        i += 1;
    }
    if seen.len() != reading_order.len() || !dominant_seen {
        return Err(missing());
    }
    assert(items_view(cleaned@) =~= Seq::new(items.len(), |i: int| mapping_value(items[i])));
    Ok(cleaned)
}

// ---------------------------------------------------------------------------
// The page
// ---------------------------------------------------------------------------

/// The layout templates.
pub open spec fn is_template(s: Seq<char>) -> bool {
    ||| s == "reference_story_5"@
    ||| s == "hero_middle_5"@
    ||| s == "diagonal_action_5"@
    ||| s == "reveal_focus_4"@
    ||| s == "conversation_ladder_6"@
    ||| s == "detail_to_wide_5"@
    ||| s == "full_bleed_insets_4"@
    ||| s == "nine_grid_9"@
    ||| s == "custom_irregular"@
}

fn known_template(s: &str) -> (r: bool)
    ensures
        r == is_template(s@),
{
    same(s, "reference_story_5") || same(s, "hero_middle_5") || same(s, "diagonal_action_5")
        || same(s, "reveal_focus_4") || same(s, "conversation_ladder_6") || same(
        s,
        "detail_to_wide_5",
    ) || same(s, "full_bleed_insets_4") || same(s, "nine_grid_9") || same(s, "custom_irregular")
}

/// The kind of a layout: as given, else as its template implies.
pub open spec fn layout_kind(layout: JsonView) -> Seq<char> {
    match text_at(layout, "layoutKind"@) {
        Some(kind) => kind,
        None => if text_at(layout, "templateId"@) == Some("custom_irregular"@) {
            "custom_irregular"@
        } else {
            "template"@
        },
    }
}

/// The panel numbers of a page.
pub open spec fn panel_numbers(panels: Seq<JsonView>) -> Seq<int> {
    Seq::new(panels.len(), |i: int| positive(field(panels[i], "panelNo"@))->0)
}

/// The mappings that a layout states, where it states any.
pub open spec fn stated_mappings(layout: JsonView) -> Option<Seq<JsonView>> {
    match items_at(layout, "targetPanelMappings"@) {
        Some(v) => if v.len() > 0 {
            Some(v)
        } else {
            None
        },
        None => None,
    }
}

/// The mapping of a panel onto itself.
pub open spec fn one_to_one_value(no: int, dominant: int) -> JsonView {
    JsonView::Obj(
        no_members()
            .push(("targetPanelNo"@, JsonView::Int(no)))
            .push(("sourcePanelNos"@, ints_value(seq![no])))
            .push(("mode"@, JsonView::Str("one_to_one"@)))
            .push(("isDominant"@, JsonView::Bool(no == dominant))),
    )
}

/// The number of panels of a layout.
pub open spec fn panel_count_of(layout: JsonView) -> int {
    positive(field(layout, "panelCount"@))->0
}

/// The reading order of a layout.
pub open spec fn reading_order_of(layout: JsonView) -> Seq<int> {
    order_of(field(layout, "readingOrder"@))
}

/// The dominant panel of a layout.
pub open spec fn dominant_of(layout: JsonView) -> int {
    positive(field(layout, "dominantPanel"@))->0
}

/// Whether a layout can be used for the panels of its page.
pub open spec fn is_layout(layout: JsonView, panels: Seq<JsonView>) -> bool {
    let template = text_at(layout, "templateId"@);
    let kind = layout_kind(layout);
    let count = panel_count_of(layout);
    let order = reading_order_of(layout);
    let dominant = dominant_of(layout);
    &&& template is Some
    &&& is_template(template->0)
    &&& kind == "template"@ || kind == "custom_irregular"@
    &&& (template->0 == "custom_irregular"@) == (kind == "custom_irregular"@)
    &&& positive(field(layout, "panelCount"@)) is Some
    &&& is_order(field(layout, "readingOrder"@), count)
    &&& positive(field(layout, "dominantPanel"@)) is Some
    &&& order.contains(dominant)
    &&& is_geometry(field(layout, "geometry"@), count, order)
    &&& panels.len() == count
    &&& forall|i: int|
        0 <= i < panels.len() ==> positive(field(#[trigger] panels[i], "panelNo"@)) is Some
    &&& stated_mappings(layout) is Some ==> are_mappings(
        stated_mappings(layout)->0,
        order,
        panel_numbers(panels),
        dominant,
    )
}

/// Whether the page has a usable layout, one that the production side accepts too.
pub open spec fn is_controlled(page: JsonView, layout_accepted: bool) -> bool {
    &&& members_at(page, "layout"@) is Some
    &&& items_at(page, "panels"@) is Some
    &&& layout_accepted
    &&& is_layout(JsonView::Obj(members_at(page, "layout"@)->0), items_at(page, "panels"@)->0)
    &&& positive(field(page, "pageNo"@)) is Some
}

/// The mappings of a layout: those it states, else every panel onto itself.
pub open spec fn mappings_value(layout: JsonView) -> JsonView {
    let order = reading_order_of(layout);
    match stated_mappings(layout) {
        Some(v) => JsonView::Arr(Seq::new(v.len(), |i: int| mapping_value(v[i]))),
        None => JsonView::Arr(
            Seq::new(order.len(), |i: int| one_to_one_value(order[i], dominant_of(layout))),
        ),
    }
}

/// The layout control of a page.
pub open spec fn control_value(page: JsonView) -> JsonView {
    let layout = JsonView::Obj(members_at(page, "layout"@)->0);
    let count = panel_count_of(layout);
    let order = reading_order_of(layout);
    JsonView::Obj(
        no_members()
            .push(("pageNo"@, JsonView::Int(positive(field(page, "pageNo"@))->0)))
            .push(("aspectRatio"@, JsonView::Str(PAGE_ASPECT_RATIO@)))
            .push(("templateId"@, JsonView::Str(text_at(layout, "templateId"@)->0)))
            .push(("layoutKind"@, JsonView::Str(layout_kind(layout))))
            .push(("panelCount"@, JsonView::Int(count)))
            .push(("readingOrder"@, ints_value(order)))
            .push(("dominantPanel"@, JsonView::Int(dominant_of(layout))))
            .push(("geometry"@, geometry_value(field(layout, "geometry"@), count, order)))
            .push(("targetPanelMappings"@, mappings_value(layout))),
    )
}

fn panel_nos(panels: &Vec<Json>) -> (r: Result<Vec<i64>, String>)
    ensures
        r is Ok <==> (forall|i: int|
            0 <= i < items_view(panels@).len() ==> positive(
                field(#[trigger] items_view(panels@)[i], "panelNo"@),
            ) is Some),
        r matches Ok(v) ==> ints_view(v@) == panel_numbers(items_view(panels@)),
        r matches Err(e) ==> e@ == semantics_missing(),
{
    let ghost items = items_view(panels@);
    let mut out: Vec<i64> = Vec::new();
    let mut i: usize = 0;
    while i < panels.len()
        invariant
            i <= panels.len(),
            items == items_view(panels@),
            out.len() == i,
            forall|j: int|
                0 <= j < i ==> positive(field(#[trigger] items[j], "panelNo"@)) == Some(
                    out@[j] as int,
                ),
        decreases panels.len() - i,
    {
        assert(items[i as int] == panels@[i as int]@);
        let read: Result<i64, String> = positive_i64(panels[i].get("panelNo"));
        match read {
            Ok(no) => out.push(no),
            Err(e) => return Err(e),
        }
        i += 1;
    }
    assert(ints_view(out@) =~= panel_numbers(items));
    Ok(out)
}

fn one_to_one(order: &Vec<i64>, dominant: i64) -> (r: Json)
    ensures
        r@ == JsonView::Arr(
            Seq::new(
                ints_view(order@).len(),
                |i: int| one_to_one_value(ints_view(order@)[i], dominant as int),
            ),
        ),
{
    let ghost numbers = ints_view(order@);
    let mut out: Vec<Json> = Vec::new();
    let mut i: usize = 0;
    while i < order.len()
        invariant
            i <= order.len(),
            numbers == ints_view(order@),
            out.len() == i,
            forall|j: int|
                0 <= j < i ==> (#[trigger] out@[j])@ == one_to_one_value(numbers[j], dominant as int),
        decreases order.len() - i,
    {
        let no: i64 = order[i];
        let mut single: Vec<i64> = Vec::new();
        single.push(no);
        assert(ints_view(single@) =~= seq![no as int]);
        out.push(
            fields().number("targetPanelNo", no).with("sourcePanelNos", int_array(&single)).text(
                "mode",
                "one_to_one",
            ).flag("isDominant", no == dominant).object(),
        );
        i += 1;
    }
    let r = json_array(out);
    assert(r@->Arr_0 =~= Seq::new(
        numbers.len(),
        |i: int| one_to_one_value(numbers[i], dominant as int),
    ));
    r
}

/// Reads the layout control of a page. `layout_accepted` tells whether the production side's
/// own geometry contract accepts the layout for the panels of the page.
pub fn page_control(page: &Json, layout_accepted: bool) -> (r: Result<Json, String>)
    ensures
        r is Ok <==> is_controlled(page@, layout_accepted),
        r matches Ok(j) ==> j@ == control_value(page@),
        r matches Err(e) ==> e@ == semantics_missing(),
{
    let layout = match page.get("layout") {
        Some(v) => match v.as_object() {
            Some(_) => v,
            None => return Err(missing()),
        },
        None => return Err(missing()),
    };
    assert(layout@ == JsonView::Obj(members_at(page@, "layout"@)->0));
    let panels = match page.items_at("panels") {
        Some(panels) => panels,
        None => return Err(missing()),
    };
    if !layout_accepted {
        return Err(missing());
    }
    let template = match layout.text_at("templateId") {
        Some(template) => template,
        None => return Err(missing()),
    };
    if !known_template(template) {
        return Err(missing());
    }
    let custom = same(template, "custom_irregular");
    let kind = match layout.text_at("layoutKind") {
        Some(kind) => kind,
        None => if custom {
            "custom_irregular"
        } else {
            "template"
        },
    };
    let custom_kind = same(kind, "custom_irregular");
    if !same(kind, "template") && !custom_kind {
        return Err(missing());
    }
    if custom != custom_kind {
        return Err(missing());
    }
    let count: i64 = match positive_i64(layout.get("panelCount")) {
        Ok(count) => count,
        Err(e) => return Err(e),
    };
    let order = match integer_order(layout.get("readingOrder"), count) {
        Ok(order) => order,
        Err(e) => return Err(e),
    };
    let dominant: i64 = match positive_i64(layout.get("dominantPanel")) {
        Ok(no) => no,
        Err(e) => return Err(e),
    };
    proof {
        lemma_ints_contains(order@, dominant);
    }
    if !contains_i64(&order, dominant) {
        return Err(missing());
    }
    let geometry = match geometry_control(layout.get("geometry"), count, &order) {
        Ok(geometry) => geometry,
        Err(e) => return Err(e),
    };
    if panels.len() as u64 != count as u64 {
        return Err(missing());
    }
    let sources = match panel_nos(panels) {
        Ok(sources) => sources,
        Err(e) => return Err(e),
    };
    let mappings = match layout.items_at("targetPanelMappings") {
        Some(values) => if values.len() > 0 {
            match clean_target_mappings(values, &order, &sources, dominant) {
                Ok(cleaned) => json_array(cleaned),
                Err(e) => return Err(e),
            }
        } else {
            one_to_one(&order, dominant)
        },
        None => one_to_one(&order, dominant),
    };
    let page_no: i64 = match positive_i64(page.get("pageNo")) {
        Ok(no) => no,
        Err(e) => return Err(e),
    };
    Ok(
        fields().number("pageNo", page_no).text("aspectRatio", PAGE_ASPECT_RATIO).text(
            "templateId",
            template,
        ).text("layoutKind", kind).number("panelCount", count).with(
            "readingOrder",
            int_array(&order),
        ).number("dominantPanel", dominant).with("geometry", geometry).with(
            "targetPanelMappings",
            mappings,
        ).object(),
    )
}

// ---------------------------------------------------------------------------
// Laws
// ---------------------------------------------------------------------------

/// A reading order names every panel: it is a permutation of the numbers from one to the
/// panel count.
pub proof fn order_names_every_panel(value: Option<JsonView>, count: int, no: int)
    requires
        is_order(value, count),
        1 <= no <= count,
    ensures
        order_of(value).contains(no),
        order_of(value).no_duplicates(),
{
    let items = as_items(value)->0;
    let order = order_of(value);
    assert forall|i: int, j: int| 0 <= i < order.len() && 0 <= j < order.len() && i != j implies
        order[i] != order[j] by {
        assert(order[i] == positive(Some(items[i]))->0);
        assert(order[j] == positive(Some(items[j]))->0);
        assert(positive(Some(items[i])) is Some && positive(Some(items[j])) is Some);
        if i < j {
            assert(positive(Some(items[i])) != positive(Some(items[j])));
        } else {
            assert(positive(Some(items[j])) != positive(Some(items[i])));
        }
    }
    order.unique_seq_to_set();
    let whole = vstd::set_lib::set_int_range(1, count + 1);
    vstd::set_lib::lemma_int_range(1, count + 1);
    assert forall|x: int| order.to_set().contains(x) implies whole.contains(x) by {
        let i = choose|i: int| 0 <= i < order.len() && order[i] == x;
        assert(positive(Some(items[i])) is Some);
    }
    assert(order.to_set().subset_of(whole));
    vstd::set_lib::lemma_subset_equality(order.to_set(), whole);
    assert(whole.contains(no));
}

/// A layout that is accepted describes every panel exactly once: with different numbers, each
/// in the reading order, and as many as the order names.
pub proof fn accepted_geometry_covers_the_order(value: Option<JsonView>, count: int, order: Seq<int>)
    requires
        is_geometry(value, count, order),
    ensures
        ({
            let panels = items_at(JsonView::Obj(as_members(value)->0), "panels"@)->0;
            &&& panels.len() == order.len()
            &&& forall|i: int|
                0 <= i < panels.len() ==> geometry_panel_no(#[trigger] panels[i]) is Some
                    && order.contains(geometry_panel_no(panels[i])->0)
            &&& forall|i: int, j: int|
                0 <= i < j < panels.len() ==> geometry_panel_no(#[trigger] panels[i])
                    != geometry_panel_no(#[trigger] panels[j])
        }),
{
    let panels = items_at(JsonView::Obj(as_members(value)->0), "panels"@)->0;
    assert forall|i: int| 0 <= i < panels.len() implies geometry_panel_no(#[trigger] panels[i]) is Some
        && order.contains(geometry_panel_no(panels[i])->0) by {
        assert(is_geometry_panel(panels[i], order));
    }
}

} // verus!
