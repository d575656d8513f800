//! Requests to the image gateway and what comes back.
//!
//! Models of one vendor take an aspect ratio and a resolution where all others take a size in
//! pixels; the selection of the user is translated accordingly. Reference images are checked,
//! ordered and laid out on one board.
use crate::json::{
    field, fields, items_at, items_view, json_read, lemma_lookup, no_members, parse_bytes, text_at,
    Json, JsonView,
};
use crate::outside::{
    base64_decoded, decode_base64, fixed_three, parse_url_path, read_utf8_lossy, set_url_path,
    url_path, url_with_path, utf8_lossy, write_fixed_three,
};
use crate::paths::{lies_under_any, path_in_roots};
use crate::reference_board::MAX_REFERENCE_IMAGES;
use crate::sequence::{
    insert_ordered, is_ordered, lemma_insert_ordered, sort_ordered, sorting_orders,
};
use crate::text::{
    before, before_char, begins_with, blank, chars_of, concat2, concat3, contains, decimal,
    decimal_u64, ends_with, finishes_with, is_blank, is_digit, lemma_precedes_total,
    lemma_precedes_trans, lowered, occurs_in, opt_view, owned, parse_u32, parse_unsigned, precedes,
    result_view, same, split_once, split_once_at, starts_with, string_between, string_of,
    text_precedes, texts_view, to_ascii_lowercase, trim, trimmed,
};
use crate::unit::{in_unit, unit_accepts};
use vstd::prelude::*;

verus! {

/// The largest answer of the image service that is read.
pub const MAX_IMAGE_RESPONSE_BYTES: usize = 104_857_600;

/// The largest image that is downloaded.
pub const MAX_DOWNLOADED_IMAGE_BYTES: usize = 52_428_800;

/// How many images one request can ask for.
pub const MAX_IMAGE_BATCH: u32 = 4;

// ---------------------------------------------------------------------------
// Reading the configuration of a node
// ---------------------------------------------------------------------------

/// The number in a field, where it fits 32 bits.
pub open spec fn u32_at(j: JsonView, key: Seq<char>) -> Option<u32> {
    match field(j, key) {
        Some(JsonView::Int(i)) => if 0 <= i <= u32::MAX {
            Some(i as u32)
        } else {
            None
        },
        _ => None,
    }
}

/// Reads a number that fits 32 bits.
pub fn get_u32(config: &Json, key: &str) -> (r: Option<u32>)
    ensures
        r == u32_at(config@, key@),
{
    broadcast use {crate::json::lemma_arr_view, crate::json::lemma_obj_view};

    match config.get(key) {
        Some(Json::Int(i)) => if *i >= 0 && *i <= 0xffff_ffff {
            Some(*i as u32)
        } else {
            None
        },
        Some(Json::Uint(u)) => if *u <= 0xffff_ffff {
            Some(*u as u32)
        } else {
            None
        },
        _ => None,
    }
}

/// Reads a text.
pub fn get_str(config: &Json, key: &str) -> (r: Option<String>)
    ensures
        opt_view(r) == text_at(config@, key@),
{
    match config.text_at(key) {
        Some(s) => Some(owned(s)),
        None => None,
    }
}

fn get_text_or_empty(config: &Json, key: &str) -> (r: String)
    ensures
        r@ == text_or_empty(text_at(config@, key@)),
{
    match config.text_at(key) {
        Some(s) => owned(s),
        None => String::new(),
    }
}

/// A text, or the empty one where there is none.
pub open spec fn text_or_empty(s: Option<Seq<char>>) -> Seq<char> {
    match s {
        Some(s) => s,
        None => Seq::empty(),
    }
}

/// A text without the white space around it, where anything is left.
pub fn non_empty(s: &str) -> (r: Option<String>)
    ensures
        opt_view(r) == if is_blank(s@) {
            None
        } else {
            Some(trimmed(s@))
        },
{
    let t = trim(s);
    if t.as_str().is_empty() {
        None
    } else {
        Some(t)
    }
}

// ---------------------------------------------------------------------------
// Size
// ---------------------------------------------------------------------------

/// The pixels that a configuration names by width and height.
pub open spec fn named_pixels(config: JsonView) -> Seq<char> {
    let w = match u32_at(config, "width"@) {
        Some(w) => w,
        None => 1024,
    };
    let h = match u32_at(config, "height"@) {
        Some(h) => h,
        None => 1024,
    };
    decimal(w as nat) + "x"@ + decimal(h as nat)
}

/// The size that was selected, with the note that the user interface adds.
pub open spec fn selected_size(config: JsonView) -> Seq<char> {
    match text_at(config, "size"@) {
        Some(s) => if is_blank(s) {
            named_pixels(config)
        } else {
            s
        },
        None => named_pixels(config),
    }
}

/// The part of a selection before its note, where it names pixels.
pub open spec fn pixels_part(selection: Seq<char>) -> Seq<char> {
    let base = trimmed(before_char(selection, '('));
    if base.contains('x') {
        base
    } else {
        Seq::empty()
    }
}

/// The size that is sent: the selected one, else by width and height.
pub open spec fn sent_size(config: JsonView) -> Seq<char> {
    let base = pixels_part(selected_size(config));
    if base.len() > 0 {
        base
    } else {
        named_pixels(config)
    }
}

fn pixels_of(config: &Json) -> (r: String)
    ensures
        r@ == named_pixels(config@),
{
    let w: u32 = match get_u32(config, "width") {
        Some(w) => w,
        None => 1024,
    };
    let h: u32 = match get_u32(config, "height") {
        Some(h) => h,
        None => 1024,
    };
    concat3(decimal_u64(w as u64).as_str(), "x", decimal_u64(h as u64).as_str())
}

/// The size that was selected.
pub fn size_selection(config: &Json) -> (r: String)
    ensures
        r@ == selected_size(config@),
{
    match config.text_at("size") {
        Some(s) => if blank(s) {
            pixels_of(config)
        } else {
            owned(s)
        },
        None => pixels_of(config),
    }
}

fn holds_char(s: &str, c: char) -> (r: bool)
    ensures
        r == s@.contains(c),
{
    split_once(s, c).is_some()
}

/// Keeps the pixels of a selection such as `1024x1024 (1:1)`.
pub fn normalize_size(selection: &str) -> (r: String)
    ensures
        r@ == pixels_part(selection@),
{
    let base = trim(before(selection, '(').as_str());
    if holds_char(base.as_str(), 'x') {
        base
    } else {
        String::new()
    }
}

/// The size that is sent.
pub fn size_str(config: &Json) -> (r: String)
    ensures
        r@ == sent_size(config@),
{
    let base = normalize_size(size_selection(config).as_str());
    if base.as_str().is_empty() {
        pixels_of(config)
    } else {
        base
    }
}

/// How many images a configuration asks for.
pub open spec fn image_count(config: JsonView) -> u32 {
    match u32_at(config, "n"@) {
        Some(n) => if n < 1 {
            1
        } else if n > MAX_IMAGE_BATCH {
            MAX_IMAGE_BATCH
        } else {
            n
        },
        None => 1,
    }
}

/// How many images are requested: at least one, at most a batch.
pub fn requested_image_count(config: &Json) -> (r: u32)
    ensures
        r == image_count(config@),
        1 <= r <= MAX_IMAGE_BATCH,
{
    match get_u32(config, "n") {
        Some(n) => if n < 1 {
            1
        } else if n > MAX_IMAGE_BATCH {
            MAX_IMAGE_BATCH
        } else {
            n
        },
        None => 1,
    }
}

// ---------------------------------------------------------------------------
// Models by aspect ratio
// ---------------------------------------------------------------------------

/// Whether a part of a model name is that of the vendor: the bare name, or the name followed
/// by a separator or a version.
pub open spec fn is_vendor_segment(s: Seq<char>) -> bool {
    s == "grok"@ || (begins_with(s, "grok"@) && s.len() > 4 && (s[4] == '-' || s[4] == '_'
        || is_digit(s[4])))
}

/// Whether a character parts a model name.
pub open spec fn is_name_separator(c: char) -> bool {
    c == '/' || c == ':' || c == '@'
}

/// Whether the characters from `from` up to `to` are one part of a name: no separator inside,
/// and one on either side or the end of the name.
pub open spec fn is_segment(s: Seq<char>, from: int, to: int) -> bool {
    &&& 0 <= from <= to <= s.len()
    &&& from == 0 || is_name_separator(s[from - 1])
    &&& to == s.len() || is_name_separator(s[to])
    &&& forall|i: int| from <= i < to ==> !is_name_separator(#[trigger] s[i])
}

/// Whether any part of a model name is that of the vendor, whatever its case.
pub open spec fn is_grok(model: Seq<char>) -> bool {
    let s = lowered(trimmed(model));
    exists|from: int, to: int| #[trigger]
        is_segment(s, from, to) && is_vendor_segment(s.subrange(from, to))
}

/// Decides whether a part of a model name is that of the vendor.
pub fn is_grok_name_segment(segment: &str) -> (r: bool)
    ensures
        r == is_vendor_segment(segment@),
{
    if same(segment, "grok") {
        return true;
    }
    let cs = chars_of(segment);
    starts_with(segment, "grok") && cs.len() > 4 && (cs[4] == '-' || cs[4] == '_' || ('0' <= cs[4]
        && cs[4] <= '9'))
}

fn separates(c: char) -> (r: bool)
    ensures
        r == is_name_separator(c),
{
    c == '/' || c == ':' || c == '@'
}

/// Decides whether a model takes an aspect ratio in place of a size.
pub fn is_grok_image_model(model: &str) -> (r: bool)
    ensures
        r == is_grok(model@),
{
    let name = to_ascii_lowercase(trim(model).as_str());
    let cs = chars_of(name.as_str());
    let ghost s = lowered(trimmed(model@));
    let mut from: usize = 0;
    let mut i: usize = 0;
    while i < cs.len()
        invariant
            from <= i <= cs.len(),
            cs@ == s,
            s == lowered(trimmed(model@)),
            from == 0 || is_name_separator(s[from - 1]),
            forall|j: int| from <= j < i ==> !is_name_separator(#[trigger] s[j]),
            forall|f: int, t: int|
                #[trigger] is_segment(s, f, t) && f < from ==> !is_vendor_segment(
                    s.subrange(f, t),
                ),
        decreases cs.len() - i,
    {
        if separates(cs[i]) {
            let part = string_between(&cs, from, i);
            assert(is_segment(s, from as int, i as int));
            if is_grok_name_segment(part.as_str()) {
                return true;
            }
            proof {
                assert forall|f: int, t: int|
                    #[trigger] is_segment(s, f, t) && f < i + 1 implies !is_vendor_segment(
                    s.subrange(f, t),
                ) by {
                    if f >= from {
                        if f > from {
                            assert(is_name_separator(s[f - 1]));
                            assert(!is_name_separator(s[f - 1]));
                        }
                        if t < i {
                            assert(is_name_separator(s[t]));
                        } else if t > i {
                            assert(!is_name_separator(s[i as int]));
                        }
                    }
                }
            }
            from = i + 1;
        }
        i += 1;
    }
    let part = string_between(&cs, from, cs.len());
    assert(is_segment(s, from as int, cs.len() as int));
    let last = is_grok_name_segment(part.as_str());
    proof {
        if !last {
            assert forall|f: int, t: int| #[trigger] is_segment(s, f, t) implies !is_vendor_segment(
                s.subrange(f, t),
            ) by {
                if f >= from {
                    if f > from {
                        assert(is_name_separator(s[f - 1]));
                        assert(!is_name_separator(s[f - 1]));
                    }
                    if t < s.len() {
                        assert(is_name_separator(s[t]));
                    }
                }
            }
        }
    }
    last
}

/// How many aspect ratios there are.
pub const RATIO_COUNT: usize = 13;

/// The aspect ratios in ascending order: label, width and height.
pub open spec fn ratio_label(i: int) -> Seq<char> {
    if i == 0 {
        "9:20"@
    } else if i == 1 {
        "9:19.5"@
    } else if i == 2 {
        "1:2"@
    } else if i == 3 {
        "9:16"@
    } else if i == 4 {
        "2:3"@
    } else if i == 5 {
        "3:4"@
    } else if i == 6 {
        "1:1"@
    } else if i == 7 {
        "4:3"@
    } else if i == 8 {
        "3:2"@
    } else if i == 9 {
        "16:9"@
    } else if i == 10 {
        "2:1"@
    } else if i == 11 {
        "19.5:9"@
    } else {
        "20:9"@
    }
}

/// The width that a picture of a height has in an aspect ratio, in units of 1/9360.
pub open spec fn ratio_width(i: int, h: int) -> int {
    if i == 0 {
        4212 * h
    } else if i == 1 {
        4320 * h
    } else if i == 2 {
        4680 * h
    } else if i == 3 {
        5265 * h
    } else if i == 4 {
        6240 * h
    } else if i == 5 {
        7020 * h
    } else if i == 6 {
        9360 * h
    } else if i == 7 {
        12480 * h
    } else if i == 8 {
        14040 * h
    } else if i == 9 {
        16640 * h
    } else if i == 10 {
        18720 * h
    } else if i == 11 {
        20280 * h
    } else {
        20800 * h
    }
}

/// The aspect ratio nearest to that of a picture. A picture halfway between two ratios takes
/// the one that double-precision arithmetic, or the order of the table, prefers.
pub open spec fn nearest_ratio(w: int, h: int) -> int {
    if w * 520 <= h * 237 {
        0
    } else if w * 52 <= h * 25 {
        1
    } else if w * 32 < h * 17 {
        2
    } else if w * 96 < h * 59 {
        3
    } else if w * 24 < h * 17 {
        4
    } else if w * 8 < h * 7 {
        5
    } else if w * 6 < h * 7 {
        6
    } else if w * 12 < h * 17 {
        7
    } else if w * 36 < h * 59 {
        8
    } else if w * 9 <= h * 17 {
        9
    } else if w * 12 < h * 25 {
        10
    } else if w * 36 < h * 79 {
        11
    } else {
        12
    }
}

/// How far the width of a picture is from the width that an aspect ratio asks for, in units
/// of 1/9360.
pub open spec fn ratio_distance(w: int, h: int, i: int) -> int {
    let d = 9360 * w - ratio_width(i, h);
    if d < 0 {
        -d
    } else {
        d
    }
}

/// No aspect ratio is nearer to a picture than the one chosen for it.
pub proof fn chosen_ratio_is_nearest(w: int, h: int, i: int)
    requires
        w > 0,
        h > 0,
        0 <= i < RATIO_COUNT,
    ensures
        ratio_distance(w, h, nearest_ratio(w, h)) <= ratio_distance(w, h, i),
{
}

/// The part of a selection before its note, with one sign for all multiplication signs.
pub open spec fn selected_base(selection: Seq<char>) -> Seq<char> {
    trimmed(before_char(selection, '(')).map_values(
        |c: char|
            if c == '×' || c == 'X' {
                'x'
            } else {
                c
            },
    )
}

/// The pixels that a selection names, where it names any.
pub open spec fn selected_pixels(selection: Seq<char>) -> Option<(nat, nat)> {
    match split_once_at(selected_base(selection), 'x') {
        None => None,
        Some(sides) => match (
            parse_unsigned(trimmed(sides.0), u32::MAX as nat),
            parse_unsigned(trimmed(sides.1), u32::MAX as nat),
        ) {
            (Some(w), Some(h)) => if w > 0 && h > 0 {
                Some((w, h))
            } else {
                None
            },
            _ => None,
        },
    }
}

/// The note of a selection: what stands between the brackets, in small letters.
pub open spec fn selection_note(selection: Seq<char>) -> Option<Seq<char>> {
    match split_once_at(selection, '(') {
        None => None,
        Some(p) => match split_once_at(p.1, ')') {
            None => None,
            Some(q) => Some(lowered(trimmed(q.0))),
        },
    }
}

/// Whether a text is the label of an aspect ratio.
pub open spec fn is_ratio_label(s: Seq<char>) -> bool {
    exists|i: int| 0 <= i < RATIO_COUNT && s == #[trigger] ratio_label(i)
}

/// The aspect ratio of a selection: as its note says, else the nearest to its pixels, else
/// square.
pub open spec fn aspect_ratio(selection: Seq<char>) -> Seq<char> {
    let note = selection_note(selection);
    if note is Some && is_ratio_label(note->0) {
        note->0
    } else {
        match selected_pixels(selection) {
            Some(p) => ratio_label(nearest_ratio(p.0 as int, p.1 as int)),
            None => "1:1"@,
        }
    }
}

/// Reads the pixels of a selection such as `1024x1536` or `1024×1536`.
pub fn pixel_size(selection: &str) -> (r: Option<(u32, u32)>)
    ensures
        (match r {
            Some(p) => Some((p.0 as nat, p.1 as nat)),
            None => None,
        }) == selected_pixels(selection@),
{
    let base = chars_of(trim(before(selection, '(').as_str()).as_str());
    let ghost want = selected_base(selection@);
    let mut cs: Vec<char> = Vec::new();
    let mut i: usize = 0;
    while i < base.len()
        invariant
            i <= base.len(),
            base@ == trimmed(before_char(selection@, '(')),
            want == selected_base(selection@),
            cs.len() == i,
            forall|j: int| 0 <= j < i ==> #[trigger] cs@[j] == want[j],
        decreases base.len() - i,
    {
        let c = base[i];
        cs.push(
            if c == '×' || c == 'X' {
                'x'
            } else {
                c
            },
        );
        i += 1;
    }
    assert(cs@ =~= want);
    let text = string_of(&cs);
    let sides = match split_once(text.as_str(), 'x') {
        Some(sides) => sides,
        None => return None,
    };
    let width: Option<u32> = parse_u32(trim(sides.0.as_str()).as_str());
    let height: Option<u32> = parse_u32(trim(sides.1.as_str()).as_str());
    match (width, height) {
        (Some(w), Some(h)) => if w > 0 && h > 0 {
            Some((w, h))
        } else {
            None
        },
        _ => None,
    }
}

fn ratio_text(i: usize) -> (r: &'static str)
    requires
        i < RATIO_COUNT,
    ensures
        r@ == ratio_label(i as int),
{
    if i == 0 {
        "9:20"
    } else if i == 1 {
        "9:19.5"
    } else if i == 2 {
        "1:2"
    } else if i == 3 {
        "9:16"
    } else if i == 4 {
        "2:3"
    } else if i == 5 {
        "3:4"
    } else if i == 6 {
        "1:1"
    } else if i == 7 {
        "4:3"
    } else if i == 8 {
        "3:2"
    } else if i == 9 {
        "16:9"
    } else if i == 10 {
        "2:1"
    } else if i == 11 {
        "19.5:9"
    } else {
        "20:9"
    }
}

fn find_ratio(w: u32, h: u32) -> (r: usize)
    ensures
        r == nearest_ratio(w as int, h as int),
        r < RATIO_COUNT,
{
    let w: u64 = w as u64;
    let h: u64 = h as u64;
    if w * 520 <= h * 237 {
        0
    } else if w * 52 <= h * 25 {
        1
    } else if w * 32 < h * 17 {
        2
    } else if w * 96 < h * 59 {
        3
    } else if w * 24 < h * 17 {
        4
    } else if w * 8 < h * 7 {
        5
    } else if w * 6 < h * 7 {
        6
    } else if w * 12 < h * 17 {
        7
    } else if w * 36 < h * 59 {
        8
    } else if w * 9 <= h * 17 {
        9
    } else if w * 12 < h * 25 {
        10
    } else if w * 36 < h * 79 {
        11
    } else {
        12
    }
}

fn ratio_named(s: &str) -> (r: bool)
    ensures
        r == is_ratio_label(s@),
{
    let mut i: usize = 0;
    while i < RATIO_COUNT
        invariant
            i <= RATIO_COUNT,
            forall|j: int| 0 <= j < i ==> s@ != #[trigger] ratio_label(j),
        decreases RATIO_COUNT - i,
    {
        if same(s, ratio_text(i)) {
            assert(s@ == ratio_label(i as int));
            return true;
        }
        i += 1;
    }
    false
}

fn note_of(selection: &str) -> (r: Option<String>)
    ensures
        opt_view(r) == selection_note(selection@),
{
    match split_once(selection, '(') {
        None => None,
        Some(p) => match split_once(p.1.as_str(), ')') {
            None => None,
            Some(q) => Some(to_ascii_lowercase(trim(q.0.as_str()).as_str())),
        },
    }
}

/// The aspect ratio of a selection.
pub fn grok_aspect_ratio(selection: &str) -> (r: String)
    ensures
        r@ == aspect_ratio(selection@),
{
    match note_of(selection) {
        Some(note) => if ratio_named(note.as_str()) {
            return note;
        },
        None => {},
    }
    let found: Option<(u32, u32)> = pixel_size(selection);
    match found {
        Some(p) => owned(ratio_text(find_ratio(p.0, p.1))),
        None => owned("1:1"),
    }
}

/// The resolution of a selection: the larger one where a mark or the pixels ask for it.
pub open spec fn resolution(selection: Seq<char>) -> Seq<char> {
    let s = lowered(selection);
    if occurs_in(s, "2k"@) || occurs_in(s, "4k"@) || occurs_in(s, "8k"@) {
        "2k"@
    } else {
        match selected_pixels(selection) {
            Some(p) => if p.0 >= 2000 || p.1 >= 2000 {
                "2k"@
            } else {
                "1k"@
            },
            None => "1k"@,
        }
    }
}

/// The resolution of a selection.
pub fn grok_resolution(selection: &str) -> (r: String)
    ensures
        r@ == resolution(selection@),
{
    let hinted = to_ascii_lowercase(selection);
    let h = hinted.as_str();
    if contains(h, "2k") || contains(h, "4k") || contains(h, "8k") {
        return owned("2k");
    }
    let found: Option<(u32, u32)> = pixel_size(selection);
    match found {
        Some(p) => if p.0 >= 2000 || p.1 >= 2000 {
            owned("2k")
        } else {
            owned("1k")
        },
        None => owned("1k"),
    }
}

/// Whether an answer refuses the parameters of a request.
pub fn is_contract_rejection(status: u16) -> (r: bool)
    ensures
        r == (status == 400 || status == 422),
{
    status == 400 || status == 422
}

// ---------------------------------------------------------------------------
// Request bodies
// ---------------------------------------------------------------------------

/// The members with a text added where it is not empty.
pub open spec fn put_text(
    m: Seq<(Seq<char>, JsonView)>,
    key: Seq<char>,
    value: Seq<char>,
) -> Seq<(Seq<char>, JsonView)> {
    if value.len() > 0 {
        m.push((key, JsonView::Str(value)))
    } else {
        m
    }
}

/// The background that is sent: none for automatic.
pub open spec fn sent_background(background: Seq<char>) -> Seq<char> {
    if background == "auto"@ {
        Seq::empty()
    } else {
        background
    }
}

/// The body of a request by size.
pub open spec fn openai_body(
    model: Seq<char>,
    prompt: Seq<char>,
    size: Seq<char>,
    quality: Seq<char>,
    background: Seq<char>,
    count: int,
) -> JsonView {
    let base = no_members()
        .push(("model"@, JsonView::Str(model)))
        .push(("prompt"@, JsonView::Str(prompt)))
        .push(("n"@, JsonView::Int(count)));
    JsonView::Obj(
        put_text(
            put_text(put_text(base, "size"@, size), "quality"@, quality),
            "background"@,
            sent_background(background),
        ),
    )
}

/// The qualities that a request by aspect ratio can name.
pub open spec fn is_known_quality(s: Seq<char>) -> bool {
    s == "low"@ || s == "medium"@ || s == "high"@
}

/// The body of a request by aspect ratio: without size and background, and with a quality only
/// where it is known.
pub open spec fn grok_body(
    model: Seq<char>,
    prompt: Seq<char>,
    selection: Seq<char>,
    quality: Seq<char>,
    count: int,
) -> JsonView {
    let base = no_members()
        .push(("model"@, JsonView::Str(model)))
        .push(("prompt"@, JsonView::Str(prompt)))
        .push(("n"@, JsonView::Int(count)))
        .push(("aspect_ratio"@, JsonView::Str(aspect_ratio(selection))))
        .push(("resolution"@, JsonView::Str(resolution(selection))))
        .push(("response_format"@, JsonView::Str("b64_json"@)));
    JsonView::Obj(
        if is_known_quality(quality) {
            base.push(("quality"@, JsonView::Str(quality)))
        } else {
            base
        },
    )
}

/// The body of a request by size.
pub fn openai_image_generation_body(
    model: &str,
    prompt: &str,
    size: &str,
    quality: &str,
    background: &str,
    count: u32,
) -> (r: Json)
    ensures
        r@ == openai_body(model@, prompt@, size@, quality@, background@, count as int),
{
    let body = fields().text("model", model).text("prompt", prompt).number("n", count as i64);
    let body = if size.is_empty() {
        body
    } else {
        body.text("size", size)
    };
    let body = if quality.is_empty() {
        body
    } else {
        body.text("quality", quality)
    };
    let body = if background.is_empty() || same(background, "auto") {
        body
    } else {
        body.text("background", background)
    };
    body.object()
}

/// The body of a request by aspect ratio.
pub fn grok_image_generation_body(
    model: &str,
    prompt: &str,
    size_selection: &str,
    quality: &str,
    count: u32,
) -> (r: Json)
    ensures
        r@ == grok_body(model@, prompt@, size_selection@, quality@, count as int),
{
    let body = fields().text("model", model).text("prompt", prompt).number("n", count as i64).text(
        "aspect_ratio",
        grok_aspect_ratio(size_selection).as_str(),
    ).text("resolution", grok_resolution(size_selection).as_str()).text(
        "response_format",
        "b64_json",
    );
    let body = if same(quality, "low") || same(quality, "medium") || same(quality, "high") {
        body.text("quality", quality)
    } else {
        body
    };
    body.object()
}

/// The body of a request: by aspect ratio for the models that take one, by size for all
/// others.
pub fn image_generation_body(
    model: &str,
    prompt: &str,
    size: &str,
    size_selection: &str,
    quality: &str,
    background: &str,
    count: u32,
) -> (r: Json)
    ensures
        r@ == if is_grok(model@) {
            grok_body(model@, prompt@, size_selection@, quality@, count as int)
        } else {
            openai_body(model@, prompt@, size@, quality@, background@, count as int)
        },
{
    if is_grok_image_model(model) {
        grok_image_generation_body(model, prompt, size_selection, quality, count)
    } else {
        openai_image_generation_body(model, prompt, size, quality, background, count)
    }
}

/// The address for pictures with references: the one for pictures without, with another end.
pub open spec fn edits_address(url: Seq<char>) -> Result<Seq<char>, Seq<char>> {
    match edits_path_of(url_path(url)) {
        Err(e) => Err(e),
        Ok(path) => Ok(url_with_path(url, path)->0),
    }
}

/// The path for pictures with references, from the path of the address or the reason why it
/// is no address.
pub open spec fn edits_path_of(path: Result<Seq<char>, Seq<char>>) -> Result<Seq<char>, Seq<char>> {
    match path {
        Err(e) => Err("图像 API 地址无效: "@ + e),
        Ok(path) => if finishes_with(path, "/generations"@) {
            Ok(path.subrange(0, path.len() - "/generations"@.len()) + "/edits"@)
        } else {
            Err("图生图要求图像 API 地址以 /generations 结尾"@)
        },
    }
}

/// Derives the path for pictures with references.
pub fn edits_path(path: Result<String, String>) -> (r: Result<String, String>)
    ensures
        result_view(r) == edits_path_of(result_view(path)),
{
    let path = match path {
        Ok(path) => path,
        Err(e) => return Err(concat2("图像 API 地址无效: ", e.as_str())),
    };
    if !ends_with(path.as_str(), "/generations") {
        return Err(owned("图生图要求图像 API 地址以 /generations 结尾"));
    }
    proof {
        reveal_strlit("/generations");
        assert("/generations"@.len() == 12);
    }
    let cs = chars_of(path.as_str());
    let prefix = string_between(&cs, 0, cs.len() - 12);
    Ok(concat2(prefix.as_str(), "/edits"))
}

/// The prompt goes to the service as it is, whatever the contract.
pub proof fn prompt_is_forwarded_verbatim(
    model: Seq<char>,
    prompt: Seq<char>,
    size: Seq<char>,
    selection: Seq<char>,
    quality: Seq<char>,
    background: Seq<char>,
    count: int,
)
    ensures
        text_at(openai_body(model, prompt, size, quality, background, count), "prompt"@) == Some(
            prompt,
        ),
        text_at(grok_body(model, prompt, selection, quality, count), "prompt"@) == Some(prompt),
{
    reveal_strlit("model");
    reveal_strlit("prompt");
    assert("model"@.len() == 5 && "prompt"@.len() == 6);
    let a = openai_body(model, prompt, size, quality, background, count)->Obj_0;
    let b = grok_body(model, prompt, selection, quality, count)->Obj_0;
    assert(a[0].0 == "model"@ && a[1] == ("prompt"@, JsonView::Str(prompt)));
    assert(b[0].0 == "model"@ && b[1] == ("prompt"@, JsonView::Str(prompt)));
    lemma_lookup(a, "prompt"@, 1);
    lemma_lookup(b, "prompt"@, 1);
}

/// A request by ratio names neither a size in pixels nor a background.
pub proof fn ratio_request_names_no_size(
    model: Seq<char>,
    prompt: Seq<char>,
    selection: Seq<char>,
    quality: Seq<char>,
    count: int,
)
    ensures
        field(grok_body(model, prompt, selection, quality, count), "size"@) is None,
        field(grok_body(model, prompt, selection, quality, count), "background"@) is None,
{
    reveal_strlit("model");
    reveal_strlit("prompt");
    reveal_strlit("n");
    reveal_strlit("aspect_ratio");
    reveal_strlit("resolution");
    reveal_strlit("response_format");
    reveal_strlit("quality");
    reveal_strlit("size");
    reveal_strlit("background");
    assert("model"@.len() == 5 && "prompt"@.len() == 6 && "n"@.len() == 1);
    assert("aspect_ratio"@.len() == 12 && "resolution"@.len() == 10);
    assert("response_format"@.len() == 15 && "quality"@.len() == 7 && "size"@.len() == 4);
    assert("background"@.len() == 10 && "background"@[0] == 'b' && "resolution"@[0] == 'r');
    let b = grok_body(model, prompt, selection, quality, count)->Obj_0;
    lemma_lookup(b, "size"@, b.len() as int);
    lemma_lookup(b, "background"@, b.len() as int);
}

/// Derives the address for pictures with references.
pub fn edits_endpoint(api_url: &str) -> (r: Result<String, String>)
    ensures
        result_view(r) == edits_address(api_url@),
{
    let wanted = match edits_path(parse_url_path(api_url)) {
        Ok(wanted) => wanted,
        Err(e) => return Err(e),
    };
    match set_url_path(api_url, wanted.as_str()) {
        Some(url) => Ok(url),
        None => Err(String::new()),
    }
}

// ---------------------------------------------------------------------------
// The request of a node
// ---------------------------------------------------------------------------

/// Everything that a node asks of the image service.
#[derive(Debug)]
pub struct ImageRequest {
    pub prompt: String,
    pub model: String,
    pub selection: String,
    pub size: String,
    pub quality: String,
    pub background: String,
    pub count: u32,
    pub grok: bool,
}

/// The refusal of a request before anything is sent, where it is refused.
pub open spec fn image_refusal(url: Seq<char>, key: Seq<char>, config: JsonView) -> Option<
    Seq<char>,
> {
    if url.len() == 0 || key.len() == 0 {
        Some("未配置图像 API（请在设置中填写图像地址与 Key）"@)
    } else {
        match text_at(config, "prompt"@) {
            None => Some("缺少提示词 (prompt)"@),
            Some(prompt) => if is_blank(prompt) {
                Some("提示词为空"@)
            } else {
                None
            },
        }
    }
}

/// The model of a request: the chosen one, else the configured one.
pub open spec fn chosen_model(config: JsonView, configured: Seq<char>) -> Seq<char> {
    match text_at(config, "model"@) {
        Some(model) => model,
        None => configured,
    }
}

/// Whether a request is what a node asks for; the prompt is handed on as it stands.
pub open spec fn is_request_of(r: ImageRequest, config: JsonView, configured: Seq<char>) -> bool {
    &&& Some(r.prompt@) == text_at(config, "prompt"@)
    &&& r.model@ == chosen_model(config, configured)
    &&& r.selection@ == selected_size(config)
    &&& r.size@ == sent_size(config)
    &&& r.quality@ == text_or_empty(text_at(config, "quality"@))
    &&& r.background@ == text_or_empty(text_at(config, "background"@))
    &&& r.count == image_count(config)
    &&& r.grok == is_grok(r.model@)
}

/// Reads what a node asks of the image service.
pub fn image_request(
    image_api_url: &str,
    image_api_key: &str,
    image_model: &str,
    config: &Json,
) -> (r: Result<ImageRequest, String>)
    ensures
        match image_refusal(image_api_url@, image_api_key@, config@) {
            Some(e) => r matches Err(f) && f@ == e,
            None => r matches Ok(q) && is_request_of(q, config@, image_model@),
        },
{
    if image_api_url.is_empty() || image_api_key.is_empty() {
        return Err(owned("未配置图像 API（请在设置中填写图像地址与 Key）"));
    }
    let prompt = match get_str(config, "prompt") {
        Some(prompt) => prompt,
        None => return Err(owned("缺少提示词 (prompt)")),
    };
    if blank(prompt.as_str()) {
        return Err(owned("提示词为空"));
    }
    let model = match get_str(config, "model") {
        Some(model) => model,
        None => owned(image_model),
    };
    let grok = is_grok_image_model(model.as_str());
    Ok(
        ImageRequest {
            prompt,
            model,
            selection: size_selection(config),
            size: size_str(config),
            quality: get_text_or_empty(config, "quality"),
            background: get_text_or_empty(config, "background"),
            count: requested_image_count(config),
            grok,
        },
    )
}

/// The body of a request without references, by size.
pub open spec fn body_by_size(q: ImageRequest) -> JsonView {
    openai_body(q.model@, q.prompt@, q.size@, q.quality@, q.background@, q.count as int)
}

/// The body of a request without references.
pub open spec fn first_body(q: ImageRequest) -> JsonView {
    if is_grok(q.model@) {
        grok_body(q.model@, q.prompt@, q.selection@, q.quality@, q.count as int)
    } else {
        body_by_size(q)
    }
}

/// Whether an answer refuses the parameters of a model, so that the request is made by size.
pub open spec fn refuses_contract(q: ImageRequest, status: u16) -> bool {
    q.grok && (status == 400 || status == 422)
}

/// The body of a request without references.
pub fn request_body(q: &ImageRequest) -> (r: Json)
    ensures
        r@ == first_body(*q),
{
    image_generation_body(
        q.model.as_str(),
        q.prompt.as_str(),
        q.size.as_str(),
        q.selection.as_str(),
        q.quality.as_str(),
        q.background.as_str(),
        q.count,
    )
}

/// The body of a request that is made again by size, where an answer refuses the parameters of
/// its model.
pub fn fallback_body(q: &ImageRequest, status: u16) -> (r: Option<Json>)
    ensures
        opt_view(r) == if refuses_contract(*q, status) {
            Some(body_by_size(*q))
        } else {
            None
        },
{
    if q.grok && is_contract_rejection(status) {
        Some(
            openai_image_generation_body(
                q.model.as_str(),
                q.prompt.as_str(),
                q.size.as_str(),
                q.quality.as_str(),
                q.background.as_str(),
                q.count,
            ),
        )
    } else {
        None
    }
}

/// The fields of a form, one after the other.
pub open spec fn form_view(v: Seq<(String, String)>) -> Seq<(Seq<char>, Seq<char>)> {
    v.map_values(|p: (String, String)| (p.0@, p.1@))
}

/// The fields with one added where it is not empty.
pub open spec fn put_field(
    f: Seq<(Seq<char>, Seq<char>)>,
    key: Seq<char>,
    value: Seq<char>,
) -> Seq<(Seq<char>, Seq<char>)> {
    if value.len() > 0 {
        f.push((key, value))
    } else {
        f
    }
}

/// The text fields of the form of a request with references.
pub open spec fn form_fields_spec(q: ImageRequest, prompt: Seq<char>, by_ratio: bool) -> Seq<
    (Seq<char>, Seq<char>),
> {
    let base = Seq::<(Seq<char>, Seq<char>)>::empty()
        .push(("model"@, q.model@))
        .push(("prompt"@, prompt))
        .push(("n"@, decimal(q.count as nat)));
    if by_ratio {
        put_field(
            base
                .push(("aspect_ratio"@, aspect_ratio(q.selection@)))
                .push(("resolution"@, resolution(q.selection@))),
            "quality"@,
            q.quality@,
        )
    } else {
        put_field(
            put_field(put_field(base, "size"@, q.size@), "quality"@, q.quality@),
            "background"@,
            sent_background(q.background@),
        )
    }
}

fn add_field(f: &mut Vec<(String, String)>, key: &str, value: &str)
    ensures
        form_view(final(f)@) == form_view(old(f)@).push((key@, value@)),
{
    let ghost before = form_view(f@);
    f.push((owned(key), owned(value)));
    assert(form_view(f@) =~= before.push((key@, value@)));
}

/// The text fields of the form of a request with references: by aspect ratio or by size.
pub fn form_fields(q: &ImageRequest, provider_prompt: &str, by_ratio: bool) -> (r: Vec<
    (String, String),
>)
    ensures
        form_view(r@) == form_fields_spec(*q, provider_prompt@, by_ratio),
{
    let mut f: Vec<(String, String)> = Vec::new();
    assert(form_view(f@) =~= Seq::<(Seq<char>, Seq<char>)>::empty());
    add_field(&mut f, "model", q.model.as_str());
    add_field(&mut f, "prompt", provider_prompt);
    add_field(&mut f, "n", decimal_u64(q.count as u64).as_str());
    if by_ratio {
        add_field(&mut f, "aspect_ratio", grok_aspect_ratio(q.selection.as_str()).as_str());
        add_field(&mut f, "resolution", grok_resolution(q.selection.as_str()).as_str());
    } else if !q.size.as_str().is_empty() {
        add_field(&mut f, "size", q.size.as_str());
    }
    if !q.quality.as_str().is_empty() {
        add_field(&mut f, "quality", q.quality.as_str());
    }
    if !by_ratio && !q.background.as_str().is_empty() && !same(q.background.as_str(), "auto") {
        add_field(&mut f, "background", q.background.as_str());
    }
    f
}

/// The text fields of the form of a request with references that is made again by size, where
/// an answer refuses the parameters of its model.
pub fn fallback_form(q: &ImageRequest, provider_prompt: &str, status: u16) -> (r: Option<
    Vec<(String, String)>,
>)
    ensures
        if refuses_contract(*q, status) {
            r matches Some(f) && form_view(f@) == form_fields_spec(*q, provider_prompt@, false)
        } else {
            r is None
        },
{
    if q.grok && is_contract_rejection(status) {
        Some(form_fields(q, provider_prompt, false))
    } else {
        None
    }
}

// ---------------------------------------------------------------------------
// References
// ---------------------------------------------------------------------------

/// A reference image as a caller names it; the weight is a decimal number.
#[derive(Debug)]
pub struct ReferenceInput {
    pub path: String,
    pub role: String,
    pub weight: Option<String>,
    pub sort_order: Option<i64>,
}

/// The limits on reference images.
#[derive(Debug, Clone, Copy)]
pub struct ReferenceLimits {
    pub max_count: usize,
    pub max_each_bytes: u64,
    pub max_total_bytes: u64,
}

/// The limits that hold for every request.
pub fn reference_limits() -> (r: ReferenceLimits)
    ensures
        r.max_count == MAX_REFERENCE_IMAGES,
        r.max_each_bytes == 20 * 1024 * 1024,
        r.max_total_bytes == 50 * 1024 * 1024,
{
    ReferenceLimits {
        max_count: MAX_REFERENCE_IMAGES,
        max_each_bytes: 20 * 1024 * 1024,
        max_total_bytes: 50 * 1024 * 1024,
    }
}

/// Fails unless a resolved path lies in the directory of the assets or of the output.
pub fn validate_reference_path(path: &Vec<String>, roots: &Vec<Option<Vec<String>>>) -> (r: Result<
    (),
    String,
>)
    ensures
        r is Ok <==> lies_under_any(texts_view(path@), roots@),
        r matches Err(e) ==> e@ == "参考图必须位于应用资产目录或输出目录"@,
{
    if path_in_roots(path, roots) {
        Ok(())
    } else {
        Err(owned("参考图必须位于应用资产目录或输出目录"))
    }
}

/// What the file system says of a reference image, each step with its own error: the resolved
/// path, whether it is a file and of how many bytes, and how many bytes were read and of
/// which image format they are.
#[derive(Debug)]
pub struct ReferenceFacts {
    pub canonical: Result<String, String>,
    pub metadata: Option<(bool, u64)>,
    pub content: Option<(u64, Option<String>)>,
}

/// A reference image that is accepted.
#[derive(Debug)]
pub struct ValidatedReference {
    pub kind: String,
    pub role: String,
    pub weight: String,
    pub sort_order: i64,
    pub input_order: usize,
}

/// What an accepted reference image says.
pub struct ReferenceView {
    pub kind: Seq<char>,
    pub role: Seq<char>,
    pub weight: Seq<char>,
    pub sort_order: int,
    pub input_order: int,
}

impl View for ValidatedReference {
    type V = ReferenceView;

    open spec fn view(&self) -> ReferenceView {
        ReferenceView {
            kind: self.kind@,
            role: self.role@,
            weight: self.weight@,
            sort_order: self.sort_order as int,
            input_order: self.input_order as int,
        }
    }
}

/// The views of a list of reference images.
pub open spec fn references_view(v: Seq<ValidatedReference>) -> Seq<ReferenceView> {
    v.map_values(|r: ValidatedReference| r@)
}

/// What a reference image can be used for.
pub open spec fn is_role(s: Seq<char>) -> bool {
    ||| s == "character_identity"@
    ||| s == "outfit"@
    ||| s == "style"@
    ||| s == "pose"@
    ||| s == "scene"@
    ||| s == "prop"@
    ||| s == "previous_panel"@
    ||| s == "base_image"@
    ||| s == "mask"@
}

fn known_role(s: &str) -> (r: bool)
    ensures
        r == is_role(s@),
{
    same(s, "character_identity") || same(s, "outfit") || same(s, "style") || same(s, "pose")
        || same(s, "scene") || same(s, "prop") || same(s, "previous_panel") || same(
        s,
        "base_image",
    ) || same(s, "mask")
}

/// The weight of a reference image; one where none is given.
pub open spec fn weight_text(input: ReferenceInput) -> Seq<char> {
    match input.weight {
        Some(w) => w@,
        None => "1"@,
    }
}

/// Whether the weight of a reference image is above zero and at most one.
pub open spec fn weight_holds(input: ReferenceInput) -> bool {
    match input.weight {
        Some(w) => match crate::json::number_bits(w@) {
            Some(bits) => in_unit(bits, false),
            None => false,
        },
        None => true,
    }
}

/// The place of a reference image; that in the list where none is given.
pub open spec fn place_of(input: ReferenceInput, order: int) -> int {
    match input.sort_order {
        Some(s) => s as int,
        None => order,
    }
}

/// A limit in the words of an error.
pub open spec fn limit_text(before: Seq<char>, bytes: nat, after: Seq<char>) -> Seq<char> {
    before + decimal(bytes / 1024 / 1024) + after
}

/// The bytes of the reference images accepted so far and the one at hand.
pub open spec fn total_bytes(facts: Seq<ReferenceFacts>, k: int) -> nat
    decreases k,
{
    if k <= 0 {
        0
    } else {
        total_bytes(facts, k - 1) + match facts[k - 1].content {
            Some(c) => c.0 as nat,
            None => 0,
        }
    }
}

/// The error for the reference image at a place of the list, where it has one, given that
/// those before it have none.
pub open spec fn reference_error(
    inputs: Seq<ReferenceInput>,
    facts: Seq<ReferenceFacts>,
    limits: ReferenceLimits,
    k: int,
) -> Option<Seq<char>> {
    if !is_role(trimmed(inputs[k].role@)) {
        Some("参考图 role 无效"@)
    } else if !weight_holds(inputs[k]) {
        Some("参考图 weight 必须在 0 到 1 之间"@)
    } else if place_of(inputs[k], k) < 0 {
        Some("参考图 sortOrder 必须为非负整数"@)
    } else {
        file_error(facts, limits, k)
    }
}

/// The error for the file of the reference image at a place of the list, where it has one.
pub open spec fn file_error(
    facts: Seq<ReferenceFacts>,
    limits: ReferenceLimits,
    k: int,
) -> Option<Seq<char>> {
    match facts[k].canonical {
        Err(e) => Some(e@),
        Ok(path) => if exists|j: int| 0 <= j < k && canonical_is(#[trigger] facts[j], path@) {
            Some("references 不允许重复引用同一文件"@)
        } else {
            match facts[k].metadata {
                None => Some("参考图文件不可访问"@),
                Some(m) => if !m.0 {
                    Some("参考图必须是普通文件"@)
                } else if m.1 > limits.max_each_bytes {
                    Some(limit_text("单张参考图不能超过 "@, limits.max_each_bytes as nat, " MiB"@))
                } else {
                    content_error(facts, limits, k)
                },
            }
        },
    }
}

/// Whether the resolved path of a reference image is a given one.
pub open spec fn canonical_is(f: ReferenceFacts, path: Seq<char>) -> bool {
    f.canonical matches Ok(p) && p@ == path
}

/// The error for the bytes of the reference image at a place of the list, where it has one.
pub open spec fn content_error(
    facts: Seq<ReferenceFacts>,
    limits: ReferenceLimits,
    k: int,
) -> Option<Seq<char>> {
    match facts[k].content {
        None => Some("读取参考图失败"@),
        Some(c) => if c.0 > limits.max_each_bytes {
            Some(limit_text("单张参考图不能超过 "@, limits.max_each_bytes as nat, " MiB"@))
        } else if total_bytes(facts, k + 1) > u64::MAX {
            Some("参考图总大小超过限制"@)
        } else if total_bytes(facts, k + 1) > limits.max_total_bytes {
            Some(limit_text("参考图总大小不能超过 "@, limits.max_total_bytes as nat, " MiB"@))
        } else if c.1 is None {
            Some("参考图格式不受支持或文件已损坏"@)
        } else {
            None
        },
    }
}

/// An accepted reference image.
pub open spec fn accepted(input: ReferenceInput, f: ReferenceFacts, k: int) -> ReferenceView {
    ReferenceView {
        kind: (f.content->0).1->0@,
        role: trimmed(input.role@),
        weight: weight_text(input),
        sort_order: place_of(input, k),
        input_order: k,
    }
}

/// Whether a reference image comes before another: by place, then by role, then in the order
/// of the list.
pub open spec fn comes_before(a: ReferenceView, b: ReferenceView) -> bool {
    ||| a.sort_order < b.sort_order
    ||| a.sort_order == b.sort_order && (precedes(a.role, b.role) || (a.role == b.role
        && a.input_order < b.input_order))
}

/// `comes_before` as a relation.
pub open spec fn reference_before() -> spec_fn(ReferenceView, ReferenceView) -> bool {
    |a: ReferenceView, b: ReferenceView| comes_before(a, b)
}

/// The first `k` reference images of a list as they are accepted.
pub open spec fn accepted_references(
    inputs: Seq<ReferenceInput>,
    facts: Seq<ReferenceFacts>,
    k: int,
) -> Seq<ReferenceView> {
    Seq::new(k as nat, |i: int| accepted(inputs[i], facts[i], i))
}

/// The first `k` reference images of a list, in order.
pub open spec fn ordered_references(
    inputs: Seq<ReferenceInput>,
    facts: Seq<ReferenceFacts>,
    k: int,
) -> Seq<ReferenceView> {
    sort_ordered(accepted_references(inputs, facts, k), reference_before())
}

/// The first error of a list of reference images, looking at the first `k`.
pub open spec fn first_reference_error(
    inputs: Seq<ReferenceInput>,
    facts: Seq<ReferenceFacts>,
    limits: ReferenceLimits,
    k: int,
) -> Option<Seq<char>>
    decreases k,
{
    if k <= 0 {
        None
    } else {
        match first_reference_error(inputs, facts, limits, k - 1) {
            Some(e) => Some(e),
            None => reference_error(inputs, facts, limits, k - 1),
        }
    }
}

proof fn lemma_first_error_stays(
    inputs: Seq<ReferenceInput>,
    facts: Seq<ReferenceFacts>,
    limits: ReferenceLimits,
    k: int,
    n: int,
)
    requires
        0 <= k <= n,
        first_reference_error(inputs, facts, limits, k) is Some,
    ensures
        first_reference_error(inputs, facts, limits, n) == first_reference_error(
            inputs,
            facts,
            limits,
            k,
        ),
    decreases n - k,
{
    if k < n {
        lemma_first_error_stays(inputs, facts, limits, k, n - 1);
    }
}

fn goes_before(a: &ValidatedReference, b: &ValidatedReference) -> (r: bool)
    ensures
        r == comes_before(a@, b@),
{
    a.sort_order < b.sort_order || (a.sort_order == b.sort_order && (text_precedes(
        a.role.as_str(),
        b.role.as_str(),
    ) || (same(a.role.as_str(), b.role.as_str()) && a.input_order < b.input_order)))
}

fn enter_reference(list: &mut Vec<ValidatedReference>, r: ValidatedReference)
    ensures
        references_view(final(list)@) == insert_ordered(
            references_view(old(list)@),
            r@,
            reference_before(),
        ),
{
    let ghost before = references_view(list@);
    let mut k: usize = list.len();
    while k > 0 && goes_before(&r, &list[k - 1])
        invariant
            k <= list.len(),
            before == references_view(list@),
            forall|i: int|
                k <= i < list.len() ==> reference_before()(r@, #[trigger] before[i]),
        decreases k,
    {
        k -= 1;
    }
    proof {
        if k > 0 {
            assert(before[k - 1] == list@[k - 1]@);
        }
        lemma_insert_ordered(before, r@, reference_before(), k as int);
    }
    list.insert(k, r);
    assert(references_view(list@) =~= before.insert(k as int, r@));
}

fn mib_text(before: &str, bytes: u64, after: &str) -> (r: String)
    ensures
        r@ == limit_text(before@, bytes as nat, after@),
{
    concat3(before, decimal_u64(bytes / 1024 / 1024).as_str(), after)
}

fn path_repeats(facts: &Vec<ReferenceFacts>, k: usize, path: &str) -> (r: bool)
    requires
        k <= facts.len(),
    ensures
        r == exists|j: int| 0 <= j < k && canonical_is(#[trigger] facts@[j], path@),
{
    let mut j: usize = 0;
    while j < k
        invariant
            j <= k <= facts.len(),
            forall|i: int| 0 <= i < j ==> !canonical_is(#[trigger] facts@[i], path@),
        decreases k - j,
    {
        match &facts[j].canonical {
            Ok(p) => if same(p.as_str(), path) {
                assert(canonical_is(facts@[j as int], path@));
                return true;
            },
            Err(_) => {},
        }
        j += 1;
    }
    false
}

fn check_file(facts: &Vec<ReferenceFacts>, limits: ReferenceLimits, k: usize, before: u64) -> (r:
    Result<u64, String>)
    requires
        k < facts.len(),
        before == total_bytes(facts@, k as int),
    ensures
        match file_error(facts@, limits, k as int) {
            Some(e) => r matches Err(f) && f@ == e,
            None => r matches Ok(total) && total == total_bytes(facts@, k + 1)
                && facts@[k as int].content is Some && (facts@[k as int].content->0).1 is Some,
        },
{
    let path = match &facts[k].canonical {
        Ok(path) => path,
        Err(e) => return Err(e.clone()),
    };
    if path_repeats(facts, k, path.as_str()) {
        return Err(owned("references 不允许重复引用同一文件"));
    }
    let (is_file, declared) = match facts[k].metadata {
        Some(m) => m,
        None => return Err(owned("参考图文件不可访问")),
    };
    if !is_file {
        return Err(owned("参考图必须是普通文件"));
    }
    if declared > limits.max_each_bytes {
        return Err(mib_text("单张参考图不能超过 ", limits.max_each_bytes, " MiB"));
    }
    match &facts[k].content {
        None => Err(owned("读取参考图失败")),
        Some(c) => {
            let size: u64 = c.0;
            if size > limits.max_each_bytes {
                return Err(mib_text("单张参考图不能超过 ", limits.max_each_bytes, " MiB"));
            }
            if size > 0xffff_ffff_ffff_ffff - before {
                return Err(owned("参考图总大小超过限制"));
            }
            let total: u64 = before + size;
            if total > limits.max_total_bytes {
                return Err(mib_text("参考图总大小不能超过 ", limits.max_total_bytes, " MiB"));
            }
            match &c.1 {
                Some(_) => Ok(total),
                None => Err(owned("参考图格式不受支持或文件已损坏")),
            }
        },
    }
}

fn weight_accepted(input: &ReferenceInput) -> (r: bool)
    ensures
        r == weight_holds(*input),
{
    match &input.weight {
        Some(w) => {
            let bits: Option<u64> = crate::json::parse_number_bits(w.as_str());
            match bits {
                Some(bits) => unit_accepts(bits, false),
                None => false,
            }
        },
        None => true,
    }
}

/// Checks reference images and puts them in order. Every image is checked in turn: its role,
/// weight and place, then its file, its size and its format; the first error counts.
pub fn validate_reference_inputs(
    inputs: &Vec<ReferenceInput>,
    facts: &Vec<ReferenceFacts>,
    limits: ReferenceLimits,
) -> (r: Result<Vec<ValidatedReference>, String>)
    requires
        facts.len() == inputs.len(),
        inputs.len() <= i64::MAX,
    ensures
        if inputs.len() > limits.max_count {
            r matches Err(e) && e@ == "参考图最多支持 "@ + decimal(limits.max_count as nat) + " 张"@
        } else {
            match first_reference_error(inputs@, facts@, limits, inputs.len() as int) {
                Some(e) => r matches Err(f) && f@ == e,
                None => r matches Ok(v) && references_view(v@) == ordered_references(
                    inputs@,
                    facts@,
                    inputs.len() as int,
                ),
            }
        },
{
    if inputs.len() > limits.max_count {
        return Err(
            concat3("参考图最多支持 ", decimal_u64(limits.max_count as u64).as_str(), " 张"),
        );
    }
    let ghost n = inputs.len() as int;
    let mut total: u64 = 0;
    let mut out: Vec<ValidatedReference> = Vec::new();
    let mut k: usize = 0;
    assert(references_view(out@) =~= ordered_references(inputs@, facts@, 0));
    while k < inputs.len()
        invariant
            k <= inputs.len(),
            n == inputs.len(),
            facts.len() == inputs.len(),
            inputs.len() <= i64::MAX,
            inputs.len() <= limits.max_count,
            total == total_bytes(facts@, k as int),
            first_reference_error(inputs@, facts@, limits, k as int) is None,
            references_view(out@) == ordered_references(inputs@, facts@, k as int),
        decreases inputs.len() - k,
    {
        let input = &inputs[k];
        let role = trim(input.role.as_str());
        proof {
            if reference_error(inputs@, facts@, limits, k as int) is Some {
                lemma_first_error_stays(inputs@, facts@, limits, k + 1, n);
            }
        }
        if !known_role(role.as_str()) {
            return Err(owned("参考图 role 无效"));
        }
        if !weight_accepted(input) {
            return Err(owned("参考图 weight 必须在 0 到 1 之间"));
        }
        let place: i64 = match input.sort_order {
            Some(s) => s,
            None => k as i64,
        };
        if place < 0 {
            return Err(owned("参考图 sortOrder 必须为非负整数"));
        }
        let checked: Result<u64, String> = check_file(facts, limits, k, total);
        match checked {
            Ok(t) => {
                total = t;
            },
            Err(e) => return Err(e),
        }
        let kind = match &facts[k].content {
            Some(c) => match &c.1 {
                Some(kind) => kind.clone(),
                None => String::new(),
            },
            None => String::new(),
        };
        let weight = match &input.weight {
            Some(w) => w.clone(),
            None => owned("1"),
        };
        let reference = ValidatedReference {
            kind,
            role,
            weight,
            sort_order: place,
            input_order: k,
        };
        proof {
            let next = accepted_references(inputs@, facts@, k + 1);
            assert(reference@ == accepted(inputs@[k as int], facts@[k as int], k as int));
            assert(next.drop_last() =~= accepted_references(inputs@, facts@, k as int));
            assert(next.last() == reference@);
        }
        enter_reference(&mut out, reference);
        k += 1;
    }
    Ok(out)
}

/// Reference images come out in order of place, then role, then the order of the list, the
/// same ones that went in.
pub proof fn references_come_out_in_order(
    inputs: Seq<ReferenceInput>,
    facts: Seq<ReferenceFacts>,
    k: int,
)
    requires
        0 <= k <= inputs.len(),
        facts.len() == inputs.len(),
    ensures
        is_ordered(ordered_references(inputs, facts, k), reference_before()),
        ordered_references(inputs, facts, k).to_multiset() == accepted_references(
            inputs,
            facts,
            k,
        ).to_multiset(),
        ordered_references(inputs, facts, k).len() == k,
{
    let before = reference_before();
    assert forall|x: ReferenceView, y: ReferenceView| #[trigger] before(x, y) implies !before(
        y,
        x,
    ) by {
        lemma_precedes_total(x.role, y.role);
    }
    assert forall|x: ReferenceView, y: ReferenceView, z: ReferenceView|
        #[trigger] before(x, y) && !(#[trigger] before(z, y)) implies before(x, z) by {
        lemma_precedes_total(x.role, y.role);
        lemma_precedes_total(z.role, y.role);
        lemma_precedes_total(x.role, z.role);
        if precedes(x.role, y.role) && precedes(y.role, z.role) {
            lemma_precedes_trans(x.role, y.role, z.role);
        }
    }
    sorting_orders(accepted_references(inputs, facts, k), before);
}

/// The reference images of a configuration: the list where it has any, else the one path of
/// older callers as the base image.
pub fn select_references(listed: Vec<ReferenceInput>, legacy_path: Option<&str>) -> (r: Vec<
    ReferenceInput,
>)
    ensures
        listed.len() > 0 ==> r@ == listed@,
        listed.len() == 0 ==> match legacy_path {
            Some(p) => if is_blank(p@) {
                r.len() == 0
            } else {
                r.len() == 1 && r@[0].path@ == trimmed(p@) && r@[0].role@ == "base_image"@
                    && opt_view(r@[0].weight) == Some("1"@) && r@[0].sort_order == Some(0i64)
            },
            None => r.len() == 0,
        },
{
    if listed.len() > 0 {
        return listed;
    }
    let mut out: Vec<ReferenceInput> = Vec::new();
    match legacy_path {
        Some(p) => match non_empty(p) {
            Some(path) => {
                out.push(
                    ReferenceInput {
                        path,
                        role: owned("base_image"),
                        weight: Some(owned("1")),
                        sort_order: Some(0),
                    },
                );
            },
            None => {},
        },
        None => {},
    }
    out
}

/// Whether the references of a configuration are to be read as a list: absent and null are no
/// list, and anything else than a list is an error.
pub fn references_listed(config: &Json) -> (r: Result<bool, String>)
    ensures
        match field(config@, "references"@) {
            None => r == Ok::<bool, String>(false),
            Some(JsonView::Null) => r == Ok::<bool, String>(false),
            Some(JsonView::Arr(_)) => r == Ok::<bool, String>(true),
            Some(_) => r matches Err(e) && e@ == "references 必须是参考图对象数组"@,
        },
{
    broadcast use {crate::json::lemma_arr_view, crate::json::lemma_obj_view};

    match config.get("references") {
        None => Ok(false),
        Some(Json::Null) => Ok(false),
        Some(Json::Arr(_)) => Ok(true),
        Some(_) => Err(owned("references 必须是参考图对象数组")),
    }
}

// ---------------------------------------------------------------------------
// What the prompt says of references
// ---------------------------------------------------------------------------

/// What is said of a tile in the prompt.
pub open spec fn tile_text(r: ReferenceView, i: int) -> Seq<char> {
    tile_line(r.role, fixed_three(r.weight), i)
}

/// What is said of a tile with a role and a written weight.
pub open spec fn tile_line(role: Seq<char>, weight: Seq<char>, i: int) -> Seq<char> {
    "tile "@ + decimal((i + 1) as nat) + " = "@ + role + " (weight "@ + weight + ")"@
}

/// Says what a tile is for; `weight` is its weight as it is written.
pub fn describe_tile(role: &str, weight: &str, i: usize) -> (t: String)
    requires
        i < usize::MAX,
    ensures
        t@ == tile_line(role@, weight@, i as int),
{
    let mut out = owned("tile ");
    out.append(decimal_u64((i + 1) as u64).as_str());
    out.append(" = ");
    out.append(role);
    out.append(" (weight ");
    out.append(weight);
    out.append(")");
    out
}

/// What is said of the first `k` tiles.
pub open spec fn tiles_text(refs: Seq<ReferenceView>, k: int) -> Seq<char>
    decreases k,
{
    if k <= 0 {
        Seq::empty()
    } else if k == 1 {
        tile_text(refs[0], 0)
    } else {
        tiles_text(refs, k - 1) + "; "@ + tile_text(refs[k - 1], k - 1)
    }
}

/// The prompt of a request with references: where there are several, it says what each tile of
/// the board is for.
pub open spec fn prompt_with_roles(prompt: Seq<char>, refs: Seq<ReferenceView>) -> Seq<char> {
    if refs.len() <= 1 {
        prompt
    } else {
        prompt + "\n\nReference board responsibility map: "@ + tiles_text(refs, refs.len() as int)
            + ". Use each tile only for its named responsibility; preserve identity and style consistency."@
    }
}

fn say_tile(r: &ValidatedReference, i: usize) -> (t: String)
    requires
        i < usize::MAX,
    ensures
        t@ == tile_text(r@, i as int),
{
    describe_tile(r.role.as_str(), write_fixed_three(r.weight.as_str()).as_str(), i)
}

/// Says in the prompt what each tile of the board is for.
pub fn prompt_with_reference_roles(prompt: &str, references: &Vec<ValidatedReference>) -> (r:
    String)
    ensures
        r@ == prompt_with_roles(prompt@, references_view(references@)),
{
    if references.len() <= 1 {
        return owned(prompt);
    }
    let ghost refs = references_view(references@);
    let mut mapping = say_tile(&references[0], 0);
    assert(refs[0] == references@[0]@);
    let mut k: usize = 1;
    while k < references.len()
        invariant
            1 <= k <= references.len(),
            refs == references_view(references@),
            mapping@ == tiles_text(refs, k as int),
        decreases references.len() - k,
    {
        assert(refs[k as int] == references@[k as int]@);
        mapping.append("; ");
        mapping.append(say_tile(&references[k], k).as_str());
        k += 1;
    }
    let mut out = owned(prompt);
    out.append("\n\nReference board responsibility map: ");
    out.append(mapping.as_str());
    out.append(
        ". Use each tile only for its named responsibility; preserve identity and style consistency.",
    );
    out
}

/// The media type of an uploaded reference.
pub fn upload_mime(kind: &str) -> (r: String)
    ensures
        r@ == if kind@ == "jpg"@ {
            "image/jpeg"@
        } else {
            "image/"@ + kind@
        },
{
    if same(kind, "jpg") {
        owned("image/jpeg")
    } else {
        concat2("image/", kind)
    }
}

// ---------------------------------------------------------------------------
// The answer of the service
// ---------------------------------------------------------------------------

/// Where the bytes of an image are.
#[derive(Debug)]
pub enum ImageSource {
    /// In the answer.
    Inline(Vec<u8>),
    /// At an address, to be downloaded without credentials.
    Download(String),
}

/// Whether a source is where an entry of an answer says the image is.
pub open spec fn is_source_of(s: ImageSource, entry: JsonView) -> bool {
    match text_at(entry, "b64_json"@) {
        Some(b64) => s matches ImageSource::Inline(bytes) && base64_decoded(b64) == Ok::<
            Seq<u8>,
            Seq<char>,
        >(bytes@),
        None => s matches ImageSource::Download(url) && text_at(entry, "url"@) == Some(url@),
    }
}

/// The error of an entry of an answer, where it has one.
pub open spec fn entry_error(entry: JsonView) -> Option<Seq<char>> {
    match text_at(entry, "b64_json"@) {
        Some(b64) => if b64.len() == 0 {
            Some("模型未返回图像数据（可能不支持该参数，如透明背景）"@)
        } else {
            match base64_decoded(b64) {
                Ok(_) => None,
                Err(e) => Some("base64 解码失败: "@ + e),
            }
        },
        None => if text_at(entry, "url"@) is Some {
            None
        } else {
            Some("图像响应中没有 b64_json 或 url"@)
        },
    }
}

/// An image in an answer, from what decoding its base64 text gave.
pub fn inline_image(decoded: Result<Vec<u8>, String>) -> (r: Result<ImageSource, String>)
    ensures
        match decoded {
            Ok(b) => r matches Ok(ImageSource::Inline(v)) && v@ == b@,
            Err(e) => r matches Err(f) && f@ == "base64 解码失败: "@ + e@,
        },
{
    match decoded {
        Ok(bytes) => Ok(ImageSource::Inline(bytes)),
        Err(e) => Err(concat2("base64 解码失败: ", e.as_str())),
    }
}

/// Reads one entry of an answer.
pub fn decode_image_entry(entry: &Json) -> (r: Result<ImageSource, String>)
    ensures
        match entry_error(entry@) {
            Some(e) => r matches Err(f) && f@ == e,
            None => r matches Ok(s) && is_source_of(s, entry@),
        },
{
    match entry.text_at("b64_json") {
        Some(b64) => {
            if b64.is_empty() {
                return Err(owned("模型未返回图像数据（可能不支持该参数，如透明背景）"));
            }
            inline_image(decode_base64(b64))
        },
        None => match entry.text_at("url") {
            Some(url) => Ok(ImageSource::Download(owned(url))),
            None => Err(owned("图像响应中没有 b64_json 或 url")),
        },
    }
}

/// The entries of an answer that are used: at most a batch.
pub open spec fn used_entries(answer: JsonView) -> Option<Seq<JsonView>> {
    match items_at(answer, "data"@) {
        Some(v) => if v.len() == 0 {
            None
        } else if v.len() > MAX_IMAGE_BATCH {
            Some(v.take(MAX_IMAGE_BATCH as int))
        } else {
            Some(v)
        },
        None => None,
    }
}

/// Finds the entries of an answer that are used.
pub fn response_entries(answer: &Json) -> (r: Result<Vec<Json>, String>)
    ensures
        match used_entries(answer@) {
            Some(v) => r matches Ok(out) && items_view(out@) == v,
            None => r matches Err(e) && e@ == "图像响应缺少 data"@,
        },
{
    let items = match answer.items_at("data") {
        Some(items) => items,
        None => return Err(owned("图像响应缺少 data")),
    };
    if items.len() == 0 {
        return Err(owned("图像响应缺少 data"));
    }
    let limit: usize = if items.len() > MAX_IMAGE_BATCH as usize {
        MAX_IMAGE_BATCH as usize
    } else {
        items.len()
    };
    let ghost views = items_view(items@);
    let mut out: Vec<Json> = Vec::new();
    let mut i: usize = 0;
    while i < limit
        invariant
            i <= limit <= items.len(),
            views == items_view(items@),
            out.len() == i,
            forall|j: int| 0 <= j < i ==> (#[trigger] out@[j])@ == views[j],
        decreases limit - i,
    {
        out.push(items[i].copy());
        i += 1;
    }
    assert(items_view(out@) =~= views.take(limit as int));
    assert(limit == views.len() ==> views.take(limit as int) =~= views);
    Ok(out)
}

/// The used entries of what was read from an answer, or why there are none.
pub open spec fn entries_read(read: Result<JsonView, Seq<char>>) -> Result<
    Seq<JsonView>,
    Seq<char>,
> {
    match read {
        Err(e) => Err("解析图像响应失败: "@ + e),
        Ok(answer) => match used_entries(answer) {
            Some(v) => Ok(v),
            None => Err("图像响应缺少 data"@),
        },
    }
}

/// Finds the used entries in what was read from the bytes of an answer.
pub fn entries_of_answer(read: Result<Json, String>) -> (r: Result<Vec<Json>, String>)
    ensures
        match entries_read(result_view(read)) {
            Ok(v) => r matches Ok(out) && items_view(out@) == v,
            Err(e) => r matches Err(f) && f@ == e,
        },
{
    match read {
        Ok(answer) => response_entries(&answer),
        Err(e) => Err(concat2("解析图像响应失败: ", e.as_str())),
    }
}

/// Finds the used entries in the bytes of an answer.
pub fn answer_entries(body: &Vec<u8>) -> (r: Result<Vec<Json>, String>)
    ensures
        match entries_read(json_read(body@)) {
            Ok(v) => r matches Ok(out) && items_view(out@) == v,
            Err(e) => r matches Err(f) && f@ == e,
        },
{
    entries_of_answer(parse_bytes(body))
}

/// Whether the format of every returned image is known.
pub open spec fn all_known(formats: Seq<Option<String>>) -> bool {
    forall|i: int| 0 <= i < formats.len() ==> (#[trigger] formats[i]) is Some
}

/// The formats of the returned images, where there is an image and every one is of a known
/// format.
pub open spec fn known_formats(formats: Seq<Option<String>>) -> Result<Seq<Seq<char>>, Seq<char>> {
    if formats.len() == 0 {
        Err("模型未返回图像数据"@)
    } else if !all_known(formats) {
        Err("图像接口返回的内容不是支持的图片格式"@)
    } else {
        Ok(formats.map_values(|f: Option<String>| f->0@))
    }
}

/// The formats of the returned images. There must be an image, and every image must be of a
/// known format; else none of them is saved.
pub fn returned_formats(formats: &Vec<Option<String>>) -> (r: Result<Vec<String>, String>)
    ensures
        match known_formats(formats@) {
            Ok(v) => r matches Ok(out) && texts_view(out@) == v,
            Err(e) => r matches Err(f) && f@ == e,
        },
{
    if formats.len() == 0 {
        return Err(owned("模型未返回图像数据"));
    }
    let mut out: Vec<String> = Vec::new();
    let mut i: usize = 0;
    while i < formats.len()
        invariant
            i <= formats.len(),
            formats.len() > 0,
            out.len() == i,
            forall|j: int|
                0 <= j < i ==> (#[trigger] formats@[j]) is Some && out@[j]@ == formats@[j]->0@,
        decreases formats.len() - i,
    {
        match &formats[i] {
            Some(format) => out.push(format.clone()),
            None => {
                assert(!(formats@[i as int] is Some));
                return Err(owned("图像接口返回的内容不是支持的图片格式"));
            },
        }
        i += 1;
    }
    assert(texts_view(out@) =~= formats@.map_values(|f: Option<String>| f->0@));
    Ok(out)
}

/// What is said of an answer that tells a failure: its status and the beginning of its text.
pub open spec fn failure_text(status: Seq<char>, body: Seq<char>) -> Seq<char> {
    "图像接口返回 "@ + status + ": "@ + if body.len() > 400 {
        body.subrange(0, 400)
    } else {
        body
    }
}

/// The error for an answer that tells a failure, from its bytes.
pub fn upstream_error(status: &str, body: &Vec<u8>) -> (r: String)
    ensures
        r@ == failure_text(status@, utf8_lossy(body@)),
{
    upstream_text(status, read_utf8_lossy(body).as_str())
}

/// The error for an answer that tells a failure, from its text.
pub fn upstream_text(status: &str, body: &str) -> (r: String)
    ensures
        r@ == failure_text(status@, body@),
{
    let cs = chars_of(body);
    let mut out = owned("图像接口返回 ");
    out.append(status);
    out.append(": ");
    if cs.len() > 400 {
        out.append(string_between(&cs, 0, 400).as_str());
    } else {
        out.append(body);
    }
    out
}

/// Checks the size of what is read against a limit.
pub fn check_limit(length: u64, limit: u64, label: &str) -> (r: Result<(), String>)
    ensures
        r is Ok <==> length <= limit,
        r matches Err(e) ==> e@ == label@ + "超过大小限制（"@ + decimal(
            (limit / 1024 / 1024) as nat,
        ) + " MiB）"@,
{
    if length <= limit {
        return Ok(());
    }
    let mut out = owned(label);
    out.append("超过大小限制（");
    out.append(decimal_u64(limit / 1024 / 1024).as_str());
    out.append(" MiB）");
    Err(out)
}

} // verus!
