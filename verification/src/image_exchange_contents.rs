//! What goes out to the image service for a node, and what comes back.
use crate::gateway::{
    aspect_ratio, body_by_size, entries_read, entry_error, form_fields_spec, grok_body,
    image_refusal, is_grok, is_name_separator, is_ratio_label, is_request_of, is_segment,
    is_source_of, is_vendor_segment, known_formats, pixels_part, prompt_with_roles, ratio_label,
    references_view, resolution, selected_base, selected_pixels, selection_note, sent_background,
    tile_text, tiles_text, ImageRequest, ImageSource, ReferenceView, ValidatedReference,
};
use crate::image_exchange::{
    exchange_course, exchanged, fresh_exchange, takes_entries, with_payload, ExchangeView,
    ImageActionView, ImageEvent, PostContentView,
};
use crate::json::{field, int_at, items_at, json_read, lemma_lookup_push, text_at, JsonView};
use crate::outside::{base64_decoded, fixed_three};
use crate::text::{
    decimal, decimal_reads_back, is_blank, is_digit, lemma_before_absent, lemma_parse_digits,
    lemma_split_once, lemma_trimmed_fixed, lowered, occurs_at, occurs_in, split_once_at, trimmed,
};
use vstd::prelude::*;

verus! {

// ---------------------------------------------------------------------------
// What goes out
// ---------------------------------------------------------------------------

/// Whether a form has a field of a name, and it holds this value and no other.
pub open spec fn form_says(
    form: Seq<(Seq<char>, Seq<char>)>,
    name: Seq<char>,
    value: Seq<char>,
) -> bool {
    &&& form.contains((name, value))
    &&& forall|i: int| 0 <= i < form.len() && (#[trigger] form[i]).0 == name ==> form[i].1 == value
}

/// Whether a form has no field of a name.
pub open spec fn form_omits(form: Seq<(Seq<char>, Seq<char>)>, name: Seq<char>) -> bool {
    forall|i: int| 0 <= i < form.len() ==> (#[trigger] form[i]).0 != name
}

/// Whether what is sent says a text under a name.
pub open spec fn content_says(content: PostContentView, name: Seq<char>, value: Seq<char>) -> bool {
    match content {
        PostContentView::Body(body) => text_at(body, name) == Some(value),
        PostContentView::Form(form) => form_says(form, name, value),
    }
}

/// Whether what is sent says nothing under a name.
pub open spec fn content_omits(content: PostContentView, name: Seq<char>) -> bool {
    match content {
        PostContentView::Body(body) => field(body, name) is None,
        PostContentView::Form(form) => form_omits(form, name),
    }
}

/// Whether what is sent says a text under a name where there is one, and else nothing.
pub open spec fn content_says_any(
    content: PostContentView,
    name: Seq<char>,
    value: Seq<char>,
) -> bool {
    if value.len() > 0 {
        content_says(content, name, value)
    } else {
        content_omits(content, name)
    }
}

/// Whether what is sent asks for a number of images.
pub open spec fn content_counts(content: PostContentView, count: int) -> bool {
    match content {
        PostContentView::Body(body) => int_at(body, "n"@) == Some(count),
        PostContentView::Form(form) => form_says(form, "n"@, decimal(count as nat)),
    }
}

/// Whether a text stands in another.
pub open spec fn stands_in(part: Seq<char>, whole: Seq<char>) -> bool {
    exists|i: int| stands_at(part, whole, i)
}

/// Whether a text stands in another at a place.
pub open spec fn stands_at(part: Seq<char>, whole: Seq<char>, i: int) -> bool {
    0 <= i && i + part.len() <= whole.len() && whole.subrange(i, i + part.len()) == part
}

/// Whether a prompt for several references says what a tile of their board is for.
pub open spec fn says_tile(prompt: Seq<char>, r: ReferenceView, i: int) -> bool {
    stands_in(
        "tile "@ + decimal((i + 1) as nat) + " = "@ + r.role + " (weight "@ + fixed_three(r.weight)
            + ")"@,
        prompt,
    )
}

/// Whether a prompt is that of a node with its references: the node's own where there is at
/// most one reference, else the node's own followed by the map of their tiles.
pub open spec fn is_prompt_with(
    prompt: Seq<char>,
    own: Seq<char>,
    references: Seq<ValidatedReference>,
) -> bool {
    if references.len() <= 1 {
        prompt == own
    } else {
        &&& own.len() <= prompt.len()
        &&& prompt.subrange(0, own.len() as int) == own
        &&& forall|i: int|
            0 <= i < references.len() ==> says_tile(prompt, #[trigger] references[i]@, i)
    }
}

/// Whether what is sent asks by size, as a configuration says.
pub open spec fn asks_by_size(content: PostContentView, request: ImageRequest) -> bool {
    &&& content_says_any(content, "size"@, request.size@)
    &&& content_says_any(content, "quality"@, request.quality@)
    &&& content_says_any(
        content,
        "background"@,
        if request.background@ == "auto"@ {
            Seq::empty()
        } else {
            request.background@
        },
    )
    &&& content_omits(content, "aspect_ratio"@)
    &&& content_omits(content, "resolution"@)
}

/// Whether what is sent asks by aspect ratio.
pub open spec fn asks_by_ratio(content: PostContentView, request: ImageRequest) -> bool {
    &&& content_says(content, "aspect_ratio"@, aspect_ratio(request.selection@))
    &&& content_says(content, "resolution"@, resolution(request.selection@))
    &&& content_omits(content, "size"@)
    &&& content_omits(content, "background"@)
    &&& content is Body ==> content_says(content, "response_format"@, "b64_json"@)
    &&& content is Body ==> if request.quality@ == "low"@ || request.quality@ == "medium"@
        || request.quality@ == "high"@ {
        content_says(content, "quality"@, request.quality@)
    } else {
        content_omits(content, "quality"@)
    }
    &&& content is Form ==> content_says_any(content, "quality"@, request.quality@)
}

proof fn lemma_form_names()
    ensures
        "model"@ != "prompt"@,
        "model"@ != "n"@,
        "prompt"@ != "n"@,
        "aspect_ratio"@ != "model"@,
        "aspect_ratio"@ != "prompt"@,
        "aspect_ratio"@ != "n"@,
        "resolution"@ != "model"@,
        "resolution"@ != "prompt"@,
        "resolution"@ != "n"@,
        "resolution"@ != "aspect_ratio"@,
        "quality"@ != "model"@,
        "quality"@ != "prompt"@,
        "quality"@ != "n"@,
        "quality"@ != "aspect_ratio"@,
        "quality"@ != "resolution"@,
        "size"@ != "model"@,
        "size"@ != "prompt"@,
        "size"@ != "n"@,
        "size"@ != "quality"@,
        "size"@ != "aspect_ratio"@,
        "size"@ != "resolution"@,
        "background"@ != "model"@,
        "background"@ != "prompt"@,
        "background"@ != "n"@,
        "background"@ != "quality"@,
        "background"@ != "size"@,
        "background"@ != "aspect_ratio"@,
        "background"@ != "resolution"@,
        "response_format"@ != "model"@,
        "response_format"@ != "prompt"@,
        "response_format"@ != "n"@,
        "response_format"@ != "aspect_ratio"@,
        "response_format"@ != "resolution"@,
        "response_format"@ != "size"@,
        "response_format"@ != "background"@,
        "response_format"@ != "quality"@,
{
    reveal_strlit("model");
    reveal_strlit("prompt");
    reveal_strlit("n");
    reveal_strlit("aspect_ratio");
    reveal_strlit("resolution");
    reveal_strlit("quality");
    reveal_strlit("size");
    reveal_strlit("background");
    reveal_strlit("response_format");
    assert("n"@.len() == 1);
    assert("size"@.len() == 4);
    assert("model"@.len() == 5);
    assert("prompt"@.len() == 6);
    assert("quality"@.len() == 7);
    assert("resolution"@.len() == 10);
    assert("background"@.len() == 10);
    assert("resolution"@[0] == 'r');
    assert("background"@[0] == 'b');
    assert("aspect_ratio"@.len() == 12);
    assert("response_format"@.len() == 15);
}

/// What the pairs of a form say, where every name stands once.
proof fn lemma_distinct_form(form: Seq<(Seq<char>, Seq<char>)>, k: int)
    requires
        0 <= k < form.len(),
        forall|i: int, j: int|
            0 <= i < j < form.len() ==> (#[trigger] form[i]).0 != (#[trigger] form[j]).0,
    ensures
        form_says(form, form[k].0, form[k].1),
{
    assert(form[k] == (form[k].0, form[k].1));
    assert forall|i: int| 0 <= i < form.len() && (#[trigger] form[i]).0 == form[k].0 implies form[i].1
        == form[k].1 by {
        if i < k {
            assert(form[i].0 != form[k].0);
        } else if k < i {
            assert(form[k].0 != form[i].0);
        }
    }
}

proof fn lemma_form_by_ratio(q: ImageRequest, prompt: Seq<char>)
    ensures
        ({
            let c = PostContentView::Form(form_fields_spec(q, prompt, true));
            &&& content_says(c, "model"@, q.model@)
            &&& content_says(c, "prompt"@, prompt)
            &&& content_counts(c, q.count as int)
            &&& asks_by_ratio(c, q)
        }),
{
    lemma_form_names();
    let f = form_fields_spec(q, prompt, true);
    assert forall|i: int, j: int| 0 <= i < j < f.len() implies (#[trigger] f[i]).0 != (
    #[trigger] f[j]).0 by {}
    lemma_distinct_form(f, 0);
    lemma_distinct_form(f, 1);
    lemma_distinct_form(f, 2);
    lemma_distinct_form(f, 3);
    lemma_distinct_form(f, 4);
    if q.quality@.len() > 0 {
        lemma_distinct_form(f, 5);
    }
}

proof fn lemma_form_by_size(q: ImageRequest, prompt: Seq<char>)
    ensures
        ({
            let c = PostContentView::Form(form_fields_spec(q, prompt, false));
            &&& content_says(c, "model"@, q.model@)
            &&& content_says(c, "prompt"@, prompt)
            &&& content_counts(c, q.count as int)
            &&& asks_by_size(c, q)
        }),
{
    lemma_form_names();
    let f = form_fields_spec(q, prompt, false);
    assert forall|i: int, j: int| 0 <= i < j < f.len() implies (#[trigger] f[i]).0 != (
    #[trigger] f[j]).0 by {}
    lemma_distinct_form(f, 0);
    lemma_distinct_form(f, 1);
    lemma_distinct_form(f, 2);
    let with_size = if q.size@.len() > 0 {
        1int
    } else {
        0
    };
    let with_quality = if q.quality@.len() > 0 {
        1int
    } else {
        0
    };
    if q.size@.len() > 0 {
        assert(f[3] == ("size"@, q.size@));
        lemma_distinct_form(f, 3);
    }
    if q.quality@.len() > 0 {
        assert(f[3 + with_size] == ("quality"@, q.quality@));
        lemma_distinct_form(f, 3 + with_size);
    }
    let background = sent_background(q.background@);
    if background.len() > 0 {
        assert(f[3 + with_size + with_quality] == ("background"@, background));
        lemma_distinct_form(f, 3 + with_size + with_quality);
    }
}

proof fn lemma_body_by_size(q: ImageRequest)
    ensures
        ({
            let c = PostContentView::Body(body_by_size(q));
            &&& content_says(c, "model"@, q.model@)
            &&& content_says(c, "prompt"@, q.prompt@)
            &&& content_counts(c, q.count as int)
            &&& asks_by_size(c, q)
        }),
{
    broadcast use lemma_lookup_push;

    lemma_form_names();
}

proof fn lemma_body_by_ratio(q: ImageRequest)
    ensures
        ({
            let c = PostContentView::Body(
                grok_body(q.model@, q.prompt@, q.selection@, q.quality@, q.count as int),
            );
            &&& content_says(c, "model"@, q.model@)
            &&& content_says(c, "prompt"@, q.prompt@)
            &&& content_counts(c, q.count as int)
            &&& asks_by_ratio(c, q)
        }),
{
    broadcast use lemma_lookup_push;

    lemma_form_names();
}

proof fn lemma_stands_in_more(part: Seq<char>, a: Seq<char>, whole: Seq<char>, b: Seq<char>)
    requires
        stands_in(part, whole),
    ensures
        stands_in(part, a + whole + b),
{
    let i = choose|i: int| stands_at(part, whole, i);
    let longer = a + whole + b;
    let at = a.len() + i;
    assert(longer.subrange(at, at + part.len()) =~= whole.subrange(i, i + part.len()));
    assert(stands_at(part, longer, at));
}

proof fn lemma_tiles(refs: Seq<ReferenceView>, k: int, i: int)
    requires
        0 <= i < k <= refs.len(),
    ensures
        says_tile(tiles_text(refs, k), refs[i], i),
    decreases k,
{
    let line = tile_text(refs[i], i);
    if k == 1 {
        assert(line.subrange(0, line.len() as int) =~= line);
        assert(stands_at(line, tiles_text(refs, k), 0));
    } else if i < k - 1 {
        lemma_tiles(refs, k - 1, i);
        let before = tiles_text(refs, k - 1);
        let rest = "; "@ + tile_text(refs[k - 1], k - 1);
        lemma_stands_in_more(line, Seq::empty(), before, rest);
        assert(Seq::<char>::empty() + before + rest =~= tiles_text(refs, k));
    } else {
        let before = tiles_text(refs, k - 1) + "; "@;
        assert(line.subrange(0, line.len() as int) =~= line);
        assert(stands_at(line, line, 0));
        lemma_stands_in_more(line, before, line, Seq::empty());
        assert(before + line + Seq::<char>::empty() =~= tiles_text(refs, k));
    }
}

proof fn lemma_prompt(own: Seq<char>, references: Seq<ValidatedReference>)
    ensures
        is_prompt_with(prompt_with_roles(own, references_view(references)), own, references),
{
    let refs = references_view(references);
    if references.len() > 1 {
        let head = "\n\nReference board responsibility map: "@;
        let tail = ". Use each tile only for its named responsibility; preserve identity and style consistency."@;
        let tiles = tiles_text(refs, refs.len() as int);
        let prompt = prompt_with_roles(own, refs);
        assert(prompt =~= own + head + tiles + tail);
        assert(prompt.subrange(0, own.len() as int) =~= own);
        assert forall|i: int| 0 <= i < references.len() implies says_tile(
            prompt,
            #[trigger] references[i]@,
            i,
        ) by {
            assert(refs[i] == references[i]@);
            lemma_tiles(refs, refs.len() as int, i);
            lemma_stands_in_more(tile_text(refs[i], i), own + head, tiles, tail);
            assert((own + head) + tiles + tail =~= prompt);
        }
    }
}

proof fn lemma_entries_keep_request(x: ExchangeView)
    ensures
        ({
            let (y, action) = takes_entries(x);
            &&& y.posts == x.posts && y.request == x.request && y.prompt == x.prompt
            &&& y.by_form == x.by_form && y.url == x.url && y.key == x.key
            &&& !(action is Post)
        }),
    decreases x.entries.len() - x.taken,
{
    if 0 <= x.taken < x.entries.len() {
        let entry = x.entries[x.taken];
        if entry_error(entry) is None && text_at(entry, "b64_json"@) is Some {
            lemma_entries_keep_request(
                with_payload(x, base64_decoded(text_at(entry, "b64_json"@)->0)->Ok_0),
            );
        }
    }
}

proof fn lemma_step_keeps_request(x: ExchangeView, event: ImageEvent)
    ensures
        ({
            let y = exchanged(x, event).0;
            y.request == x.request && y.prompt == x.prompt && y.by_form == x.by_form && y.url
                == x.url && y.key == x.key
        }),
        exchanged(x, event).1 is Post ==> event is Begin || event is Sent,
{
    match event {
        ImageEvent::AnswerRead(Ok(body)) => {
            if entries_read(json_read(body@)) is Ok {
                lemma_entries_keep_request(
                    ExchangeView {
                        entries: entries_read(json_read(body@))->Ok_0,
                        taken: 0,
                        payloads: Seq::empty(),
                        ..x
                    },
                );
            }
        },
        ImageEvent::Downloaded(Ok(bytes)) => {
            lemma_entries_keep_request(with_payload(x, bytes@));
        },
        _ => {},
    }
}

proof fn lemma_course_keeps_request(start: ExchangeView, events: Seq<ImageEvent>)
    ensures
        ({
            let x = exchange_course(start, events).0;
            x.request == start.request && x.prompt == start.prompt && x.by_form == start.by_form
                && x.url == start.url && x.key == start.key
        }),
    decreases events.len(),
{
    if events.len() > 0 {
        lemma_course_keeps_request(start, events.drop_last());
        lemma_step_keeps_request(
            exchange_course(start, events.drop_last()).0,
            events.last(),
        );
    }
}

/// Whether what is sent is what a node asks for: its prompt, with the map of its references
/// where there are several, under its model or else the configured one, and as many images as
/// it asks for, at least one and at most four. References make it a form, and without them it is
/// a body.
pub open spec fn content_is_asked_for(
    content: PostContentView,
    config: JsonView,
    configured: Seq<char>,
    references: Seq<ValidatedReference>,
    prompt: Seq<char>,
) -> bool {
    &&& text_at(config, "prompt"@) is Some
    &&& is_prompt_with(prompt, text_at(config, "prompt"@)->0, references)
    &&& content_says(content, "prompt"@, prompt)
    &&& content_says(
        content,
        "model"@,
        match text_at(config, "model"@) {
            Some(model) => model,
            None => configured,
        },
    )
    &&& content is Form <==> references.len() > 0
    &&& content_counts(
        content,
        match int_at(config, "n"@) {
            Some(n) => if n > u32::MAX || n < 1 {
                1
            } else if n > 4 {
                4
            } else {
                n
            },
            None => 1,
        },
    )
}

/// Every request that goes out for a node carries the node's own prompt and model, whatever has
/// happened before, by aspect ratio as well as by size, in a form as well as in a body. The
/// first one goes by ratio just where the model is of that kind, and any later one goes by size.
/// All go to the one address of the exchange, under its key.
pub proof fn exchange_sends_what_the_node_asks(
    api_url: Seq<char>,
    key: Seq<char>,
    config: JsonView,
    configured: Seq<char>,
    request: ImageRequest,
    references: Seq<ValidatedReference>,
    events: Seq<ImageEvent>,
    event: ImageEvent,
) -> (prompt: Seq<char>)
    requires
        is_request_of(request, config, configured),
        fresh_exchange(api_url, key, request, references) is Ok,
        ({
            let x = exchange_course(
                fresh_exchange(api_url, key, request, references)->Ok_0,
                events,
            ).0;
            exchanged(x, event).1 is Post
        }),
    ensures
        ({
            let start = fresh_exchange(api_url, key, request, references)->Ok_0;
            let x = exchange_course(start, events).0;
            match exchanged(x, event).1 {
                ImageActionView::Post { url, key: sent_key, content } => {
                    &&& content_is_asked_for(content, config, configured, references, prompt)
                    &&& sent_key == key
                    &&& references.len() == 0 ==> url == api_url
                    &&& if event is Begin && is_grok(request.model@) {
                        asks_by_ratio(content, request)
                    } else {
                        asks_by_size(content, request)
                    }
                },
                _ => false,
            }
        }),
{
    let start = fresh_exchange(api_url, key, request, references)->Ok_0;
    let x = exchange_course(start, events).0;
    lemma_course_keeps_request(start, events);
    lemma_step_keeps_request(x, event);
    lemma_form_by_ratio(request, x.prompt);
    lemma_form_by_size(request, x.prompt);
    lemma_body_by_size(request);
    lemma_body_by_ratio(request);
    lemma_prompt(request.prompt@, references);
    x.prompt
}

// ---------------------------------------------------------------------------
// Sizes
// ---------------------------------------------------------------------------

proof fn lemma_pixels(width: nat, height: nat)
    requires
        width <= u32::MAX,
        height <= u32::MAX,
    ensures
        ({
            let s = decimal(width) + "x"@ + decimal(height);
            &&& !is_blank(s)
            &&& pixels_part(s) == s
            &&& selected_pixels(s) == if width > 0 && height > 0 {
                Some((width, height))
            } else {
                None
            }
            &&& selection_note(s) is None
            &&& s.len() > 0
            &&& forall|i: int| 0 <= i < s.len() ==> is_digit(#[trigger] s[i]) || s[i] == 'x'
        }),
{
    let w = decimal(width);
    let h = decimal(height);
    reveal_strlit("x");
    assert("x"@ =~= seq!['x']);
    let out = w + seq!['x'] + h;
    decimal_reads_back(width);
    decimal_reads_back(height);
    assert forall|i: int| 0 <= i < out.len() implies is_digit(#[trigger] out[i]) || out[i] == 'x' by {
        if i < w.len() {
            assert(out[i] == w[i]);
        } else if i > w.len() {
            assert(out[i] == h[i - w.len() - 1]);
        }
    }
    assert(out[0] == w[0] && out.last() == h.last());
    assert(is_digit(w[0]) && is_digit(h[h.len() - 1]));
    assert forall|i: int| 0 <= i < out.len() implies #[trigger] out[i] != '(' by {
        assert(is_digit(out[i]) || out[i] == 'x');
    }
    lemma_before_absent(out, '(');
    lemma_trimmed_fixed(out);
    assert(out[w.len() as int] == 'x');
    assert(out.contains('x'));
    assert(selected_base(out) =~= out) by {
        assert forall|i: int| 0 <= i < out.len() implies selected_base(out)[i] == out[i] by {
            assert(is_digit(out[i]) || out[i] == 'x');
        }
    }
    assert forall|i: int| 0 <= i < w.len() implies #[trigger] w[i] != 'x' by {
        assert(is_digit(w[i]));
    }
    lemma_split_once(w, 'x', h);
    assert(is_digit(w[w.len() - 1]) && is_digit(h[0]));
    lemma_trimmed_fixed(w);
    lemma_trimmed_fixed(h);
    lemma_parse_digits(w, u32::MAX as nat);
    lemma_parse_digits(h, u32::MAX as nat);
    assert(split_once_at(out, '(') is None) by {
        crate::text::lemma_first_index(out, '(', out.len() as int);
    }
}

/// A node that names no size asks for pixels by its width and height, each 1024 where it is
/// not given, and is sent with just these pixels.
pub proof fn size_comes_from_width_and_height(
    request: ImageRequest,
    config: JsonView,
    configured: Seq<char>,
    width: nat,
    height: nat,
)
    requires
        is_request_of(request, config, configured),
        text_at(config, "size"@) is None || is_blank(text_at(config, "size"@)->0),
        width <= u32::MAX,
        height <= u32::MAX,
        int_at(config, "width"@) == Some(width as int) || (field(config, "width"@) is None && width
            == 1024),
        int_at(config, "height"@) == Some(height as int) || (field(config, "height"@) is None
            && height == 1024),
    ensures
        request.size@ == decimal(width) + "x"@ + decimal(height),
        request.selection@ == request.size@,
{
    lemma_pixels(width, height);
}

/// A node that names pixels as its size is sent with just these pixels.
pub proof fn size_is_sent_as_named(
    request: ImageRequest,
    config: JsonView,
    configured: Seq<char>,
    width: nat,
    height: nat,
)
    requires
        is_request_of(request, config, configured),
        width <= u32::MAX,
        height <= u32::MAX,
        text_at(config, "size"@) == Some(decimal(width) + "x"@ + decimal(height)),
    ensures
        Some(request.size@) == text_at(config, "size"@),
        Some(request.selection@) == text_at(config, "size"@),
{
    lemma_pixels(width, height);
}

/// A picture whose sides stand in one of the known ratios is asked for in that ratio; and any
/// picture is asked for in one of them.
pub proof fn exact_ratio_is_asked_for(width: nat, height: nat)
    requires
        0 < width <= u32::MAX,
        0 < height <= u32::MAX,
    ensures
        ({
            let asked = aspect_ratio(decimal(width) + "x"@ + decimal(height));
            &&& width * 20 == height * 9 ==> asked == "9:20"@
            &&& width * 39 == height * 18 ==> asked == "9:19.5"@
            &&& width * 2 == height ==> asked == "1:2"@
            &&& width * 16 == height * 9 ==> asked == "9:16"@
            &&& width * 3 == height * 2 ==> asked == "2:3"@
            &&& width * 4 == height * 3 ==> asked == "3:4"@
            &&& width == height ==> asked == "1:1"@
            &&& width * 3 == height * 4 ==> asked == "4:3"@
            &&& width * 2 == height * 3 ==> asked == "3:2"@
            &&& width * 9 == height * 16 ==> asked == "16:9"@
            &&& width == height * 2 ==> asked == "2:1"@
            &&& width * 18 == height * 39 ==> asked == "19.5:9"@
            &&& width * 9 == height * 20 ==> asked == "20:9"@
        }),
{
    lemma_pixels(width, height);
}

/// A picture is asked for in the higher resolution just where one of its sides has two thousand
/// pixels or more.
pub proof fn resolution_goes_by_the_longer_side(width: nat, height: nat)
    requires
        0 < width <= u32::MAX,
        0 < height <= u32::MAX,
    ensures
        resolution(decimal(width) + "x"@ + decimal(height)) == if width >= 2000 || height >= 2000 {
            "2k"@
        } else {
            "1k"@
        },
{
    lemma_pixels(width, height);
    let s = decimal(width) + "x"@ + decimal(height);
    let low = lowered(s);
    reveal_strlit("2k");
    reveal_strlit("4k");
    reveal_strlit("8k");
    assert forall|i: int| 0 <= i < low.len() implies #[trigger] low[i] != 'k' by {
        assert(is_digit(s[i]) || s[i] == 'x');
    }
    lemma_no_mark(low, "2k"@);
    lemma_no_mark(low, "4k"@);
    lemma_no_mark(low, "8k"@);
}

proof fn lemma_no_mark(s: Seq<char>, mark: Seq<char>)
    requires
        mark.len() == 2,
        mark[1] == 'k',
        forall|i: int| 0 <= i < s.len() ==> #[trigger] s[i] != 'k',
    ensures
        !occurs_in(s, mark),
{
    if occurs_in(s, mark) {
        let at = choose|at: int| occurs_at(s, mark, at);
        assert(s.subrange(at, at + 2)[1] == s[at + 1]);
    }
}

// ---------------------------------------------------------------------------
// What comes back
// ---------------------------------------------------------------------------

/// Whether an image is the one that an entry of an answer holds.
pub open spec fn image_is_of(image: Seq<u8>, entry: JsonView) -> bool {
    &&& text_at(entry, "b64_json"@) is Some
    &&& text_at(entry, "b64_json"@)->0.len() > 0
    &&& base64_decoded(text_at(entry, "b64_json"@)->0) == Ok::<Seq<u8>, Seq<char>>(image)
}

/// The images of an answer are taken in its order, entry by entry, and none is left out: those
/// that it holds are decoded, the next one that is elsewhere is fetched from the address that
/// the entry names, and an entry with neither ends the exchange.
pub proof fn images_are_taken_in_order(x: ExchangeView)
    requires
        0 <= x.taken <= x.entries.len(),
    ensures
        ({
            let (y, action) = takes_entries(x);
            &&& y.entries == x.entries
            &&& x.taken <= y.taken <= y.entries.len()
            &&& y.payloads.len() - x.payloads.len() == y.taken - x.taken
            &&& y.payloads.take(x.payloads.len() as int) == x.payloads
            &&& forall|i: int|
                x.taken <= i < y.taken ==> image_is_of(
                    y.payloads[x.payloads.len() + i - x.taken],
                    #[trigger] x.entries[i],
                )
            &&& match action {
                ImageActionView::FindFormats => y.taken == y.entries.len(),
                ImageActionView::Download(url) => y.taken < y.entries.len() && text_at(
                    y.entries[y.taken],
                    "b64_json"@,
                ) is None && text_at(y.entries[y.taken], "url"@) == Some(url),
                ImageActionView::Fail(_) => y.taken < y.entries.len() && (text_at(
                    y.entries[y.taken],
                    "b64_json"@,
                ) is Some || text_at(y.entries[y.taken], "url"@) is None),
                _ => false,
            }
        }),
    decreases x.entries.len() - x.taken,
{
    if x.taken < x.entries.len() {
        let entry = x.entries[x.taken];
        if entry_error(entry) is None && text_at(entry, "b64_json"@) is Some {
            let bytes = base64_decoded(text_at(entry, "b64_json"@)->0)->Ok_0;
            let next = with_payload(x, bytes);
            images_are_taken_in_order(next);
            let y = takes_entries(x).0;
            assert(y.payloads.take(x.payloads.len() as int) =~= x.payloads) by {
                assert forall|i: int| 0 <= i < x.payloads.len() implies y.payloads[i]
                    == x.payloads[i] by {
                    assert(y.payloads.take(next.payloads.len() as int)[i] == next.payloads[i]);
                }
            }
            assert(y.payloads[x.payloads.len() as int] == bytes) by {
                assert(y.payloads.take(next.payloads.len() as int)[x.payloads.len() as int]
                    == next.payloads[x.payloads.len() as int]);
            }
            assert forall|i: int| x.taken <= i < y.taken implies image_is_of(
                y.payloads[x.payloads.len() + i - x.taken],
                #[trigger] x.entries[i],
            ) by {
                if i > x.taken {
                    assert(image_is_of(
                        y.payloads[next.payloads.len() + i - next.taken],
                        next.entries[i],
                    ));
                }
            }
        } else {
            assert(x.payloads.take(x.payloads.len() as int) =~= x.payloads);
        }
    } else {
        assert(x.payloads.take(x.payloads.len() as int) =~= x.payloads);
    }
}

/// An answer that was read gives its first images, at most four, from the beginning of its
/// data; only an answer without data gives none.
pub proof fn answer_gives_its_first_images(answer: JsonView)
    ensures
        ({
            let data = items_at(answer, "data"@);
            match entries_read(Ok(answer)) {
                Ok(v) => {
                    &&& data is Some
                    &&& 1 <= v.len() <= 4
                    &&& v.len() == data->0.len() || (v.len() == 4 && data->0.len() > 4)
                    &&& forall|i: int| 0 <= i < v.len() ==> #[trigger] v[i] == data->0[i]
                },
                Err(e) => e == "图像响应缺少 data"@ && (data is None || data->0.len() == 0),
            }
        }),
{
}

/// A node is served just where an address and a key are configured and it has a prompt that is
/// not blank.
pub proof fn node_is_served_when_configured(url: Seq<char>, key: Seq<char>, config: JsonView)
    ensures
        image_refusal(url, key, config) is None <==> {
            &&& url.len() > 0 && key.len() > 0
            &&& text_at(config, "prompt"@) is Some && !is_blank(text_at(config, "prompt"@)->0)
        },
{
}

/// The image of an entry is where the entry says: in it, decoded, or at the address it names.
pub proof fn image_is_where_its_entry_says(s: ImageSource, entry: JsonView)
    requires
        entry_error(entry) is None,
        is_source_of(s, entry),
    ensures
        match s {
            ImageSource::Inline(bytes) => image_is_of(bytes@, entry),
            ImageSource::Download(url) => text_at(entry, "b64_json"@) is None && text_at(
                entry,
                "url"@,
            ) == Some(url@),
        },
{
}

/// A model is one that is asked by aspect ratio where a part of its name, between separators and
/// whatever its case, is that of the vendor, alone or followed by a dash, an underscore or a
/// version; a name in which the vendor does not occur is none.
pub proof fn vendor_is_found_in_any_part(
    model: Seq<char>,
    before: Seq<char>,
    version: Seq<char>,
    after: Seq<char>,
)
    requires
        lowered(trimmed(model)) == before + "grok"@ + version + after,
        before.len() == 0 || parts_a_name(before.last()),
        after.len() == 0 || parts_a_name(after[0]),
        forall|i: int| 0 <= i < version.len() ==> !parts_a_name(#[trigger] version[i]),
        version.len() == 0 || version[0] == '-' || version[0] == '_' || is_digit(version[0]),
    ensures
        is_grok(model),
        forall|other: Seq<char>|
            !occurs_in(lowered(trimmed(other)), "grok"@) ==> !#[trigger] is_grok(other),
{
    reveal_strlit("grok");
    assert("grok"@.len() == 4);
    let s = lowered(trimmed(model));
    let from = before.len() as int;
    let to = (before.len() + 4 + version.len()) as int;
    let part = s.subrange(from, to);
    assert(part =~= "grok"@ + version);
    assert(part.subrange(0, 4) =~= "grok"@);
    assert forall|i: int| from <= i < to implies !is_name_separator(#[trigger] s[i]) by {
        if i < from + 4 {
            assert(s[i] == "grok"@[i - from]);
            assert("grok"@[0] == 'g' && "grok"@[1] == 'r' && "grok"@[2] == 'o' && "grok"@[3] == 'k');
        } else {
            assert(s[i] == version[i - from - 4]);
        }
    }
    if from > 0 {
        assert(s[from - 1] == before.last());
    }
    if to < s.len() {
        assert(s[to] == after[0]);
    }
    assert(is_segment(s, from, to));
    if version.len() == 0 {
        assert(part =~= "grok"@);
    } else {
        assert(part[4] == version[0]);
    }
    assert(is_vendor_segment(part));
    assert forall|other: Seq<char>| !occurs_in(
        lowered(trimmed(other)),
        "grok"@,
    ) implies !#[trigger] is_grok(other) by {
        let t = lowered(trimmed(other));
        if is_grok(other) {
            let (a, b) = choose|a: int, b: int| #[trigger]
                is_segment(t, a, b) && is_vendor_segment(t.subrange(a, b));
            let found = t.subrange(a, b);
            assert(found.subrange(0, 4) =~= "grok"@);
            assert(t.subrange(a, a + 4) =~= found.subrange(0, 4));
            assert(occurs_at(t, "grok"@, a));
        }
    }
}

/// Whether a character parts the name of a model.
pub open spec fn parts_a_name(c: char) -> bool {
    c == '/' || c == ':' || c == '@'
}

/// A selection that is marked for a higher resolution, whatever the case of the mark, is asked
/// for in it; and there are two resolutions.
pub proof fn marked_selection_asks_for_more(selection: Seq<char>)
    ensures
        occurs_in(lowered(selection), "2k"@) || occurs_in(lowered(selection), "4k"@) || occurs_in(
            lowered(selection),
            "8k"@,
        ) ==> resolution(selection) == "2k"@,
        resolution(selection) == "1k"@ || resolution(selection) == "2k"@,
{
}

/// A selection that notes a known ratio is asked for in that ratio, whatever its pixels; one
/// without a note or pixels is asked for as a square.
pub proof fn noted_ratio_is_asked_for(selection: Seq<char>)
    ensures
        ({
            let note = selection_note(selection);
            let known = note is Some && is_listed_ratio(note->0);
            &&& known ==> aspect_ratio(selection) == note->0
            &&& !known && selected_pixels(selection) is None ==> aspect_ratio(selection) == "1:1"@
            &&& is_listed_ratio(aspect_ratio(selection))
        }),
{
    let note = selection_note(selection);
    assert forall|s: Seq<char>| #[trigger] is_listed_ratio(s) == is_ratio_label(s) by {
        assert(ratio_label(0) == "9:20"@ && ratio_label(1) == "9:19.5"@ && ratio_label(2) == "1:2"@);
        assert(ratio_label(3) == "9:16"@ && ratio_label(4) == "2:3"@ && ratio_label(5) == "3:4"@);
        assert(ratio_label(6) == "1:1"@ && ratio_label(7) == "4:3"@ && ratio_label(8) == "3:2"@);
        assert(ratio_label(9) == "16:9"@ && ratio_label(10) == "2:1"@);
        assert(ratio_label(11) == "19.5:9"@ && ratio_label(12) == "20:9"@);
    }
    if note is Some {
        assert(is_listed_ratio(note->0) == is_ratio_label(note->0));
    }
}

/// Whether a text is one of the ratios that can be asked for.
pub open spec fn is_listed_ratio(s: Seq<char>) -> bool {
    s == "9:20"@ || s == "9:19.5"@ || s == "1:2"@ || s == "9:16"@ || s == "2:3"@ || s == "3:4"@ || s
        == "1:1"@ || s == "4:3"@ || s == "3:2"@ || s == "16:9"@ || s == "2:1"@ || s == "19.5:9"@ || s
        == "20:9"@
}

/// Images are saved just where there is one and the format of every one is known, each in its
/// own format.
pub proof fn images_are_saved_in_their_formats(formats: Seq<Option<String>>)
    ensures
        known_formats(formats) is Ok <==> formats.len() > 0 && forall|i: int|
            0 <= i < formats.len() ==> (#[trigger] formats[i]) is Some,
        known_formats(formats) matches Ok(v) ==> v.len() == formats.len() && forall|i: int|
            0 <= i < v.len() ==> #[trigger] v[i] == formats[i]->0@,
{
}

} // verus!
