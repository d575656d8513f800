//! What saved settings, documents and files keep of what was handed over.
use crate::commands::{
    added_params, answer_ids, asset_metadata_value, at_most, cached_paths, case_image_name,
    catalogue_ids, dashed, given_texts, head_id, head_row, is_later, is_plain_word, is_removable,
    lemma_top_version, listed_texts, media_extension, media_refusal, merge_refusal, outcome_count,
    plain_file_name, run_folder, saved_config, settings_error, text_file_refusal, top_version,
    version_refusal, CachedFile, DocumentVersionSaveRequest, RowView, SaveConfigRequest,
    SegmentFacts, SegmentOutcome,
};
use crate::config::ConfigView;
use crate::digest::md5_hex;
use crate::json::{
    bool_at, entered_member_is_found, field, items_at, lemma_lookup_push, lookup,
    other_members_stay, put_member, text_at, JsonView,
};
use crate::outside::{is_alphanumeric, url_has_host, url_scheme};
use crate::paths::{lies_under, lies_under_any};
use crate::text::{
    all_digits, begins_with, finishes_with, is_blank, last_index, lemma_after_last,
    lemma_precedes_total, lemma_precedes_trans, lowered, opt_view, precedes, rsplit_once_at,
    texts_view, trimmed,
};
use vstd::prelude::*;

verus! {

// ---------------------------------------------------------------------------
// Settings
// ---------------------------------------------------------------------------

/// Whether a setting is the one that was given, without the white space around it, or else the
/// one that was there.
pub open spec fn is_taken_over(stored: Seq<char>, given: Seq<char>, after: Seq<char>) -> bool {
    if is_blank(given) {
        after == stored
    } else {
        after == trimmed(given)
    }
}

/// Each setting that is saved is the one that was given for it, or stays as it was where none
/// was given; the configuration counts as stored from then on.
pub proof fn saved_settings_are_those_given(c: ConfigView, q: SaveConfigRequest)
    ensures
        ({
            let s = saved_config(c, q);
            &&& is_taken_over(c.image_api_url, q.image_api_url@, s.image_api_url)
            &&& is_taken_over(c.image_api_key, q.image_api_key@, s.image_api_key)
            &&& is_taken_over(c.image_model, q.image_api_model@, s.image_model)
            &&& is_taken_over(c.video_api_url, q.video_api_url@, s.video_api_url)
            &&& is_taken_over(c.video_api_key, q.video_api_key@, s.video_api_key)
            &&& is_taken_over(c.video_model, q.video_api_model@, s.video_model)
            &&& is_taken_over(c.llm_api_url, q.llm_api_url@, s.llm_api_url)
            &&& is_taken_over(c.llm_api_key, q.llm_api_key@, s.llm_api_key)
            &&& is_taken_over(c.llm_model, q.llm_api_model@, s.llm_model)
            &&& is_taken_over(c.output_dir, q.output_dir@, s.output_dir)
            &&& s.source == "db"@
        }),
{
}

/// Whether an address can be saved: none at all, or one of the web with a host.
pub open spec fn address_is_usable(value: Seq<char>) -> bool {
    is_blank(value) || ((url_scheme(trimmed(value)) == Ok::<Seq<char>, Seq<char>>("http"@)
        || url_scheme(trimmed(value)) == Ok::<Seq<char>, Seq<char>>("https"@)) && url_has_host(
        trimmed(value),
    ))
}

/// Settings are accepted just where every address can be used and no text is too long.
pub proof fn settings_are_accepted_when_usable(q: SaveConfigRequest)
    ensures
        settings_error(q) is None <==> {
            &&& address_is_usable(q.image_api_url@) && address_is_usable(q.video_api_url@)
                && address_is_usable(q.llm_api_url@)
            &&& q.image_api_model@.len() <= 200 && q.video_api_model@.len() <= 200
                && q.llm_api_model@.len() <= 200
            &&& q.image_api_key@.len() <= 16384 && q.video_api_key@.len() <= 16384
                && q.llm_api_key@.len() <= 16384
            &&& q.output_dir@.len() <= 4096
        },
{
}

// ---------------------------------------------------------------------------
// Documents
// ---------------------------------------------------------------------------

proof fn lemma_entered(m: Seq<(Seq<char>, JsonView)>, key: Seq<char>, value: JsonView)
    ensures
        lookup(put_member(m, key, value), key) == Some(value),
        forall|other: Seq<char>|
            other != key ==> #[trigger] lookup(put_member(m, key, value), other) == lookup(m, other),
{
    entered_member_is_found(m, key, value);
    assert forall|other: Seq<char>| other != key implies #[trigger] lookup(
        put_member(m, key, value),
        other,
    ) == lookup(m, other) by {
        other_members_stay(m, key, value, other);
    }
}

/// Whether a name is one that a version sets itself.
pub open spec fn is_version_field(name: Seq<char>) -> bool {
    name == "documentId"@ || name == "version"@ || name == "text"@ || name == "title"@ || name
        == "videoBranch"@
}

/// A version that is stored says which document it is a version of, the next number, its text
/// and title without the white space around them, and whether it is a branch, whatever the
/// request says under these names; everything else of the request stays. Its metadata say where
/// it comes from and hold all that.
pub proof fn stored_version_says_what_was_saved(
    request: DocumentVersionSaveRequest,
    rows: Seq<RowView>,
)
    requires
        version_refusal(request, rows) is None,
    ensures
        ({
            let p = added_params(request, rows);
            let m = asset_metadata_value(
                trimmed(request.label@),
                opt_view(request.model),
                opt_view(request.project_id),
                p,
            );
            &&& text_at(p, "documentId"@) == Some(request.document_id@)
            &&& field(p, "version"@) == Some(JsonView::Int(top_version(rows) + 1))
            &&& forall|i: int|
                0 <= i < rows.len() ==> (#[trigger] rows[i]).version < top_version(rows) + 1
            &&& text_at(p, "text"@) == Some(trimmed(request.text@))
            &&& text_at(p, "title"@) == Some(trimmed(request.label@))
            &&& bool_at(p, "videoBranch"@) == Some(request.allow_branch)
            &&& forall|k: Seq<char>|
                !is_version_field(k) ==> #[trigger] field(p, k) == field(request.params@, k)
            &&& text_at(m, "source"@) == Some(trimmed(request.label@))
            &&& text_at(m, "model"@) == opt_view(request.model)
            &&& text_at(m, "projectId"@) == opt_view(request.project_id)
            &&& field(m, "params"@) == Some(p)
        }),
{
    let a = request.params@->Obj_0;
    let b = put_member(a, "documentId"@, JsonView::Str(request.document_id@));
    let c = put_member(b, "version"@, JsonView::Int(top_version(rows) + 1));
    let d = put_member(c, "text"@, JsonView::Str(trimmed(request.text@)));
    let e = put_member(d, "title"@, JsonView::Str(trimmed(request.label@)));
    lemma_entered(a, "documentId"@, JsonView::Str(request.document_id@));
    lemma_entered(b, "version"@, JsonView::Int(top_version(rows) + 1));
    lemma_entered(c, "text"@, JsonView::Str(trimmed(request.text@)));
    lemma_entered(d, "title"@, JsonView::Str(trimmed(request.label@)));
    lemma_entered(e, "videoBranch"@, JsonView::Bool(request.allow_branch));
    lemma_top_version(rows);
    let p = added_params(request, rows);
    assert(p->Obj_0 == put_member(e, "videoBranch"@, JsonView::Bool(request.allow_branch)));
    assert(text_at(p, "documentId"@) == Some(request.document_id@) && text_at(p, "text"@) == Some(
        trimmed(request.text@),
    ) && text_at(p, "title"@) == Some(trimmed(request.label@)) && field(p, "version"@) == Some(
        JsonView::Int(top_version(rows) + 1),
    )) by {
        reveal_strlit("documentId");
        reveal_strlit("version");
        reveal_strlit("text");
        reveal_strlit("title");
        reveal_strlit("videoBranch");
        assert("text"@.len() == 4);
        assert("title"@.len() == 5);
        assert("version"@.len() == 7);
        assert("documentId"@.len() == 10);
        assert("videoBranch"@.len() == 11);
    }
    let m = asset_metadata_value(
        trimmed(request.label@),
        opt_view(request.model),
        opt_view(request.project_id),
        p,
    );
    assert(text_at(m, "source"@) == Some(trimmed(request.label@)) && text_at(m, "model"@)
        == opt_view(request.model) && text_at(m, "projectId"@) == opt_view(request.project_id)
        && field(m, "params"@) == Some(p)) by {
        broadcast use lemma_lookup_push;

        reveal_strlit("source");
        reveal_strlit("model");
        reveal_strlit("projectId");
        reveal_strlit("params");
        assert("model"@.len() == 5);
        assert("source"@.len() == 6);
        assert("params"@.len() == 6);
        assert("source"@[0] == 's');
        assert("params"@[0] == 'p');
        assert("projectId"@.len() == 9);
    }
}

proof fn lemma_later_passes_on(a: RowView, b: RowView, c: RowView)
    requires
        is_later(b, a),
        !is_later(c, a),
    ensures
        !is_later(c, b),
{
    lemma_precedes_total(a.id, b.id);
    lemma_precedes_total(a.id, c.id);
    lemma_precedes_total(b.id, c.id);
    if c.version == b.version && c.created_at == b.created_at && precedes(b.id, c.id) {
        lemma_precedes_trans(a.id, b.id, c.id);
    }
}

/// Whether a version is behind another: of a lower number, or of the same number and older, or
/// of the same number and time and before it by its identifier.
pub open spec fn is_behind(a: RowView, b: RowView) -> bool {
    ||| a.version < b.version
    ||| a.version == b.version && a.created_at < b.created_at
    ||| a.version == b.version && a.created_at == b.created_at && (a.id == b.id || precedes(
        a.id,
        b.id,
    ))
}

/// The production version of a document is one of its versions, is no branch, and every other
/// version that is no branch is behind it; there is none just where all versions are branches.
pub proof fn production_version_is_the_latest(rows: Seq<RowView>)
    ensures
        match head_row(rows) {
            Some(h) => {
                &&& rows.contains(h)
                &&& !h.branch
                &&& head_id(rows) == Some(h.id)
                &&& forall|i: int|
                    0 <= i < rows.len() && !(#[trigger] rows[i]).branch ==> is_behind(rows[i], h)
            },
            None => head_id(rows) is None && forall|i: int|
                0 <= i < rows.len() ==> (#[trigger] rows[i]).branch,
        },
    decreases rows.len(),
{
    if rows.len() > 0 {
        let rest = rows.drop_last();
        let n = rows.len() - 1;
        production_version_is_the_latest(rest);
        assert(rows.last() == rows[n]);
        let before = head_row(rest);
        if before is Some {
            let k = choose|k: int| 0 <= k < rest.len() && rest[k] == before->0;
            assert(rows[k] == before->0);
        }
        if head_row(rows) is Some {
            let h = head_row(rows)->0;
            assert forall|i: int| 0 <= i < rows.len() && !(#[trigger] rows[i]).branch implies is_behind(
                rows[i],
                h,
            ) by {
                lemma_precedes_total(rows[i].id, h.id);
                if i < n {
                    assert(rest[i] == rows[i]);
                    assert(before is Some && is_behind(rest[i], before->0));
                    lemma_precedes_total(rest[i].id, before->0.id);
                    if h != before->0 {
                        lemma_later_passes_on(before->0, h, rest[i]);
                    }
                }
            }
        } else {
            assert forall|i: int| 0 <= i < rows.len() implies (#[trigger] rows[i]).branch by {
                if i < n {
                    assert(rest[i] == rows[i]);
                }
            }
        }
    }
}

/// A version is stored just where it has a title, a text and a document, its parameters are an
/// object, a number is left for it, and it is a branch or expects the present production version.
pub proof fn version_is_stored_when_expected(
    request: DocumentVersionSaveRequest,
    rows: Seq<RowView>,
)
    ensures
        version_refusal(request, rows) is None <==> {
            &&& !is_blank(request.label@) && !is_blank(request.text@) && !is_blank(
                request.document_id@,
            )
            &&& request.params@ is Obj
            &&& top_version(rows) < i64::MAX
            &&& request.allow_branch || opt_view(request.expected_head_asset_id) == head_id(rows)
        },
{
}

// ---------------------------------------------------------------------------
// Files
// ---------------------------------------------------------------------------

/// A text file is read just where it lies under a directory of the application, is of one of
/// the three kinds of text, whatever the case of its ending, and has at most twenty mebibytes.
pub proof fn text_file_is_read_when_allowed(
    path: Seq<Seq<char>>,
    roots: Seq<Option<Vec<String>>>,
    extension: Seq<char>,
    bytes: u64,
)
    ensures
        text_file_refusal(path, roots, extension, bytes) is None <==> {
            &&& lies_under_any(path, roots)
            &&& lowered(extension) == "md"@ || lowered(extension) == "txt"@ || lowered(extension)
                == "json"@
            &&& bytes <= 20 * 1024 * 1024
        },
{
}

/// A media file is accepted just where it is an image or a video with an ending of its kind,
/// has at most 512 mebibytes, and its content is what its kind says. Dots before the ending and
/// its case do not matter.
pub proof fn media_is_accepted_when_valid(
    kind: Seq<char>,
    extension: Seq<char>,
    bytes: u64,
    image_valid: bool,
    video_valid: bool,
)
    ensures
        ({
            let e = media_extension(extension);
            media_refusal(kind, extension, bytes, image_valid, video_valid) is None <==> {
                &&& bytes <= 512 * 1024 * 1024
                &&& (kind == "image"@ && image_valid && (e == "png"@ || e == "jpg"@ || e == "jpeg"@ || e
                    == "webp"@ || e == "gif"@)) || (kind == "video"@ && video_valid && (e == "mp4"@ || e
                    == "webm"@ || e == "mov"@))
            }
        }),
        media_extension(seq!['.'] + extension) == media_extension(extension),
        extension.len() > 0 && extension[0] != '.' ==> media_extension(extension) == lowered(
            extension,
        ),
{
    let dotted = seq!['.'] + extension;
    assert(dotted.subrange(1, dotted.len() as int) =~= extension);
    reveal_strlit("png");
    reveal_strlit("jpg");
    reveal_strlit("jpeg");
    reveal_strlit("webp");
    reveal_strlit("gif");
    reveal_strlit("mp4");
    reveal_strlit("webm");
    reveal_strlit("mov");
    reveal_strlit("image");
    reveal_strlit("video");
    assert("png"@.len() == 3);
    assert("jpg"@.len() == 3);
    assert("gif"@.len() == 3);
    assert("mp4"@.len() == 3);
    assert("mov"@.len() == 3);
    assert("png"@[0] == 'p');
    assert("jpg"@[0] == 'j');
    assert("gif"@[0] == 'g');
    assert("mp4"@[0] == 'm');
    assert("mov"@[0] == 'm');
    assert("png"@[1] == 'n');
    assert("jpg"@[1] == 'p');
    assert("gif"@[1] == 'i');
    assert("mp4"@[1] == 'p');
    assert("mov"@[1] == 'o');
    assert("jpeg"@.len() == 4);
    assert("webp"@.len() == 4);
    assert("webm"@.len() == 4);
    assert("jpeg"@[0] == 'j');
    assert("webp"@[0] == 'w');
    assert("webm"@[0] == 'w');
    assert("jpeg"@[3] == 'g');
    assert("webp"@[3] == 'p');
    assert("webm"@[3] == 'm');
    assert("image"@.len() == 5);
    assert("video"@.len() == 5);
    assert("image"@[0] == 'i');
    assert("video"@[0] == 'v');
    let e = media_extension(extension);
    if e == "png"@ || e == "jpg"@ || e == "jpeg"@ || e == "webp"@ || e == "gif"@ || e == "mp4"@ || e
        == "webm"@ || e == "mov"@ {
        assert(is_plain_word(e));
    }
}

/// The name that is accepted for a case image is `case`, a number and one of the five formats,
/// in small letters; its number and format are handed out.
pub proof fn case_image_has_its_number(file_name: Seq<char>) -> (parts: (Seq<char>, Seq<char>))
    requires
        case_image_name(file_name) is Ok,
    ensures
        case_image_name(file_name)->Ok_0 == "case"@ + parts.0 + "."@ + parts.1,
        all_digits(parts.0),
        parts.1 == "jpg"@ || parts.1 == "jpeg"@ || parts.1 == "png"@ || parts.1 == "webp"@
            || parts.1 == "gif"@,
{
    let name = plain_file_name(file_name);
    let p = rsplit_once_at(name, '.')->0;
    lemma_after_last(name, '.');
    lemma_last_dot(name);
    let k = last_index(name, '.');
    reveal_strlit("case");
    reveal_strlit(".");
    let digits = p.0.subrange(4, p.0.len() as int);
    assert(p.0 =~= "case"@ + digits) by {
        assert(p.0.subrange(0, 4) =~= "case"@);
    }
    assert(name =~= p.0 + "."@ + p.1);
    assert("case"@ + digits + "."@ + p.1 =~= name);
    (digits, p.1)
}

proof fn lemma_last_dot(s: Seq<char>)
    ensures
        last_index(s, '.') < s.len(),
        last_index(s, '.') >= 0 ==> s[last_index(s, '.')] == '.',
    decreases s.len(),
{
    if s.len() > 0 && s.last() != '.' {
        lemma_last_dot(s.drop_last());
    }
}

/// A segment is removed only where it is a file below the directory of the videos, and named as
/// a segment is.
pub proof fn only_segments_are_removed(f: SegmentFacts)
    requires
        is_removable(f),
    ensures
        f.is_file && f.path is Some && f.root is Some,
        lies_under(texts_view(f.path->0@), texts_view(f.root->0@)),
        f.path->0@.len() > 0,
        begins_with(f.path->0@.last()@, "seg_"@),
        finishes_with(f.path->0@.last()@, ".mp4"@),
{
}

/// Every segment is counted once, under what became of it.
pub proof fn every_segment_is_counted(v: Seq<SegmentOutcome>)
    ensures
        outcome_count(v, SegmentOutcome::Removed) + outcome_count(v, SegmentOutcome::Skipped)
            + outcome_count(v, SegmentOutcome::Failed) == v.len(),
        outcome_count(v.push(SegmentOutcome::Removed), SegmentOutcome::Removed) == outcome_count(
            v,
            SegmentOutcome::Removed,
        ) + 1,
        outcome_count(v.push(SegmentOutcome::Skipped), SegmentOutcome::Skipped) == outcome_count(
            v,
            SegmentOutcome::Skipped,
        ) + 1,
        outcome_count(v.push(SegmentOutcome::Failed), SegmentOutcome::Failed) == outcome_count(
            v,
            SegmentOutcome::Failed,
        ) + 1,
    decreases v.len(),
{
    assert(v.push(SegmentOutcome::Removed).drop_last() =~= v);
    assert(v.push(SegmentOutcome::Skipped).drop_last() =~= v);
    assert(v.push(SegmentOutcome::Failed).drop_last() =~= v);
    if v.len() > 0 {
        every_segment_is_counted(v.drop_last());
    }
}

// ---------------------------------------------------------------------------
// Lists
// ---------------------------------------------------------------------------

/// A catalogue is read item by item, in order: an item gives its identifier where that is a
/// text, and else nothing.
pub proof fn catalogue_is_read_item_by_item(items: Seq<JsonView>, item: JsonView, answer: JsonView)
    ensures
        catalogue_ids(Seq::empty()) == Seq::<Seq<char>>::empty(),
        catalogue_ids(items.push(item)) == match text_at(item, "id"@) {
            Some(id) => catalogue_ids(items).push(id),
            None => catalogue_ids(items),
        },
        items_at(answer, "data"@) == Some(items) ==> answer_ids(answer) == catalogue_ids(items),
        items_at(answer, "data"@) is None ==> answer_ids(answer).len() == 0,
{
    assert(items.push(item).drop_last() =~= items);
}

/// A list of texts is read item by item, in order: a text that is not blank is taken without
/// the white space around it, and everything else is left out.
pub proof fn texts_are_read_item_by_item(items: Seq<JsonView>, item: JsonView)
    ensures
        given_texts(Seq::empty()) == Seq::<Seq<char>>::empty(),
        given_texts(items.push(item)) == match item {
            JsonView::Str(s) => if is_blank(s) {
                given_texts(items)
            } else {
                given_texts(items).push(trimmed(s))
            },
            _ => given_texts(items),
        },
{
    assert(items.push(item).drop_last() =~= items);
}

/// The cached case images are listed file by file, in order: those whose name is accepted for a
/// case image, by their paths.
pub proof fn cached_images_are_listed_file_by_file(files: Seq<CachedFile>, file: CachedFile)
    ensures
        cached_paths(Seq::empty()) == Seq::<Seq<char>>::empty(),
        cached_paths(files.push(file)) == if case_image_name(file.name@) is Ok {
            cached_paths(files).push(file.path@)
        } else {
            cached_paths(files)
        },
{
    assert(files.push(file).drop_last() =~= files);
}

// ---------------------------------------------------------------------------
// Folders
// ---------------------------------------------------------------------------

/// Whether a text is the beginning of another, cut off at a length.
pub open spec fn is_cut(s: Seq<char>, whole: Seq<char>, n: int) -> bool {
    &&& s.len() <= n && s.len() <= whole.len()
    &&& s == whole.subrange(0, s.len() as int)
    &&& s.len() == n || s.len() == whole.len()
}

/// The folder of a run is named by the time, up to twenty-four characters of the words of its
/// prompt, or `gen` where there are none, and six characters of the digest of the prompt; the
/// two parts are handed out.
pub proof fn folder_tells_time_and_prompt(time: Seq<char>, prompt: Seq<char>) -> (parts: (
    Seq<char>,
    Seq<char>,
))
    ensures
        run_folder(time, prompt) == time + "_"@ + parts.0 + "_"@ + parts.1,
        is_cut(
            parts.0,
            if dashed(prompt).len() == 0 {
                "gen"@
            } else {
                dashed(prompt)
            },
            24,
        ),
        is_cut(parts.1, md5_hex(prompt), 6),
{
    let words = dashed(prompt);
    let label = if words.len() == 0 {
        "gen"@
    } else {
        words
    };
    let digest = md5_hex(prompt);
    assert(label.subrange(0, label.len() as int) =~= label);
    assert(digest.subrange(0, digest.len() as int) =~= digest);
    (at_most(label, 24), at_most(digest, 6))
}

/// The words of a prompt keep its letters and numbers in order; one dash stands for what was
/// between two of them, and nothing for what was before the first or after the last.
pub proof fn words_keep_letters_in_order(s: Seq<char>, c: char)
    ensures
        dashed(Seq::empty()) == Seq::<char>::empty(),
        !is_alphanumeric(c) ==> dashed(s.push(c)) == dashed(s),
        is_alphanumeric(c) && s.len() > 0 && is_alphanumeric(s.last()) ==> dashed(s.push(c))
            == dashed(s).push(c),
        is_alphanumeric(c) && s.len() > 0 && !is_alphanumeric(s.last()) && dashed(s).len() > 0
            ==> dashed(s.push(c)) == dashed(s).push('-').push(c),
        is_alphanumeric(c) && dashed(s).len() == 0 ==> dashed(s.push(c)) == seq![c],
{
    assert(s.push(c).drop_last() =~= s);
    if s.len() > 0 {
        assert(s.push(c)[s.push(c).len() - 2] == s.last());
    }
    if dashed(s).len() == 0 {
        assert(dashed(s).push(c) =~= seq![c]);
    }
}

/// The texts of a list in a field are those of the list; where there is none, there are none.
pub proof fn listed_texts_are_those_of_the_field(config: JsonView, key: Seq<char>)
    ensures
        items_at(config, key) matches Some(items) ==> listed_texts(config, key) == given_texts(items),
        items_at(config, key) is None ==> listed_texts(config, key).len() == 0,
{
}

/// Whether the key of a service would go to another address than the one it was given for.
pub open spec fn key_would_leave(
    stored_url: Seq<char>,
    stored_key: Seq<char>,
    url: Seq<char>,
    key: Seq<char>,
) -> bool {
    &&& !is_blank(stored_url) && !is_blank(stored_key)
    &&& !is_blank(url) && trimmed(url) != trimmed(stored_url)
    &&& is_blank(key)
}

/// Settings are refused for a key just where one of the three services would get another address
/// without a key of its own.
pub proof fn settings_are_refused_for_a_key(c: ConfigView, q: SaveConfigRequest)
    ensures
        merge_refusal(c, q) is Some <==> {
            ||| key_would_leave(
                c.image_api_url,
                c.image_api_key,
                q.image_api_url@,
                q.image_api_key@,
            )
            ||| key_would_leave(
                c.video_api_url,
                c.video_api_key,
                q.video_api_url@,
                q.video_api_key@,
            )
            ||| key_would_leave(c.llm_api_url, c.llm_api_key, q.llm_api_url@, q.llm_api_key@)
        },
{
}

} // verus!
