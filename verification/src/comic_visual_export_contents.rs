//! What an export holds and says of itself.
use crate::comic_visual_export::{
    asset_refusal, directory_name, directory_refusal, export_holds, export_refusal,
    export_request_value, exported_files_are_in_order, file_holds, file_value, files_value,
    has_duplicate, is_export_format, is_file_of, is_selected, manifest_value, ordered_files,
    ordered_selections, page_file_name, selection_value, selections_come_in_order, selections_value,
    selections_view, three_wide, ComicVisualBatchExportInput, ComicVisualExportFile, ExportFacts,
    ExportFileFacts, ExportHeader, ExportMemberRow, FileView, PathState, SelectionView,
};
use crate::commands::AssetRef;
use crate::digest::sha256_hex;
use crate::json::{
    bool_at, field, int_at, items_at, json_parsed, json_same, lemma_lookup_push, text_at, JsonView,
};
use crate::paths::lies_under;
use crate::sequence::{find_first, lemma_first_index};
use crate::text::{
    all_digits, decimal, decimal_int, decimal_reads_back, digits_value, is_blank, is_digit,
    texts_view,
};
use vstd::prelude::*;

verus! {

/// Whether an entry of a listing says what a file is.
pub open spec fn entry_says(entry: JsonView, f: FileView) -> bool {
    &&& text_at(entry, "memberId"@) == Some(f.member_id)
    &&& int_at(entry, "ordinal"@) == Some(f.ordinal)
    &&& text_at(entry, "manifestId"@) == Some(f.manifest_id)
    &&& text_at(entry, "productionChapterId"@) == Some(f.production_chapter_id)
    &&& text_at(entry, "productionPageId"@) == Some(f.production_page_id)
    &&& text_at(entry, "runId"@) == Some(f.run_id)
    &&& text_at(entry, "assetId"@) == Some(f.asset_id)
    &&& text_at(entry, "path"@) == Some(f.path)
    &&& text_at(entry, "sha256"@) == Some(f.sha256)
}

proof fn lemma_entry(f: FileView)
    requires
        i64::MIN <= f.ordinal <= i64::MAX,
    ensures
        entry_says(file_value(f), f),
{
    broadcast use lemma_lookup_push;

    reveal_strlit("memberId");
    reveal_strlit("ordinal");
    reveal_strlit("manifestId");
    reveal_strlit("productionChapterId");
    reveal_strlit("productionPageId");
    reveal_strlit("runId");
    reveal_strlit("assetId");
    reveal_strlit("path");
    reveal_strlit("sha256");
    assert("path"@.len() == 4);
    assert("runId"@.len() == 5);
    assert("sha256"@.len() == 6);
    assert("ordinal"@.len() == 7);
    assert("assetId"@.len() == 7);
    assert("ordinal"@[0] == 'o');
    assert("assetId"@[0] == 'a');
    assert("memberId"@.len() == 8);
    assert("manifestId"@.len() == 10);
    assert("productionPageId"@.len() == 16);
    assert("productionChapterId"@.len() == 19);
}

/// The listing of an export names every file that was written, once and in the order of the
/// pages, with what it is a page of and its digest. It calls the export whole just where it has
/// as many files as the batch has pages, and marks its pages as candidates.
pub proof fn listing_names_every_file(files: Seq<FileView>, member_count: int)
    requires
        forall|i: int|
            0 <= i < files.len() ==> i64::MIN <= (#[trigger] files[i]).ordinal <= i64::MAX,
    ensures
        ({
            let sorted = ordered_files(files);
            let listing = manifest_value(sorted, member_count);
            let listed = items_at(listing, "files"@);
            &&& text_at(listing, "kind"@) == Some(
                if files.len() == member_count {
                    "full_batch"@
                } else {
                    "subset"@
                },
            )
            &&& bool_at(listing, "candidate"@) == Some(true)
            &&& listed is Some
            &&& listed->0.len() == files.len()
            &&& sorted.to_multiset() == files.to_multiset()
            &&& forall|i: int| 0 <= i < sorted.len() ==> entry_says(listed->0[i], #[trigger] sorted[i])
            &&& forall|i: int, j: int|
                0 <= i < j < sorted.len() ==> (#[trigger] sorted[i]).ordinal <= (
                #[trigger] sorted[j]).ordinal
        }),
{
    exported_files_are_in_order(files);
    let sorted = ordered_files(files);
    let listing = manifest_value(sorted, member_count);
    assert(text_at(listing, "kind"@) is Some && bool_at(listing, "candidate"@) == Some(true) && field(
        listing,
        "files"@,
    ) == Some(files_value(sorted)) && text_at(listing, "kind"@) == Some(
        if files.len() == member_count {
            "full_batch"@
        } else {
            "subset"@
        },
    )) by {
        broadcast use lemma_lookup_push;

        reveal_strlit("kind");
        reveal_strlit("candidate");
        reveal_strlit("files");
        assert("kind"@.len() == 4);
        assert("files"@.len() == 5);
        assert("candidate"@.len() == 9);
    }
    let listed = items_at(listing, "files"@)->0;
    assert forall|i: int| 0 <= i < sorted.len() implies entry_says(listed[i], #[trigger] sorted[i]) by {
        broadcast use vstd::seq_lib::group_to_multiset_ensures;

        assert(sorted.to_multiset().contains(sorted[i]));
        assert(files.to_multiset().contains(sorted[i]));
        assert(files.contains(sorted[i]));
        let k = choose|k: int| 0 <= k < files.len() && files[k] == sorted[i];
        lemma_entry(files[k]);
        assert(listed[i] == file_value(sorted[i]));
    }
}

spec fn zeros(k: nat) -> Seq<char> {
    Seq::new(k, |i: int| '0')
}

proof fn lemma_zeros(k: nat, s: Seq<char>)
    requires
        forall|i: int| 0 <= i < s.len() ==> is_digit(#[trigger] s[i]),
    ensures
        forall|i: int| 0 <= i < k + s.len() ==> is_digit(#[trigger] (zeros(k) + s)[i]),
        digits_value(zeros(k) + s) == digits_value(s),
    decreases k + s.len(),
{
    let whole = zeros(k) + s;
    assert forall|i: int| 0 <= i < whole.len() implies is_digit(#[trigger] whole[i]) by {
        if i < k {
            assert(whole[i] == '0');
        } else {
            assert(whole[i] == s[i - k]);
        }
    }
    if s.len() > 0 {
        let rest = s.drop_last();
        assert forall|i: int| 0 <= i < rest.len() implies is_digit(#[trigger] rest[i]) by {
            assert(rest[i] == s[i]);
        }
        lemma_zeros(k, rest);
        assert(whole.drop_last() =~= zeros(k) + rest);
        assert(whole.last() == s.last());
    } else if k > 0 {
        let fewer = (k - 1) as nat;
        lemma_zeros(fewer, s);
        assert(whole.drop_last() =~= zeros(fewer) + s);
        assert(whole.last() == '0');
    } else {
        assert(whole =~= s);
    }
}

/// The place of a page as it stands before its name: at least three digits, so that the files
/// of up to a thousand pages sort by it.
proof fn lemma_place(ordinal: int)
    requires
        ordinal >= 0,
    ensures
        all_digits(three_wide(ordinal)),
        digits_value(three_wide(ordinal)) == ordinal,
        three_wide(ordinal).len() >= 3,
        ordinal < 1000 ==> three_wide(ordinal).len() == 3,
{
    let d = decimal(ordinal as nat);
    decimal_reads_back(ordinal as nat);
    if d.len() < 3 {
        let k = (3 - d.len()) as nat;
        lemma_zeros(k, d);
        assert(three_wide(ordinal) =~= zeros(k) + d);
        assert forall|i: int| 0 <= i < three_wide(ordinal).len() implies is_digit(
            #[trigger] three_wide(ordinal)[i],
        ) by {
            assert(is_digit((zeros(k) + d)[i]));
        }
    }
    if ordinal < 1000 {
        reveal_with_fuel(crate::text::pow10, 4);
        crate::text::lemma_decimal_len(ordinal as nat, 3);
    }
}

/// An exported page is named by its place in the batch, in at least three digits, by its number
/// and by its format; the parts of the name are handed out.
pub proof fn page_name_tells_its_place(ordinal: int, page_no: int, extension: Seq<char>) -> (place:
    Seq<char>)
    requires
        ordinal >= 0,
    ensures
        page_file_name(ordinal, page_no, extension) == place + "-page-"@ + decimal_int(page_no)
            + "."@ + extension,
        all_digits(place) && place.len() >= 3,
        ordinal < 1000 ==> place.len() == 3,
        digits_value(place) == ordinal,
{
    lemma_place(ordinal);
    three_wide(ordinal)
}

/// Pages at different places go to different files.
pub proof fn page_names_differ(
    a: int,
    page_a: int,
    extension_a: Seq<char>,
    b: int,
    page_b: int,
    extension_b: Seq<char>,
)
    requires
        0 <= a < b,
    ensures
        page_file_name(a, page_a, extension_a) != page_file_name(b, page_b, extension_b),
{
    let x = page_file_name(a, page_a, extension_a);
    let y = page_file_name(b, page_b, extension_b);
    let p = three_wide(a);
    let q = three_wide(b);
    lemma_place(a);
    lemma_place(b);
    reveal_strlit("-page-");
    if x == y {
        assert(x[p.len() as int] == '-');
        assert(y[q.len() as int] == '-');
        if p.len() < q.len() {
            assert(y[p.len() as int] == q[p.len() as int]);
            assert(is_digit(q[p.len() as int]));
        } else if q.len() < p.len() {
            assert(x[q.len() as int] == p[q.len() as int]);
            assert(is_digit(p[q.len() as int]));
        } else {
            assert(p =~= q) by {
                assert forall|i: int| 0 <= i < p.len() implies p[i] == q[i] by {
                    assert(x[i] == p[i] && y[i] == q[i]);
                }
            }
        }
    }
}

/// What is exported is what was selected: a ready page of the batch of the caller, with the run
/// and the asset that were named, made for that page of that manifest.
pub proof fn exported_page_is_the_selected_one(
    row: ExportMemberRow,
    asset: AssetRef,
    project: Seq<char>,
    work: Seq<char>,
    batch: Seq<char>,
    s: SelectionView,
    require_png: bool,
)
    requires
        is_selected(row, project, work, batch, s),
        asset_refusal(asset, s, require_png) is None,
    ensures
        row.batch_id@ == batch && row.batch_project_id@ == project && row.batch_novel_work_id@
            == work,
        row.run_project_id@ == project && row.run_novel_work_id@ == work,
        row.member_id@ == s.member_id && row.member_status@ == "candidate_ready"@,
        row.run_id@ == s.run_id && row.run_status@ == "candidate_ready"@,
        row.run_asset_id is Some && row.run_asset_id->0@ == s.asset_id,
        row.run_manifest_id@ == row.manifest_id@ && row.run_page_id@ == row.production_page_id@,
        asset.id@ == s.asset_id,
        require_png ==> asset.format is Some && asset.format->0@ == "png"@,
{
}

/// An export that is shown is whole and unchanged: it was finished, its listing on disk says
/// what was stored, and every file is below its directory with the bytes that were written.
pub proof fn shown_export_is_unchanged(
    header: ExportHeader,
    facts: ExportFacts,
    files: Seq<ComicVisualExportFile>,
    file_facts: Seq<ExportFileFacts>,
)
    requires
        export_holds(header, facts, files, file_facts),
    ensures
        header.status@ == "complete"@,
        facts.directory is Some && facts.directory_is_dir,
        facts.manifest is Some && facts.manifest_is_file,
        lies_under(texts_view(facts.manifest->0@), texts_view(facts.directory->0@)),
        facts.manifest_text is Some,
        json_parsed(facts.manifest_text->0@) is Some,
        json_parsed(header.selection_json@) is Some,
        json_same(
            json_parsed(facts.manifest_text->0@)->0,
            json_parsed(header.selection_json@)->0,
        ),
        files.len() > 0,
        forall|i: int|
            0 <= i < files.len() ==> file_is_unchanged(
                #[trigger] files[i],
                file_facts[i],
                texts_view(facts.directory->0@),
            ),
{
    assert forall|i: int| 0 <= i < files.len() implies file_is_unchanged(
        #[trigger] files[i],
        file_facts[i],
        texts_view(facts.directory->0@),
    ) by {
        assert(file_holds(files[i], file_facts[i], texts_view(facts.directory->0@)));
    }
}

/// Whether a file is below a directory, with bytes of the digest that was recorded for it.
pub open spec fn file_is_unchanged(
    f: ComicVisualExportFile,
    facts: ExportFileFacts,
    directory: Seq<Seq<char>>,
) -> bool {
    &&& facts.path is Some && lies_under(texts_view(facts.path->0@), directory)
    &&& facts.bytes is Some && f.sha256@ == "sha256:"@ + sha256_hex(facts.bytes->0@)
}

/// The directory of an export is used just where it is a directory and no link, and lies below
/// the destination once both are resolved.
pub proof fn export_stays_below_its_destination(
    state: PathState,
    directory: Option<&Vec<String>>,
    destination: Option<&Vec<String>>,
)
    ensures
        directory_refusal(state, directory, destination) is None <==> state is Directory
            && directory is Some && destination is Some && lies_under(
            texts_view(directory->0@),
            texts_view(destination->0@),
        ),
{
}

/// Pages of four formats are exported.
pub proof fn four_formats_are_exported(format: Seq<char>)
    ensures
        is_export_format(format) <==> (format == "png"@ || format == "jpg"@ || format == "jpeg"@
            || format == "webp"@),
{
}

/// What is opened for a member is a file of its own, where the export has one.
pub proof fn opened_file_is_the_members(files: Seq<ComicVisualExportFile>, member: Seq<char>)
    ensures
        match find_first(files, is_file_of(member)) {
            Some(f) => files.contains(f) && f.member_id@ == member,
            None => forall|i: int| 0 <= i < files.len() ==> (#[trigger] files[i]).member_id@ != member,
        },
{
    let p = is_file_of(member);
    let k = lemma_first_index(files, p);
    if k < files.len() {
        assert(p(files[k]));
    } else {
        assert forall|i: int| 0 <= i < files.len() implies (#[trigger] files[i]).member_id@
            != member by {
            assert(!p(files[i]));
        }
    }
}

/// An export is accepted just where it has a key and a selection, and selects no page twice; its
/// directory is named after it.
pub proof fn export_is_accepted_when_complete(input: ComicVisualBatchExportInput, id: Seq<char>)
    ensures
        export_refusal(input) is None <==> {
            &&& !is_blank(input.idempotency_key@)
            &&& input.selections@.len() > 0
            &&& forall|i: int, j: int|
                0 <= i < j < input.selections@.len() ==> (#[trigger] input.selections@[i]).member_id@
                    != (#[trigger] input.selections@[j]).member_id@
        },
        directory_name(id) == "comic-pages-"@ + id,
{
    let v = selections_view(input.selections@);
    if !has_duplicate(v) {
        assert forall|i: int, j: int| 0 <= i < j < input.selections@.len() implies (
        #[trigger] input.selections@[i]).member_id@ != (#[trigger] input.selections@[j]).member_id@ by {
            assert(v[i].member_id != v[j].member_id);
        }
    } else {
        let (i, j) = choose|i: int, j: int|
            0 <= i < j < v.len() && (#[trigger] v[i]).member_id == (#[trigger] v[j]).member_id;
        assert(input.selections@[i].member_id@ == input.selections@[j].member_id@);
    }
}

/// What identifies an export names its batch and every selected page once, with its run and
/// asset, by the identifiers of the pages, and the destination.
pub proof fn export_request_names_its_pages(
    input: ComicVisualBatchExportInput,
    destination: Seq<char>,
)
    ensures
        ({
            let v = export_request_value(input, destination);
            let sorted = ordered_selections(selections_view(input.selections@));
            let listed = items_at(v, "selections"@);
            &&& text_at(v, "projectId"@) == Some(input.project_id@)
            &&& text_at(v, "novelWorkId"@) == Some(input.novel_work_id@)
            &&& text_at(v, "batchId"@) == Some(input.batch_id@)
            &&& text_at(v, "destinationDir"@) == Some(destination)
            &&& listed is Some && listed->0.len() == sorted.len()
            &&& sorted.to_multiset() == selections_view(input.selections@).to_multiset()
            &&& forall|i: int|
                0 <= i < sorted.len() ==> names_selection(listed->0[i], #[trigger] sorted[i])
        }),
{
    let v = export_request_value(input, destination);
    let sorted = ordered_selections(selections_view(input.selections@));
    selections_come_in_order(selections_view(input.selections@));
    assert(text_at(v, "projectId"@) == Some(input.project_id@) && text_at(v, "novelWorkId"@)
        == Some(input.novel_work_id@) && text_at(v, "batchId"@) == Some(input.batch_id@) && text_at(
        v,
        "destinationDir"@,
    ) == Some(destination) && field(v, "selections"@) == Some(selections_value(sorted))) by {
        broadcast use lemma_lookup_push;

        reveal_strlit("projectId");
        reveal_strlit("novelWorkId");
        reveal_strlit("batchId");
        reveal_strlit("selections");
        reveal_strlit("destinationDir");
        assert("batchId"@.len() == 7);
        assert("projectId"@.len() == 9);
        assert("selections"@.len() == 10);
        assert("novelWorkId"@.len() == 11);
        assert("destinationDir"@.len() == 14);
    }
    let listed = items_at(v, "selections"@)->0;
    assert forall|i: int| 0 <= i < sorted.len() implies names_selection(
        listed[i],
        #[trigger] sorted[i],
    ) by {
        broadcast use lemma_lookup_push;

        reveal_strlit("memberId");
        reveal_strlit("runId");
        reveal_strlit("assetId");
        assert("runId"@.len() == 5);
        assert("assetId"@.len() == 7);
        assert("memberId"@.len() == 8);
        assert(listed[i] == selection_value(sorted[i]));
    }
}

/// Whether an entry names a selection.
pub open spec fn names_selection(entry: JsonView, s: SelectionView) -> bool {
    &&& text_at(entry, "memberId"@) == Some(s.member_id)
    &&& text_at(entry, "runId"@) == Some(s.run_id)
    &&& text_at(entry, "assetId"@) == Some(s.asset_id)
}

} // verus!
