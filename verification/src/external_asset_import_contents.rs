//! What imported files are taken for and what is kept of them.
use crate::external_asset_import::{
    batch_length, catalog_params, catalog_value, declared_length, entry_takes, extension_of,
    file_params, import_metadata_value, import_refusal, is_import_entry, kind_of, names_project,
    read_file, required_kind, AssetImportFile, AssetImportFilesInput, ContentFacts, PathContent,
    PathFact,
};
use crate::json::{
    entered_member_is_found, field, int_at, lemma_lookup_push, lookup, other_members_stay,
    put_member, text_at, JsonView,
};
use crate::outside::base64_decoded;
use crate::text::{byte_length, is_blank, lemma_rsplit_once, lowered, rsplit_once_at, trimmed};
use vstd::prelude::*;

verus! {

/// Whether a name is one that an import sets itself.
pub open spec fn is_import_field(name: Seq<char>) -> bool {
    name == "catalog"@ || name == "origin"@ || name == "importEntry"@ || name == "uploadBatchId"@
        || name == "originalFileName"@
}

proof fn lemma_entered(m: Seq<(Seq<char>, JsonView)>, key: Seq<char>, value: JsonView)
    ensures
        lookup(put_member(m, key, value), key) == Some(value),
        forall|other: Seq<char>|
            other != key ==> #[trigger] lookup(put_member(m, key, value), other) == lookup(m, other),
{
    entered_member_is_found(m, key, value);
    assert forall|other: Seq<char>| other != key implies #[trigger] lookup(
        put_member(m, key, value),
        other,
    ) == lookup(m, other) by {
        other_members_stay(m, key, value, other);
    }
}

proof fn lemma_catalog(batch: Seq<char>)
    ensures
        ({
            let c = catalog_value(batch);
            let group = field(c, "group"@)->0;
            &&& int_at(c, "version"@) == Some(1int)
            &&& text_at(c, "category"@) == Some("upload"@)
            &&& text_at(c, "origin"@) == Some("local_upload"@)
            &&& field(c, "group"@) is Some
            &&& text_at(group, "type"@) == Some("upload_batch"@)
            &&& text_at(group, "id"@) == Some(batch)
        }),
{
    broadcast use lemma_lookup_push;

    reveal_strlit("version");
    reveal_strlit("category");
    reveal_strlit("origin");
    reveal_strlit("group");
    reveal_strlit("type");
    reveal_strlit("id");
    assert("id"@.len() == 2);
    assert("type"@.len() == 4);
    assert("group"@.len() == 5);
    assert("origin"@.len() == 6);
    assert("version"@.len() == 7);
    assert("category"@.len() == 8);
}

/// An imported file says that it was uploaded, through which entry, in which batch and under
/// which name, whatever the request says under these names; everything else of the request
/// stays.
pub proof fn imported_file_says_where_it_comes_from(
    m: Seq<(Seq<char>, JsonView)>,
    entry: Seq<char>,
    batch: Seq<char>,
    source: Seq<char>,
)
    ensures
        ({
            let p = file_params(JsonView::Obj(catalog_params(m, entry, batch)), source);
            let c = field(p, "catalog"@)->0;
            let group = field(c, "group"@)->0;
            &&& text_at(p, "originalFileName"@) == Some(source)
            &&& text_at(p, "origin"@) == Some("external_upload"@)
            &&& text_at(p, "importEntry"@) == Some(entry)
            &&& text_at(p, "uploadBatchId"@) == Some(batch)
            &&& field(p, "catalog"@) is Some
            &&& int_at(c, "version"@) == Some(1int)
            &&& text_at(c, "category"@) == Some("upload"@)
            &&& text_at(c, "origin"@) == Some("local_upload"@)
            &&& field(c, "group"@) is Some
            &&& text_at(group, "type"@) == Some("upload_batch"@)
            &&& text_at(group, "id"@) == Some(batch)
            &&& forall|k: Seq<char>| !is_import_field(k) ==> #[trigger] field(p, k) == lookup(m, k)
        }),
{
    let a = put_member(m, "catalog"@, catalog_value(batch));
    let b = put_member(a, "origin"@, JsonView::Str("external_upload"@));
    let c = put_member(b, "importEntry"@, JsonView::Str(entry));
    let d = put_member(c, "uploadBatchId"@, JsonView::Str(batch));
    lemma_entered(m, "catalog"@, catalog_value(batch));
    lemma_entered(a, "origin"@, JsonView::Str("external_upload"@));
    lemma_entered(b, "importEntry"@, JsonView::Str(entry));
    lemma_entered(c, "uploadBatchId"@, JsonView::Str(batch));
    lemma_entered(d, "originalFileName"@, JsonView::Str(source));
    lemma_catalog(batch);
    let p = file_params(JsonView::Obj(catalog_params(m, entry, batch)), source);
    assert(p->Obj_0 == put_member(d, "originalFileName"@, JsonView::Str(source)));
    assert(text_at(p, "origin"@) == Some("external_upload"@) && text_at(p, "importEntry"@) == Some(
        entry,
    ) && text_at(p, "uploadBatchId"@) == Some(batch) && field(p, "catalog"@) == Some(
        catalog_value(batch),
    )) by {
        reveal_strlit("catalog");
        reveal_strlit("origin");
        reveal_strlit("importEntry");
        reveal_strlit("uploadBatchId");
        reveal_strlit("originalFileName");
        assert("origin"@.len() == 6);
        assert("catalog"@.len() == 7);
        assert("importEntry"@.len() == 11);
        assert("uploadBatchId"@.len() == 13);
        assert("originalFileName"@.len() == 16);
    }
}

/// Files come in through five entries. None takes anything but images and videos; the two for
/// references of pictures take images only, the one for short dramas videos only, and the other
/// two take both.
pub proof fn entries_take_their_kinds(entry: Seq<char>, kind: Seq<char>)
    ensures
        entry_takes(entry, kind) ==> is_import_entry(entry) && (kind == "image"@ || kind
            == "video"@),
        entry_takes("image_reference"@, "image"@) && !entry_takes("image_reference"@, "video"@),
        entry_takes("prompt_library_reference"@, "image"@) && !entry_takes(
            "prompt_library_reference"@,
            "video"@,
        ),
        entry_takes("short_drama_video_reference"@, "video"@) && !entry_takes(
            "short_drama_video_reference"@,
            "image"@,
        ),
        entry_takes("video_reference"@, "image"@) && entry_takes("video_reference"@, "video"@),
        entry_takes("asset_library_upload"@, "image"@) && entry_takes(
            "asset_library_upload"@,
            "video"@,
        ),
        is_import_entry(entry) ==> entry_takes(entry, "image"@) || entry_takes(entry, "video"@),
{
    reveal_strlit("image");
    reveal_strlit("video");
    reveal_strlit("image_reference");
    reveal_strlit("prompt_library_reference");
    reveal_strlit("short_drama_video_reference");
    reveal_strlit("video_reference");
    reveal_strlit("asset_library_upload");
    assert("image"@.len() == 5);
    assert("video"@.len() == 5);
    assert("image"@[0] == 'i');
    assert("video"@[0] == 'v');
    assert("image_reference"@.len() == 15);
    assert("video_reference"@.len() == 15);
    assert("image_reference"@[0] == 'i');
    assert("video_reference"@[0] == 'v');
    assert("asset_library_upload"@.len() == 20);
    assert("prompt_library_reference"@.len() == 24);
    assert("short_drama_video_reference"@.len() == 27);
}

/// A file is taken for an image just where its content is a whole image of a known format, of
/// at most fifty mebibytes, and then has that format; it is taken for a video just where it is
/// no image and its content is a video of the ending of its name.
pub proof fn file_is_taken_for_what_it_holds(source: Seq<char>, bytes: nat, facts: ContentFacts)
    ensures
        ({
            let e = extension_of(source);
            let out = kind_of(source, bytes, facts);
            let is_image = facts.image_format is Some && facts.image_valid && bytes <= 50 * 1024
                * 1024;
            let is_video = facts.image_format is None && facts.video_valid && (e == "mp4"@ || e
                == "webm"@ || e == "mov"@);
            &&& out is Ok <==> is_image || is_video
            &&& is_image ==> out == Ok::<(Seq<char>, Seq<char>), Seq<char>>(
                ("image"@, facts.image_format->0@),
            )
            &&& is_video ==> out == Ok::<(Seq<char>, Seq<char>), Seq<char>>(("video"@, e))
        }),
{
}

/// The ending of a name is what stands behind its last dot, in small letters; a name without a
/// dot has none.
pub proof fn ending_stands_behind_the_last_dot(stem: Seq<char>, ending: Seq<char>)
    requires
        forall|i: int| 0 <= i < ending.len() ==> #[trigger] ending[i] != '.',
    ensures
        extension_of(stem + seq!['.'] + ending) == lowered(ending),
        extension_of(ending) == Seq::<char>::empty(),
{
    lemma_rsplit_once(stem, '.', ending);
    lemma_no_dot(ending);
}

proof fn lemma_no_dot(s: Seq<char>)
    requires
        forall|i: int| 0 <= i < s.len() ==> #[trigger] s[i] != '.',
    ensures
        rsplit_once_at(s, '.') is None,
    decreases s.len(),
{
    if s.len() > 0 {
        assert(s.last() == s[s.len() - 1]);
        assert forall|i: int| 0 <= i < s.drop_last().len() implies #[trigger] s.drop_last()[i]
            != '.' by {
            assert(s.drop_last()[i] == s[i]);
        }
        lemma_no_dot(s.drop_last());
    }
}

/// A file is read under its own name and with its own content: from its path as it is found
/// there, or as it was handed over; and only where it has at most 512 mebibytes.
pub proof fn file_is_read_as_it_is(
    file: AssetImportFile,
    fact: Result<PathFact, String>,
    content: Result<PathContent, String>,
)
    requires
        read_file(file, fact, content) is Ok,
    ensures
        ({
            let (name, bytes) = read_file(file, fact, content)->Ok_0;
            match file {
                AssetImportFile::Path { .. } => {
                    &&& fact is Ok && fact->Ok_0.is_file && fact->Ok_0.bytes <= 512 * 1024 * 1024
                    &&& content is Ok && bytes == content->Ok_0.bytes@
                    &&& content->Ok_0.name is Some && !is_blank(content->Ok_0.name->0@) ==> name
                        == content->Ok_0.name->0@
                    &&& content->Ok_0.name is None || is_blank(content->Ok_0.name->0@) ==> name
                        == "外部文件"@
                },
                AssetImportFile::Bytes { file_name, data_base64 } => {
                    &&& !is_blank(file_name@) && name == file_name@
                    &&& base64_decoded(data_base64@) == Ok::<Seq<u8>, Seq<char>>(bytes)
                    &&& bytes.len() <= 512 * 1024 * 1024
                },
            }
        }),
{
}

/// The length of a batch is that of its files together, and neither a file nor the batch is
/// longer than 512 mebibytes.
pub proof fn batch_is_as_long_as_its_files(
    files: Seq<AssetImportFile>,
    facts: Seq<Result<PathFact, String>>,
    file: AssetImportFile,
    fact: Result<PathFact, String>,
    total: int,
)
    requires
        files.len() == facts.len(),
        batch_length(files.push(file), facts.push(fact)) == Ok::<int, Seq<char>>(total),
    ensures
        batch_length(files, facts) is Ok,
        declared_length(file, fact) is Ok,
        total == batch_length(files, facts)->Ok_0 + declared_length(file, fact)->Ok_0,
        declared_length(file, fact)->Ok_0 <= 512 * 1024 * 1024,
        total <= 512 * 1024 * 1024,
        batch_length(Seq::empty(), Seq::empty()) == Ok::<int, Seq<char>>(0),
{
    assert(files.push(file).drop_last() =~= files);
    assert(facts.push(fact).drop_last() =~= facts);
}

/// A batch is accepted before it is read just where it has one to eight files that are not too
/// long, comes through a known entry, names its batch and has parameters that are an object.
pub proof fn batch_is_accepted_when_complete(
    input: AssetImportFilesInput,
    facts: Seq<Result<PathFact, String>>,
)
    ensures
        import_refusal(input, facts) is None <==> {
            &&& 1 <= input.files.len() <= 8
            &&& is_import_entry(trimmed(input.import_entry@))
            &&& !is_blank(input.upload_batch_id@)
            &&& input.params@ is Obj
            &&& batch_length(input.files@, facts) is Ok
        },
{
}

/// Files are imported only into a project that is listed by its own identifier.
pub proof fn project_is_listed_by_its_identifier(projects: Seq<JsonView>, id: Seq<char>)
    ensures
        names_project(JsonView::Arr(projects), id) <==> exists|i: int|
            0 <= i < projects.len() && text_at(#[trigger] projects[i], "id"@) == Some(id),
{
}

/// What is stored of an imported file names its source and its project, and holds its
/// parameters.
pub proof fn stored_file_names_its_project(source: Seq<char>, project: Seq<char>, params: JsonView)
    ensures
        text_at(import_metadata_value(source, project, params), "source"@) == Some(source),
        text_at(import_metadata_value(source, project, params), "projectId"@) == Some(project),
        field(import_metadata_value(source, project, params), "params"@) == Some(
            file_params(params, source),
        ),
{
    broadcast use lemma_lookup_push;

    reveal_strlit("source");
    reveal_strlit("projectId");
    reveal_strlit("params");
    assert("source"@.len() == 6);
    assert("params"@.len() == 6);
    assert("source"@[0] == 's');
    assert("params"@[0] == 'p');
    assert("projectId"@.len() == 9);
}

/// What is said of an entry agrees with what it takes.
pub proof fn refusal_says_what_is_taken(entry: Seq<char>)
    requires
        is_import_entry(entry),
    ensures
        required_kind(entry) == "图片"@ <==> entry_takes(entry, "image"@) && !entry_takes(
            entry,
            "video"@,
        ),
        required_kind(entry) == "视频"@ <==> entry_takes(entry, "video"@) && !entry_takes(
            entry,
            "image"@,
        ),
        required_kind(entry) == "图片或视频"@ <==> entry_takes(entry, "image"@) && entry_takes(
            entry,
            "video"@,
        ),
{
    reveal_strlit("图片");
    reveal_strlit("视频");
    reveal_strlit("图片或视频");
    reveal_strlit("image");
    reveal_strlit("video");
    reveal_strlit("image_reference");
    reveal_strlit("prompt_library_reference");
    reveal_strlit("short_drama_video_reference");
    reveal_strlit("video_reference");
    reveal_strlit("asset_library_upload");
    assert("图片"@.len() == 2);
    assert("视频"@.len() == 2);
    assert("图片"@[0] == '图');
    assert("视频"@[0] == '视');
    assert("图片或视频"@.len() == 5);
    assert("image"@.len() == 5);
    assert("video"@.len() == 5);
    assert("图片或视频"@[0] == '图');
    assert("image"@[0] == 'i');
    assert("video"@[0] == 'v');
    assert("image_reference"@.len() == 15);
    assert("video_reference"@.len() == 15);
    assert("image_reference"@[0] == 'i');
    assert("video_reference"@[0] == 'v');
    assert("asset_library_upload"@.len() == 20);
    assert("prompt_library_reference"@.len() == 24);
    assert("short_drama_video_reference"@.len() == 27);
}

/// A file counts for as many bytes as it has; one in base64 for three bytes in four characters.
pub proof fn file_counts_for_its_bytes(file: AssetImportFile, fact: Result<PathFact, String>)
    ensures
        match file {
            AssetImportFile::Path { .. } => {
                &&& declared_length(file, fact) is Ok <==> fact is Ok && fact->Ok_0.is_file
                &&& fact is Ok && fact->Ok_0.is_file ==> declared_length(file, fact)->Ok_0
                    == fact->Ok_0.bytes
            },
            AssetImportFile::Bytes { file_name, data_base64 } => {
                &&& declared_length(file, fact) is Ok <==> !is_blank(file_name@)
                &&& !is_blank(file_name@) ==> declared_length(file, fact)->Ok_0 == 3 * (byte_length(
                    data_base64@,
                ) / 4)
            },
        },
{
}

} // verus!
