//! Files from outside that enter the library of assets.
use crate::commands::AssetRef;
use crate::json::{
    copy_members, entered_member_is_found, field, fields, items_view, json_parsed, json_text_value,
    no_members, other_members_stay, put_member, set_member, text_at, Json, JsonView,
};
use crate::outside::{base64_decoded, decode_base64};
use crate::sequence::find_first;
use crate::text::{
    blank, byte_count, byte_length, concat2, concat3, is_blank, is_text, lowered, opt_view, owned,
    result_view, rsplit_once, rsplit_once_at, same, texts_view, to_ascii_lowercase, trim, trimmed,
};
use vstd::prelude::*;

verus! {

/// The most files of a batch.
pub const MAX_IMPORT_FILES: usize = 8;

/// The largest image, in bytes.
pub const MAX_IMAGE_IMPORT_BYTES: usize = 52_428_800;

/// The largest video, in bytes.
pub const MAX_VIDEO_IMPORT_BYTES: u64 = 536_870_912;

/// The most bytes of a batch: as one unit, no more than one video.
pub const MAX_BATCH_IMPORT_BYTES: u64 = 536_870_912;

/// The longest base64 text of a file, in bytes.
pub const MAX_IMPORT_BASE64_BYTES: usize = 715_827_884;

#[derive(Debug)]
pub struct AssetImportFilesInput {
    pub project_id: String,
    pub import_entry: String,
    pub upload_batch_id: String,
    pub files: Vec<AssetImportFile>,
    pub params: Json,
}

/// A file to be imported: by its path, or by its name and its content in base64.
#[derive(Debug)]
pub enum AssetImportFile {
    Path { path: String },
    Bytes { file_name: String, data_base64: String },
}

#[derive(Debug)]
pub struct ImportedLibraryAsset {
    pub asset: AssetRef,
    pub source: String,
    pub project_id: String,
    pub params: Json,
    pub created_at: i64,
}

/// A file that has passed the checks.
#[derive(Debug)]
pub struct PendingImport {
    pub source: String,
    pub bytes: Vec<u8>,
    pub kind: String,
    pub format: String,
}

// ---------------------------------------------------------------------------
// Entries
// ---------------------------------------------------------------------------

/// The entries through which files come in.
pub open spec fn is_import_entry(entry: Seq<char>) -> bool {
    ||| entry == "image_reference"@
    ||| entry == "prompt_library_reference"@
    ||| entry == "video_reference"@
    ||| entry == "short_drama_video_reference"@
    ||| entry == "asset_library_upload"@
}

/// Whether an entry takes a kind of file.
pub open spec fn entry_takes(entry: Seq<char>, kind: Seq<char>) -> bool {
    if entry == "image_reference"@ || entry == "prompt_library_reference"@ {
        kind == "image"@
    } else if entry == "short_drama_video_reference"@ {
        kind == "video"@
    } else if entry == "video_reference"@ || entry == "asset_library_upload"@ {
        kind == "image"@ || kind == "video"@
    } else {
        false
    }
}

/// Whether files may come in through an entry.
pub fn import_entry_is_allowed(entry: &str) -> (r: bool)
    ensures
        r == is_import_entry(entry@),
{
    same(entry, "image_reference") || same(entry, "prompt_library_reference") || same(
        entry,
        "video_reference",
    ) || same(entry, "short_drama_video_reference") || same(entry, "asset_library_upload")
}

/// Whether an entry takes a kind of file.
pub fn import_entry_allows_kind(entry: &str, kind: &str) -> (r: bool)
    ensures
        r == entry_takes(entry@, kind@),
{
    if same(entry, "image_reference") || same(entry, "prompt_library_reference") {
        same(kind, "image")
    } else if same(entry, "short_drama_video_reference") {
        same(kind, "video")
    } else if same(entry, "video_reference") || same(entry, "asset_library_upload") {
        same(kind, "image") || same(kind, "video")
    } else {
        false
    }
}

// ---------------------------------------------------------------------------
// Reading
// ---------------------------------------------------------------------------

/// The content of a file in base64, or why it is refused.
pub open spec fn decoded_import(value: Seq<char>) -> Result<Seq<u8>, Seq<char>> {
    if byte_length(value) > MAX_IMPORT_BASE64_BYTES {
        Err("导入文件超过 512 MiB 大小限制"@)
    } else {
        match base64_decoded(value) {
            Ok(b) => Ok(b),
            Err(_) => Err("导入文件内容不是有效的 base64"@),
        }
    }
}

/// Decodes the content of a file; a text that is too long is refused before it is decoded.
pub fn decode_import_base64(value: &str) -> (r: Result<Vec<u8>, String>)
    ensures
        result_view(r) == decoded_import(value@),
{
    if byte_count(value) > MAX_IMPORT_BASE64_BYTES {
        return Err(owned("导入文件超过 512 MiB 大小限制"));
    }
    import_bytes(decode_base64(value))
}

/// The content of a file, from what decoding its base64 text gave.
pub fn import_bytes(decoded: Result<Vec<u8>, String>) -> (r: Result<Vec<u8>, String>)
    ensures
        match decoded {
            Ok(b) => r matches Ok(v) && v@ == b@,
            Err(_) => r matches Err(e) && e@ == "导入文件内容不是有效的 base64"@,
        },
{
    match decoded {
        Ok(b) => Ok(b),
        Err(_) => Err(owned("导入文件内容不是有效的 base64")),
    }
}

/// The name of a file by the last part of its path, or a general one.
pub fn file_name(name: Option<&str>) -> (r: String)
    ensures
        r@ == match name {
            Some(n) => if is_blank(n@) {
                "外部文件"@
            } else {
                n@
            },
            None => "外部文件"@,
        },
{
    match name {
        Some(n) => if blank(n) {
            owned("外部文件")
        } else {
            owned(n)
        },
        None => owned("外部文件"),
    }
}

/// What is known of a path before it is read: whether it is a file, and how long.
#[derive(Debug)]
pub struct PathFact {
    pub is_file: bool,
    pub bytes: u64,
}

/// What is read of a file: its name by the path, where it has one, and its content.
#[derive(Debug)]
pub struct PathContent {
    pub name: Option<String>,
    pub bytes: Vec<u8>,
}

/// How long a file is before it is read: of a content in base64 about as long as it will be.
pub open spec fn declared_length(file: AssetImportFile, fact: Result<PathFact, String>) -> Result<
    int,
    Seq<char>,
> {
    match file {
        AssetImportFile::Path { .. } => match fact {
            Err(e) => Err(e@),
            Ok(f) => if f.is_file {
                Ok(f.bytes as int)
            } else {
                Err("导入目标必须是文件"@)
            },
        },
        AssetImportFile::Bytes { file_name, data_base64 } => if is_blank(file_name@) {
            Err("导入文件名不能为空"@)
        } else {
            Ok((byte_length(data_base64@) / 4 * 3) as int)
        },
    }
}

/// Tells how long a file is before it is read. `fact` is what is known of the path, or why it
/// cannot be read; of a content in base64 it is not looked at.
pub fn input_len(file: &AssetImportFile, fact: &Result<PathFact, String>) -> (r: Result<u64, String>)
    ensures
        match declared_length(*file, *fact) {
            Ok(n) => r matches Ok(len) && len == n,
            Err(e) => r matches Err(f) && f@ == e,
        },
{
    match file {
        AssetImportFile::Path { .. } => match fact {
            Err(e) => Err(e.clone()),
            Ok(f) => if f.is_file {
                Ok(f.bytes)
            } else {
                Err(owned("导入目标必须是文件"))
            },
        },
        AssetImportFile::Bytes { file_name, data_base64 } => if blank(file_name.as_str()) {
            Err(owned("导入文件名不能为空"))
        } else {
            let n: usize = byte_count(data_base64.as_str());
            assert(n / 4 * 3 <= n) by (nonlinear_arith);
            Ok((n / 4 * 3) as u64)
        },
    }
}

/// The name and the content of a file, or why it is refused. `fact` and `content` are what is
/// known of the path.
pub open spec fn read_file(
    file: AssetImportFile,
    fact: Result<PathFact, String>,
    content: Result<PathContent, String>,
) -> Result<(Seq<char>, Seq<u8>), Seq<char>> {
    match file {
        AssetImportFile::Path { .. } => match fact {
            Err(e) => Err(e@),
            Ok(f) => if !f.is_file {
                Err("导入目标必须是文件"@)
            } else if f.bytes > MAX_VIDEO_IMPORT_BYTES {
                Err("导入文件超过 512 MiB 大小限制"@)
            } else {
                match content {
                    Err(e) => Err(e@),
                    Ok(c) => Ok(
                        (
                            match opt_view(c.name) {
                                Some(n) => if is_blank(n) {
                                    "外部文件"@
                                } else {
                                    n
                                },
                                None => "外部文件"@,
                            },
                            c.bytes@,
                        ),
                    ),
                }
            },
        },
        AssetImportFile::Bytes { file_name, data_base64 } => if is_blank(file_name@) {
            Err("导入文件名不能为空"@)
        } else {
            match decoded_import(data_base64@) {
                Err(e) => Err(e),
                Ok(b) => if b.len() > MAX_VIDEO_IMPORT_BYTES {
                    Err("导入文件超过 512 MiB 大小限制"@)
                } else {
                    Ok((file_name@, b))
                },
            }
        },
    }
}

/// Reads a file: its name and its content.
pub fn read_input(
    file: &AssetImportFile,
    fact: &Result<PathFact, String>,
    content: Result<PathContent, String>,
) -> (r: Result<(String, Vec<u8>), String>)
    ensures
        match read_file(*file, *fact, content) {
            Ok(p) => r matches Ok(q) && q.0@ == p.0 && q.1@ == p.1,
            Err(e) => r matches Err(f) && f@ == e,
        },
{
    match file {
        AssetImportFile::Path { .. } => {
            match fact {
                Err(e) => return Err(e.clone()),
                Ok(f) => {
                    if !f.is_file {
                        return Err(owned("导入目标必须是文件"));
                    }
                    if f.bytes > MAX_VIDEO_IMPORT_BYTES {
                        return Err(owned("导入文件超过 512 MiB 大小限制"));
                    }
                },
            }
            match content {
                Err(e) => Err(e),
                Ok(c) => {
                    let name = match &c.name {
                        Some(n) => file_name(Some(n.as_str())),
                        None => file_name(None),
                    };
                    Ok((name, c.bytes))
                },
            }
        },
        AssetImportFile::Bytes { file_name, data_base64 } => {
            if blank(file_name.as_str()) {
                return Err(owned("导入文件名不能为空"));
            }
            match decode_import_base64(data_base64.as_str()) {
                Err(e) => Err(e),
                Ok(b) => if b.len() > 536_870_912 {
                    Err(owned("导入文件超过 512 MiB 大小限制"))
                } else {
                    Ok((file_name.clone(), b))
                },
            }
        },
    }
}

// ---------------------------------------------------------------------------
// Kinds
// ---------------------------------------------------------------------------

/// The extension of a name in small letters; empty where it has none.
pub open spec fn extension_of(source: Seq<char>) -> Seq<char> {
    match rsplit_once_at(source, '.') {
        Some(p) => lowered(p.1),
        None => Seq::empty(),
    }
}

/// The extension of a name in small letters.
pub fn source_extension(source: &str) -> (r: String)
    ensures
        r@ == extension_of(source@),
{
    match rsplit_once(source, '.') {
        Some(p) => to_ascii_lowercase(p.1.as_str()),
        None => String::new(),
    }
}

/// What the content of a file was recognised as: the format of an image, whether that image
/// can be decoded, and whether it is a video of the extension of its name.
#[derive(Debug)]
pub struct ContentFacts {
    pub image_format: Option<String>,
    pub image_valid: bool,
    pub video_valid: bool,
}

/// Whether videos have an extension.
pub open spec fn is_video_extension(s: Seq<char>) -> bool {
    s == "mp4"@ || s == "webm"@ || s == "mov"@
}

/// The kind and the format of a file by its content, or why it is refused.
pub open spec fn kind_of(source: Seq<char>, bytes: nat, facts: ContentFacts) -> Result<
    (Seq<char>, Seq<char>),
    Seq<char>,
> {
    match opt_view(facts.image_format) {
        Some(format) => if bytes > MAX_IMAGE_IMPORT_BYTES {
            Err("图片“"@ + source + "”超过 50 MiB 大小限制"@)
        } else if !facts.image_valid {
            Err("图片“"@ + source + "”内容格式校验失败"@)
        } else {
            Ok(("image"@, format))
        },
        None => if is_video_extension(extension_of(source)) && facts.video_valid {
            Ok(("video"@, extension_of(source)))
        } else {
            Err(
                "仅支持内容校验通过的 PNG、JPG、WebP、GIF、BMP、MP4、WebM 或 MOV 文件"@,
            )
        },
    }
}

/// Decides the kind of a file by its content.
pub fn classify(source: String, bytes: Vec<u8>, facts: &ContentFacts) -> (r: Result<
    PendingImport,
    String,
>)
    ensures
        match kind_of(source@, bytes@.len(), *facts) {
            Ok(k) => r matches Ok(p) && p.source@ == source@ && p.bytes@ == bytes@ && p.kind@ == k.0
                && p.format@ == k.1,
            Err(e) => r matches Err(f) && f@ == e,
        },
{
    match &facts.image_format {
        Some(format) => {
            if bytes.len() > MAX_IMAGE_IMPORT_BYTES {
                return Err(concat3("图片“", source.as_str(), "”超过 50 MiB 大小限制"));
            }
            if !facts.image_valid {
                return Err(concat3("图片“", source.as_str(), "”内容格式校验失败"));
            }
            Ok(PendingImport { source, bytes, kind: owned("image"), format: format.clone() })
        },
        None => {
            let extension = source_extension(source.as_str());
            let e = extension.as_str();
            if (same(e, "mp4") || same(e, "webm") || same(e, "mov")) && facts.video_valid {
                return Ok(
                    PendingImport { source, bytes, kind: owned("video"), format: owned(e) },
                );
            }
            Err(
                owned("仅支持内容校验通过的 PNG、JPG、WebP、GIF、BMP、MP4、WebM 或 MOV 文件"),
            )
        },
    }
}

/// Whether a file is of a kind that an entry does not take.
pub open spec fn is_refused_by(entry: Seq<char>) -> spec_fn(PendingImport) -> bool {
    |p: PendingImport| !entry_takes(entry, p.kind@)
}

/// What an entry takes, in words.
pub open spec fn required_kind(entry: Seq<char>) -> Seq<char> {
    if entry == "image_reference"@ || entry == "prompt_library_reference"@ {
        "图片"@
    } else if entry == "short_drama_video_reference"@ {
        "视频"@
    } else {
        "图片或视频"@
    }
}

/// Checks that an entry takes every file of a batch; the first that it does not take is named.
pub fn check_kinds(entry: &str, pending: &Vec<PendingImport>) -> (r: Result<(), String>)
    ensures
        match find_first(pending@, is_refused_by(entry@)) {
            Some(p) => r matches Err(e) && e@ == entry@ + " 只接受实际"@ + required_kind(entry@)
                + "文件，未导入“"@ + p.source@ + "”"@,
            None => r is Ok,
        },
{
    let mut i: usize = 0;
    while i < pending.len()
        invariant
            i <= pending.len(),
            forall|j: int| 0 <= j < i ==> !is_refused_by(entry@)(#[trigger] pending@[j]),
        decreases pending.len() - i,
    {
        if !import_entry_allows_kind(entry, pending[i].kind.as_str()) {
            proof {
                crate::sequence::lemma_find_first(pending@, is_refused_by(entry@), i as int);
            }
            let mut out = owned(entry);
            out.append(" 只接受实际");
            out.append(
                if same(entry, "image_reference") || same(entry, "prompt_library_reference") {
                    "图片"
                } else if same(entry, "short_drama_video_reference") {
                    "视频"
                } else {
                    "图片或视频"
                },
            );
            out.append("文件，未导入“");
            out.append(pending[i].source.as_str());
            out.append("”");
            return Err(out);
        }
        i += 1;
    }
    proof {
        crate::sequence::lemma_find_first(pending@, is_refused_by(entry@), i as int);
    }
    Ok(())
}

/// Where a batch is accepted, its entry takes every file of it.
pub proof fn accepted_batch_is_of_its_kind(entry: Seq<char>, pending: Seq<PendingImport>)
    requires
        find_first(pending, is_refused_by(entry)) is None,
    ensures
        forall|i: int| 0 <= i < pending.len() ==> entry_takes(entry, (#[trigger] pending[i]).kind@),
    decreases pending.len(),
{
    if pending.len() > 0 {
        let rest = pending.subrange(1, pending.len() as int);
        assert(!is_refused_by(entry)(pending[0]));
        accepted_batch_is_of_its_kind(entry, rest);
        assert forall|i: int| 0 <= i < pending.len() implies entry_takes(
            entry,
            (#[trigger] pending[i]).kind@,
        ) by {
            if i > 0 {
                assert(rest[i - 1] == pending[i]);
            }
        }
    }
}

// ---------------------------------------------------------------------------
// Requests
// ---------------------------------------------------------------------------

/// The mark of a file that was uploaded in a batch.
pub open spec fn catalog_value(batch: Seq<char>) -> JsonView {
    JsonView::Obj(
        no_members()
            .push(("version"@, JsonView::Int(1)))
            .push(("category"@, JsonView::Str("upload"@)))
            .push(("origin"@, JsonView::Str("local_upload"@)))
            .push(
            (
                "group"@,
                JsonView::Obj(
                    no_members()
                        .push(("type"@, JsonView::Str("upload_batch"@)))
                        .push(("id"@, JsonView::Str(batch))),
                ),
            ),
        ),
    )
}

/// The parameters of the files of a batch.
pub open spec fn catalog_params(
    m: Seq<(Seq<char>, JsonView)>,
    entry: Seq<char>,
    batch: Seq<char>,
) -> Seq<(Seq<char>, JsonView)> {
    put_member(
        put_member(
            put_member(
                put_member(m, "catalog"@, catalog_value(batch)),
                "origin"@,
                JsonView::Str("external_upload"@),
            ),
            "importEntry"@,
            JsonView::Str(entry),
        ),
        "uploadBatchId"@,
        JsonView::Str(batch),
    )
}

/// The parameters of the files of a batch: where they come from is set here, whatever the
/// request says.
pub fn catalog_metadata(params: &Json, entry: &str, batch: &str) -> (r: Result<Json, String>)
    ensures
        match params@ {
            JsonView::Obj(m) => r matches Ok(j) && j@ == JsonView::Obj(
                catalog_params(m, entry@, batch@),
            ),
            _ => r matches Err(e) && e@ == "导入资产 params 必须是对象"@,
        },
{
    broadcast use {crate::json::lemma_arr_view, crate::json::lemma_obj_view};

    let members = match params.as_object() {
        Some(members) => copy_members(members),
        None => return Err(owned("导入资产 params 必须是对象")),
    };
    let group = fields().text("type", "upload_batch").text("id", batch).object();
    let catalog = fields().number("version", 1).text("category", "upload").text(
        "origin",
        "local_upload",
    ).with("group", group).object();
    let members = set_member(members, "catalog", catalog);
    let members = set_member(members, "origin", json_text_value("external_upload"));
    let members = set_member(members, "importEntry", json_text_value(entry));
    let members = set_member(members, "uploadBatchId", json_text_value(batch));
    Ok(Json::Obj(members))
}

/// Every file of a batch is marked as uploaded, with its entry and its batch, whatever the
/// parameters of the request say.
pub proof fn imported_files_are_marked(
    m: Seq<(Seq<char>, JsonView)>,
    entry: Seq<char>,
    batch: Seq<char>,
)
    ensures
        field(JsonView::Obj(catalog_params(m, entry, batch)), "catalog"@) == Some(
            catalog_value(batch),
        ),
        text_at(JsonView::Obj(catalog_params(m, entry, batch)), "origin"@) == Some(
            "external_upload"@,
        ),
        text_at(JsonView::Obj(catalog_params(m, entry, batch)), "importEntry"@) == Some(entry),
        text_at(JsonView::Obj(catalog_params(m, entry, batch)), "uploadBatchId"@) == Some(batch),
{
    reveal_strlit("catalog");
    reveal_strlit("origin");
    reveal_strlit("importEntry");
    reveal_strlit("uploadBatchId");
    assert("catalog"@.len() == 7 && "origin"@.len() == 6);
    assert("importEntry"@.len() == 11 && "uploadBatchId"@.len() == 13);
    let m1 = put_member(m, "catalog"@, catalog_value(batch));
    let m2 = put_member(m1, "origin"@, JsonView::Str("external_upload"@));
    let m3 = put_member(m2, "importEntry"@, JsonView::Str(entry));
    entered_member_is_found(m, "catalog"@, catalog_value(batch));
    other_members_stay(m1, "origin"@, JsonView::Str("external_upload"@), "catalog"@);
    other_members_stay(m2, "importEntry"@, JsonView::Str(entry), "catalog"@);
    other_members_stay(m3, "uploadBatchId"@, JsonView::Str(batch), "catalog"@);
    entered_member_is_found(m1, "origin"@, JsonView::Str("external_upload"@));
    other_members_stay(m2, "importEntry"@, JsonView::Str(entry), "origin"@);
    other_members_stay(m3, "uploadBatchId"@, JsonView::Str(batch), "origin"@);
    entered_member_is_found(m2, "importEntry"@, JsonView::Str(entry));
    other_members_stay(m3, "uploadBatchId"@, JsonView::Str(batch), "importEntry"@);
    entered_member_is_found(m3, "uploadBatchId"@, JsonView::Str(batch));
}

/// How long the files of a batch are together, or the first reason to refuse one.
pub open spec fn batch_length(
    files: Seq<AssetImportFile>,
    facts: Seq<Result<PathFact, String>>,
) -> Result<int, Seq<char>>
    decreases files.len(),
{
    if files.len() == 0 || facts.len() != files.len() {
        Ok(0)
    } else {
        match batch_length(files.drop_last(), facts.drop_last()) {
            Err(e) => Err(e),
            Ok(before) => match declared_length(files.last(), facts.last()) {
                Err(e) => Err(e),
                Ok(n) => if n > MAX_VIDEO_IMPORT_BYTES {
                    Err("导入文件超过 512 MiB 大小限制"@)
                } else if before + n > MAX_BATCH_IMPORT_BYTES {
                    Err("导入批次超过 512 MiB 大小限制"@)
                } else {
                    Ok(before + n)
                },
            },
        }
    }
}

proof fn lemma_batch_fails(
    files: Seq<AssetImportFile>,
    facts: Seq<Result<PathFact, String>>,
    k: int,
)
    requires
        0 <= k <= files.len() == facts.len(),
        batch_length(files.take(k), facts.take(k)) is Err,
    ensures
        batch_length(files, facts) == batch_length(files.take(k), facts.take(k)),
    decreases files.len() - k,
{
    if k == files.len() {
        assert(files.take(k) =~= files && facts.take(k) =~= facts);
    } else {
        assert(files.take(k + 1).drop_last() =~= files.take(k));
        assert(facts.take(k + 1).drop_last() =~= facts.take(k));
        lemma_batch_fails(files, facts, k + 1);
    }
}

/// Checks how long the files of a batch are before any of them is read; there is a fact for
/// each file.
pub fn check_batch_length(
    files: &Vec<AssetImportFile>,
    facts: &Vec<Result<PathFact, String>>,
) -> (r: Result<u64, String>)
    requires
        facts.len() == files.len(),
    ensures
        match batch_length(files@, facts@) {
            Ok(n) => r matches Ok(total) && total == n,
            Err(e) => r matches Err(f) && f@ == e,
        },
{
    let mut total: u64 = 0;
    let mut i: usize = 0;
    while i < files.len()
        invariant
            i <= files.len() == facts.len(),
            total <= MAX_BATCH_IMPORT_BYTES,
            batch_length(files@.take(i as int), facts@.take(i as int)) matches Ok(n) && n == total,
        decreases files.len() - i,
    {
        proof {
            assert(files@.take(i + 1).drop_last() =~= files@.take(i as int));
            assert(facts@.take(i + 1).drop_last() =~= facts@.take(i as int));
            assert(files@.take(i + 1).last() == files@[i as int]);
            assert(facts@.take(i + 1).last() == facts@[i as int]);
            if batch_length(files@.take(i + 1), facts@.take(i + 1)) is Err {
                lemma_batch_fails(files@, facts@, i + 1);
            }
        }
        let n: u64 = match input_len(&files[i], &facts[i]) {
            Ok(n) => n,
            Err(e) => return Err(e),
        };
        if n > MAX_VIDEO_IMPORT_BYTES {
            return Err(owned("导入文件超过 512 MiB 大小限制"));
        }
        total = total + n;
        if total > MAX_BATCH_IMPORT_BYTES {
            return Err(owned("导入批次超过 512 MiB 大小限制"));
        }
        i += 1;
    }
    assert(files@.take(i as int) =~= files@ && facts@.take(i as int) =~= facts@);
    Ok(total)
}

/// A batch that has passed the checks before its files are read.
#[derive(Debug)]
pub struct ImportRequest {
    pub project_id: String,
    pub import_entry: String,
    pub upload_batch_id: String,
    pub params: Json,
}

/// Why a batch is refused before its files are read, where it is.
pub open spec fn import_refusal(
    input: AssetImportFilesInput,
    facts: Seq<Result<PathFact, String>>,
) -> Option<Seq<char>> {
    if input.files.len() == 0 || input.files.len() > MAX_IMPORT_FILES {
        Some("一次请选择 1 到 8 个文件"@)
    } else if !is_import_entry(trimmed(input.import_entry@)) {
        Some("未知的外部导入入口"@)
    } else if is_blank(input.upload_batch_id@) {
        Some("导入批次 ID 不能为空"@)
    } else if !(input.params@ is Obj) {
        Some("导入资产 params 必须是对象"@)
    } else {
        match batch_length(input.files@, facts) {
            Err(e) => Some(e),
            Ok(_) => None,
        }
    }
}

/// Checks a batch before its files are read; there is a fact for each file.
pub fn prepare_import(
    input: &AssetImportFilesInput,
    facts: &Vec<Result<PathFact, String>>,
) -> (r: Result<ImportRequest, String>)
    requires
        facts.len() == input.files.len(),
    ensures
        match import_refusal(*input, facts@) {
            Some(e) => r matches Err(f) && f@ == e,
            None => {
                &&& r is Ok
                &&& r->Ok_0.project_id@ == trimmed(input.project_id@)
                &&& r->Ok_0.import_entry@ == trimmed(input.import_entry@)
                &&& r->Ok_0.upload_batch_id@ == trimmed(input.upload_batch_id@)
                &&& r->Ok_0.params@ == JsonView::Obj(
                    catalog_params(
                        input.params@->Obj_0,
                        trimmed(input.import_entry@),
                        trimmed(input.upload_batch_id@),
                    ),
                )
            },
        },
{
    let project_id = trim(input.project_id.as_str());
    let import_entry = trim(input.import_entry.as_str());
    let upload_batch_id = trim(input.upload_batch_id.as_str());
    if input.files.len() == 0 || input.files.len() > MAX_IMPORT_FILES {
        return Err(owned("一次请选择 1 到 8 个文件"));
    }
    if !import_entry_is_allowed(import_entry.as_str()) {
        return Err(owned("未知的外部导入入口"));
    }
    if upload_batch_id.as_str().is_empty() {
        return Err(owned("导入批次 ID 不能为空"));
    }
    let params = match catalog_metadata(
        &input.params,
        import_entry.as_str(),
        upload_batch_id.as_str(),
    ) {
        Ok(params) => params,
        Err(e) => return Err(e),
    };
    match check_batch_length(&input.files, facts) {
        Ok(_) => {},
        Err(e) => return Err(e),
    }
    Ok(ImportRequest { project_id, import_entry, upload_batch_id, params })
}

// ---------------------------------------------------------------------------
// Projects and rows
// ---------------------------------------------------------------------------

/// Whether a list of projects names one.
pub open spec fn names_project(projects: JsonView, id: Seq<char>) -> bool {
    match projects {
        JsonView::Arr(items) => exists|i: int|
            0 <= i < items.len() && text_at(#[trigger] items[i], "id"@) == Some(id),
        _ => false,
    }
}

/// Decides whether a list of projects names one.
pub fn project_is_listed(projects: &Json, id: &str) -> (r: bool)
    ensures
        r == names_project(projects@, id@),
{
    broadcast use {crate::json::lemma_arr_view, crate::json::lemma_obj_view};

    let items = match projects.as_array() {
        Some(items) => items,
        None => return false,
    };
    let ghost views = items_view(items@);
    let mut i: usize = 0;
    while i < items.len()
        invariant
            i <= items.len(),
            views == items_view(items@),
            projects@ == JsonView::Arr(views),
            forall|j: int| 0 <= j < i ==> text_at(#[trigger] views[j], "id"@) != Some(id@),
        decreases items.len() - i,
    {
        assert(views[i as int] == items@[i as int]@);
        if is_text(items[i].text_at("id"), id) {
            assert(text_at(views[i as int], "id"@) == Some(id@));
            return true;
        }
        i += 1;
    }
    false
}

/// Checks that a project is there; `stored` is the stored list of projects as text.
pub fn verify_project(project_id: &str, stored: Option<&str>) -> (r: Result<(), String>)
    ensures
        if is_blank(project_id@) {
            r matches Err(e) && e@ == "导入资产必须指定项目"@
        } else if stored is Some && json_parsed(stored->0@) is Some && names_project(
            json_parsed(stored->0@)->0,
            project_id@,
        ) {
            r is Ok
        } else {
            r matches Err(e) && e@ == "项目不存在，不能导入资产"@
        },
{
    if blank(project_id) {
        return Err(owned("导入资产必须指定项目"));
    }
    match stored {
        Some(text) => match Json::from_text(text) {
            Some(projects) => if project_is_listed(&projects, project_id) {
                return Ok(());
            },
            None => {},
        },
        None => {},
    }
    Err(owned("项目不存在，不能导入资产"))
}

/// The parameters of a file.
pub open spec fn file_params(params: JsonView, source: Seq<char>) -> JsonView {
    match params {
        JsonView::Obj(m) => JsonView::Obj(
            put_member(m, "originalFileName"@, JsonView::Str(source)),
        ),
        _ => params,
    }
}

/// The parameters of a file: those of its batch, with its name.
pub fn asset_params(params: &Json, source: &str) -> (r: Json)
    requires
        params@ is Obj,
    ensures
        r@ == file_params(params@, source@),
{
    broadcast use {crate::json::lemma_arr_view, crate::json::lemma_obj_view};

    match params.as_object() {
        Some(members) => Json::Obj(
            set_member(copy_members(members), "originalFileName", json_text_value(source)),
        ),
        None => params.copy(),
    }
}

/// The metadata that is stored with a file.
pub open spec fn import_metadata_value(
    source: Seq<char>,
    project: Seq<char>,
    params: JsonView,
) -> JsonView {
    JsonView::Obj(
        no_members()
            .push(("source"@, JsonView::Str(source)))
            .push(("projectId"@, JsonView::Str(project)))
            .push(("params"@, file_params(params, source))),
    )
}

/// The metadata that is stored with a file.
pub fn import_metadata(source: &str, project_id: &str, params: &Json) -> (r: Json)
    requires
        params@ is Obj,
    ensures
        r@ == import_metadata_value(source@, project_id@, params@),
{
    fields().text("source", source).text("projectId", project_id).with(
        "params",
        asset_params(params, source),
    ).object()
}

/// A file that was imported.
pub fn imported_asset(
    asset: AssetRef,
    source: &str,
    project_id: &str,
    params: &Json,
    created_at: i64,
) -> (r: ImportedLibraryAsset)
    requires
        params@ is Obj,
    ensures
        r.asset == asset,
        r.source@ == source@,
        r.project_id@ == project_id@,
        r.params@ == file_params(params@, source@),
        r.created_at == created_at,
{
    ImportedLibraryAsset {
        asset,
        source: owned(source),
        project_id: owned(project_id),
        params: asset_params(params, source),
        created_at,
    }
}

// ---------------------------------------------------------------------------
// Storing a batch
// ---------------------------------------------------------------------------

/// Where the import of a batch stands: how many files it has, which of them were saved, how
/// many of those were entered, and why it failed, where it did.
#[derive(Debug)]
pub struct ImportRun {
    pub count: usize,
    pub written: Vec<AssetRef>,
    pub entered: usize,
    pub failure: Option<String>,
}

/// Where the import of a batch stands, as values.
pub struct ImportRunView {
    pub count: int,
    pub written: Seq<AssetRef>,
    pub entered: int,
    pub failure: Option<Seq<char>>,
}

impl View for ImportRun {
    type V = ImportRunView;

    open spec fn view(&self) -> ImportRunView {
        ImportRunView {
            count: self.count as int,
            written: self.written@,
            entered: self.entered as int,
            failure: opt_view(self.failure),
        }
    }
}

/// What happens to the import of a batch.
#[derive(Debug)]
pub enum ImportEvent {
    /// It begins.
    Begin,
    /// A file was saved.
    Saved(Result<AssetRef, String>),
    /// The transaction was begun.
    Begun(Result<(), String>),
    /// A file was entered.
    Entered(Result<(), String>),
    /// The transaction was committed.
    Committed(Result<(), String>),
    /// What was done so far was undone.
    Undone,
}

/// What the import of a batch does next.
#[derive(Debug)]
pub enum ImportAction {
    /// Save the file of this place.
    Save(usize),
    /// Begin the transaction.
    Begin,
    /// Enter the saved file of this place.
    Enter(usize),
    /// Commit the transaction.
    Commit,
    /// Roll an open transaction back and remove these files.
    Undo(Vec<String>),
    /// The batch is imported.
    Finish,
    /// Fail with this text.
    Fail(String),
}

/// What the import of a batch does next, as values.
pub enum ImportActionView {
    Save(int),
    Begin,
    Enter(int),
    Commit,
    Undo(Seq<Seq<char>>),
    Finish,
    Fail(Seq<char>),
}

impl View for ImportAction {
    type V = ImportActionView;

    open spec fn view(&self) -> ImportActionView {
        match self {
            ImportAction::Save(i) => ImportActionView::Save(*i as int),
            ImportAction::Begin => ImportActionView::Begin,
            ImportAction::Enter(i) => ImportActionView::Enter(*i as int),
            ImportAction::Commit => ImportActionView::Commit,
            ImportAction::Undo(paths) => ImportActionView::Undo(texts_view(paths@)),
            ImportAction::Finish => ImportActionView::Finish,
            ImportAction::Fail(e) => ImportActionView::Fail(e@),
        }
    }
}

/// The paths of saved files.
pub open spec fn paths_of(written: Seq<AssetRef>) -> Seq<Seq<char>> {
    written.map_values(|a: AssetRef| a.path@)
}

/// The import of a batch before it begins.
pub open spec fn fresh_import(count: int) -> ImportRunView {
    ImportRunView { count, written: Seq::empty(), entered: 0, failure: None }
}

/// What follows where nothing has failed while files are saved.
pub open spec fn saves_next(s: ImportRunView) -> ImportActionView {
    if s.written.len() < s.count {
        ImportActionView::Save(s.written.len() as int)
    } else {
        ImportActionView::Begin
    }
}

/// What follows where nothing has failed while files are entered.
pub open spec fn enters_next(s: ImportRunView) -> ImportActionView {
    if s.entered < s.written.len() {
        ImportActionView::Enter(s.entered)
    } else {
        ImportActionView::Commit
    }
}

/// An import that has failed takes back the files that it has saved, and no others.
pub open spec fn takes_back(s: ImportRunView, failure: Seq<char>) -> (
    ImportRunView,
    ImportActionView,
) {
    (
        ImportRunView { failure: Some(failure), ..s },
        ImportActionView::Undo(paths_of(s.written)),
    )
}

/// What the import of a batch does after an event: it saves all files, then enters them all in
/// one transaction.
pub open spec fn import_step(s: ImportRunView, event: ImportEvent) -> (
    ImportRunView,
    ImportActionView,
) {
    match event {
        ImportEvent::Begin => (s, saves_next(s)),
        ImportEvent::Saved(Ok(asset)) => {
            let next = ImportRunView { written: s.written.push(asset), ..s };
            (next, saves_next(next))
        },
        ImportEvent::Saved(Err(e)) => takes_back(s, e@),
        ImportEvent::Begun(Ok(_)) => (s, enters_next(s)),
        ImportEvent::Begun(Err(e)) => takes_back(s, "开始外部资产导入事务失败："@ + e@),
        ImportEvent::Entered(Ok(_)) => {
            let next = ImportRunView { entered: s.entered + 1, ..s };
            (next, enters_next(next))
        },
        ImportEvent::Entered(Err(e)) => takes_back(s, "登记外部资产失败："@ + e@),
        ImportEvent::Committed(Ok(_)) => (s, ImportActionView::Finish),
        ImportEvent::Committed(Err(e)) => takes_back(s, "提交外部资产导入事务失败："@ + e@),
        ImportEvent::Undone => (
            s,
            match s.failure {
                Some(e) => ImportActionView::Fail(e),
                None => ImportActionView::Finish,
            },
        ),
    }
}

/// Makes the import of a batch of so many files.
pub fn new_import(count: usize) -> (r: ImportRun)
    ensures
        r@ == fresh_import(count as int),
{
    ImportRun { count, written: Vec::new(), entered: 0, failure: None }
}

fn take_back(run: &mut ImportRun, failure: String) -> (r: ImportAction)
    ensures
        (final(run)@, r@) == takes_back(old(run)@, failure@),
{
    let mut paths: Vec<String> = Vec::new();
    let mut i: usize = 0;
    while i < run.written.len()
        invariant
            i <= run.written.len(),
            paths.len() == i,
            forall|j: int| 0 <= j < i ==> (#[trigger] paths@[j])@ == run.written@[j].path@,
        decreases run.written.len() - i,
    {
        paths.push(run.written[i].path.clone());
        i += 1;
    }
    assert(texts_view(paths@) =~= paths_of(run.written@));
    run.failure = Some(failure);
    ImportAction::Undo(paths)
}

fn save_next(run: &ImportRun) -> (r: ImportAction)
    ensures
        r@ == saves_next(run@),
{
    if run.written.len() < run.count {
        ImportAction::Save(run.written.len())
    } else {
        ImportAction::Begin
    }
}

fn enter_next(run: &ImportRun) -> (r: ImportAction)
    ensures
        r@ == enters_next(run@),
{
    if run.entered < run.written.len() {
        ImportAction::Enter(run.entered)
    } else {
        ImportAction::Commit
    }
}

/// Decides what the import of a batch does after an event.
pub fn persist_import(run: &mut ImportRun, event: ImportEvent) -> (r: ImportAction)
    requires
        old(run).entered < usize::MAX,
    ensures
        (final(run)@, r@) == import_step(old(run)@, event),
{
    match event {
        ImportEvent::Begin => save_next(run),
        ImportEvent::Saved(Ok(asset)) => {
            run.written.push(asset);
            save_next(run)
        },
        ImportEvent::Saved(Err(e)) => take_back(run, e),
        ImportEvent::Begun(Ok(_)) => enter_next(run),
        ImportEvent::Begun(Err(e)) => take_back(
            run,
            concat2("开始外部资产导入事务失败：", e.as_str()),
        ),
        ImportEvent::Entered(Ok(_)) => {
            run.entered = run.entered + 1;
            enter_next(run)
        },
        ImportEvent::Entered(Err(e)) => take_back(run, concat2("登记外部资产失败：", e.as_str())),
        ImportEvent::Committed(Ok(_)) => ImportAction::Finish,
        ImportEvent::Committed(Err(e)) => take_back(
            run,
            concat2("提交外部资产导入事务失败：", e.as_str()),
        ),
        ImportEvent::Undone => match &run.failure {
            Some(e) => ImportAction::Fail(e.clone()),
            None => ImportAction::Finish,
        },
    }
}

/// The assets that are entered, those within the open transaction, and the files that are
/// there.
pub struct AssetStore {
    pub rows: Seq<AssetRef>,
    pub open: Option<Seq<AssetRef>>,
    pub files: Set<Seq<char>>,
}

/// How the operations of an import go, as far as they come to be carried out.
pub struct ImportAnswers {
    pub saved: Seq<Result<AssetRef, String>>,
    pub begun: Result<(), String>,
    pub entered: Seq<Result<(), String>>,
    pub committed: Result<(), String>,
}

/// What an operation of an import makes of the store, and the event that it gives.
pub open spec fn import_taken(
    store: AssetStore,
    s: ImportRunView,
    action: ImportActionView,
    a: ImportAnswers,
) -> (AssetStore, ImportEvent) {
    match action {
        ImportActionView::Save(i) => (
            match a.saved[i] {
                Ok(asset) => AssetStore { files: store.files.insert(asset.path@), ..store },
                Err(_) => store,
            },
            ImportEvent::Saved(a.saved[i]),
        ),
        ImportActionView::Begin => (
            if a.begun is Ok {
                AssetStore { open: Some(store.rows), ..store }
            } else {
                store
            },
            ImportEvent::Begun(a.begun),
        ),
        ImportActionView::Enter(i) => (
            if a.entered[i] is Ok {
                AssetStore { open: Some(store.open->0.push(s.written[i])), ..store }
            } else {
                store
            },
            ImportEvent::Entered(a.entered[i]),
        ),
        ImportActionView::Commit => (
            if a.committed is Ok {
                AssetStore { rows: store.open->0, open: None, ..store }
            } else {
                store
            },
            ImportEvent::Committed(a.committed),
        ),
        ImportActionView::Undo(paths) => (
            AssetStore { open: None, files: store.files.difference(paths.to_set()), ..store },
            ImportEvent::Undone,
        ),
        _ => (store, ImportEvent::Begin),
    }
}

/// What the rest of an import makes of the store, and its error, where it has one:
/// `persist_import` says what follows each event.
pub open spec fn import_course(
    store: AssetStore,
    s: ImportRunView,
    action: ImportActionView,
    a: ImportAnswers,
    steps: nat,
) -> (AssetStore, Option<Seq<char>>)
    decreases steps,
{
    match action {
        ImportActionView::Finish => (store, None),
        ImportActionView::Fail(e) => (store, Some(e)),
        _ => if steps == 0 {
            (store, None)
        } else {
            let (after, event) = import_taken(store, s, action, a);
            let (next, follows) = import_step(s, event);
            import_course(after, next, follows, a, (steps - 1) as nat)
        },
    }
}

/// What the import of a batch makes of the store, and its error, where it has one.
pub open spec fn imported(store: AssetStore, count: int, a: ImportAnswers) -> (
    AssetStore,
    Option<Seq<char>>,
) {
    let (s, action) = import_step(fresh_import(count), ImportEvent::Begin);
    import_course(store, s, action, a, (2 * count + 6) as nat)
}

/// Whether the files of a batch are saved under new paths, each under its own.
pub open spec fn saves_are_new(store: AssetStore, count: int, a: ImportAnswers) -> bool {
    &&& a.saved.len() == count
    &&& a.entered.len() == count
    &&& forall|i: int|
        0 <= i < count && (#[trigger] a.saved[i]) is Ok ==> !store.files.contains(
            a.saved[i]->Ok_0.path@,
        )
}

/// The assets of the files that were saved.
pub open spec fn saved_assets(a: ImportAnswers) -> Seq<AssetRef> {
    a.saved.map_values(|r: Result<AssetRef, String>| r->Ok_0)
}

/// How many operations an import takes at most before it ends.
spec fn operations_left(s: ImportRunView, action: ImportActionView) -> int {
    match action {
        ImportActionView::Save(i) => (s.count - i) + s.count + 5,
        ImportActionView::Begin => s.count + 5,
        ImportActionView::Enter(i) => (s.count - i) + 4,
        ImportActionView::Commit => 3,
        ImportActionView::Undo(_) => 1,
        _ => 0,
    }
}

/// What holds while an import is carried out.
spec fn import_stands(
    before: AssetStore,
    store: AssetStore,
    s: ImportRunView,
    action: ImportActionView,
    a: ImportAnswers,
) -> bool {
    let k = s.written.len() as int;
    &&& k <= s.count
    &&& forall|i: int| 0 <= i < k ==> a.saved[i] == Ok::<_, String>(#[trigger] s.written[i])
    &&& match action {
        ImportActionView::Save(i) => i == k < s.count && s.entered == 0 && s.failure is None
            && store.rows == before.rows && store.files == before.files.union(
            paths_of(s.written).to_set(),
        ),
        ImportActionView::Begin => k == s.count && s.entered == 0 && s.failure is None
            && store.rows == before.rows && store.files == before.files.union(
            paths_of(s.written).to_set(),
        ),
        ImportActionView::Enter(i) => k == s.count && i == s.entered && 0 <= i < k && store.open
            == Some(before.rows + s.written.take(i)) && store.rows == before.rows && store.files
            == before.files.union(paths_of(s.written).to_set()),
        ImportActionView::Commit => k == s.count && store.open == Some(before.rows + s.written)
            && store.rows == before.rows && store.files == before.files.union(
            paths_of(s.written).to_set(),
        ),
        ImportActionView::Undo(paths) => paths == paths_of(s.written) && s.failure is Some
            && store.rows == before.rows && store.files == before.files.union(
            paths_of(s.written).to_set(),
        ),
        ImportActionView::Finish => k == s.count && store.rows == before.rows + s.written
            && store.files == before.files.union(paths_of(s.written).to_set()),
        ImportActionView::Fail(_) => store.rows == before.rows && store.files == before.files,
    }
}

proof fn lemma_import_course(
    before: AssetStore,
    store: AssetStore,
    s: ImportRunView,
    action: ImportActionView,
    a: ImportAnswers,
    steps: nat,
)
    requires
        saves_are_new(before, s.count, a),
        import_stands(before, store, s, action, a),
        operations_left(s, action) <= steps,
    ensures
        ({
            let (after, error) = import_course(store, s, action, a, steps);
            &&& error is Some ==> after.rows == before.rows && after.files == before.files
            &&& error is None ==> (forall|i: int|
                0 <= i < s.count ==> (#[trigger] a.saved[i]) is Ok) && after.rows == before.rows
                + saved_assets(a) && after.files == before.files.union(
                paths_of(saved_assets(a)).to_set(),
            )
        }),
    decreases steps,
{
    if action is Finish {
        assert(s.written =~= saved_assets(a)) by {
            assert forall|i: int| 0 <= i < s.count implies s.written[i] == saved_assets(a)[i] by {
                assert(a.saved[i] == Ok::<_, String>(s.written[i]));
            }
        }
        assert forall|i: int| 0 <= i < s.count implies (#[trigger] a.saved[i]) is Ok by {
            assert(a.saved[i] == Ok::<_, String>(s.written[i]));
        }
    } else if !(action is Fail) {
        let (after, event) = import_taken(store, s, action, a);
        let (next, follows) = import_step(s, event);
        match action {
            ImportActionView::Save(i) => {
                if a.saved[i] is Ok {
                    let asset = a.saved[i]->Ok_0;
                    assert(paths_of(next.written) =~= paths_of(s.written).push(asset.path@));
                    lemma_pushed_to_set(paths_of(s.written), asset.path@);
                    assert(after.files =~= before.files.union(paths_of(next.written).to_set()));
                    assert(next.written.take(0) =~= Seq::empty());
                }
            },
            ImportActionView::Begin => {
                assert(before.rows + s.written.take(0) =~= before.rows);
                if s.written.len() == 0 {
                    assert(before.rows + s.written =~= before.rows);
                }
            },
            ImportActionView::Enter(i) => {
                assert((before.rows + s.written.take(i)).push(s.written[i]) =~= before.rows
                    + s.written.take(i + 1));
                assert(s.written.take(s.written.len() as int) =~= s.written);
            },
            ImportActionView::Undo(paths) => {
                assert forall|p: Seq<char>| before.files.contains(p) implies !paths.to_set().contains(
                    p,
                ) by {
                    if paths.to_set().contains(p) {
                        let i = choose|i: int| 0 <= i < paths.len() && paths[i] == p;
                        assert(a.saved[i] == Ok::<_, String>(s.written[i]));
                        assert(paths[i] == s.written[i].path@);
                    }
                }
                assert(after.files =~= before.files);
            },
            _ => {},
        }
        lemma_import_course(before, after, next, follows, a, (steps - 1) as nat);
    }
}

proof fn lemma_pushed_to_set(s: Seq<Seq<char>>, x: Seq<char>)
    ensures
        s.push(x).to_set() == s.to_set().insert(x),
{
    assert forall|y: Seq<char>| s.push(x).to_set().contains(y) == s.to_set().insert(x).contains(
        y,
    ) by {
        if s.to_set().contains(y) {
            let i = choose|i: int| 0 <= i < s.len() && s[i] == y;
            assert(s.push(x)[i] == y);
        }
        assert(s.push(x)[s.len() as int] == x);
    }
    assert(s.push(x).to_set() =~= s.to_set().insert(x));
}

/// A batch is imported as a whole or not at all. Without an error all its files are saved and
/// entered; with one, whatever failed, nothing was entered, and the files of this batch, and
/// those alone, are gone.
pub proof fn import_is_all_or_nothing(store: AssetStore, count: int, a: ImportAnswers)
    requires
        0 <= count,
        saves_are_new(store, count, a),
    ensures
        ({
            let (after, error) = imported(store, count, a);
            &&& error is Some ==> after.rows == store.rows && after.files == store.files
            &&& error is None ==> (forall|i: int|
                0 <= i < count ==> (#[trigger] a.saved[i]) is Ok) && after.rows == store.rows
                + saved_assets(a) && after.files == store.files.union(
                paths_of(saved_assets(a)).to_set(),
            )
        }),
{
    let (s, action) = import_step(fresh_import(count), ImportEvent::Begin);
    assert(paths_of(s.written) =~= Seq::empty());
    assert(store.files.union(paths_of(s.written).to_set()) =~= store.files);
    lemma_import_course(store, store, s, action, a, (2 * count + 6) as nat);
}

} // verus!
