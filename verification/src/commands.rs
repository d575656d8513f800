//! The commands of the application, as far as they decide anything: settings, documents,
//! media files, case images, video segments and model catalogues.
use crate::agent::{chat_url, without_end_slashes};
use crate::config::{ConfigState, ConfigView};
use crate::digest::{md5_digest, md5_hex};
use crate::gateway::{get_str, get_u32, u32_at};
use crate::image_files::MAX_MEDIA_ASSET_BYTES;
use crate::json::{
    as_text, copy_members, field, fields, items_at, items_view, json_text_value, no_members,
    put_member, set_member, text_at, Json, JsonView,
};
use crate::outside::{
    alphanumeric, base64_decoded, decode_base64, is_alphanumeric, parse_url_host, parse_url_scheme,
    url_has_host, url_scheme,
};
use crate::paths::{lies_under, lies_under_any, path_in_roots, path_lies_under};
use crate::text::{
    after_last, after_last_char, all_digits, begins_with, blank, byte_count, byte_length, chars_of,
    concat2, concat3, ends_with, finishes_with, is_ascii_alphanumeric, is_blank, is_digit, lowered,
    opt_view, owned, precedes, result_view, rsplit_once, rsplit_once_at, same, same_opt,
    starts_with, string_between, string_of, text_precedes, texts_view, to_ascii_lowercase, trim,
    trimmed,
};
use vstd::prelude::*;

verus! {

/// The largest reference image that is taken over, in bytes.
pub const MAX_REFERENCE_IMAGE_BYTES: u64 = 52_428_800;

/// The largest text file, in bytes.
pub const MAX_TEXT_ASSET_BYTES: u64 = 20_971_520;

/// The largest case image, in bytes.
pub const MAX_PROMPTLIB_IMAGE_BYTES: u64 = 8_388_608;

/// The host of the case images.
pub const PROMPTLIB_IMAGE_HOST: &'static str = "pub-7ecb2a3a62b94375a9abd336abf0bcc6.r2.dev";

/// The path of the case images on their host.
pub const PROMPTLIB_IMAGE_PREFIX: &'static str = "/img-case-assets/images/";

#[derive(Debug)]
pub struct AppInfo {
    pub name: String,
    pub version: String,
    pub platform: String,
}

/// An entry of the log that the user interface sends.
#[derive(Debug)]
pub struct ClientLogEntry {
    pub level: String,
    pub event: String,
    pub fields: Json,
}

/// How many entries of a batch are logged.
pub const MAX_LOG_ENTRIES: usize = 100;

/// The first entries of a batch, each with its level, event and fields.
pub fn client_logs(entries: Vec<ClientLogEntry>) -> (r: Vec<(String, String, Json)>)
    ensures
        r.len() == if entries.len() > MAX_LOG_ENTRIES {
            MAX_LOG_ENTRIES
        } else {
            entries.len()
        },
        forall|i: int|
            0 <= i < r.len() ==> (#[trigger] r@[i]).0@ == entries@[i].level@ && r@[i].1@
                == entries@[i].event@ && r@[i].2@ == entries@[i].fields@,
{
    let mut out: Vec<(String, String, Json)> = Vec::new();
    let mut i: usize = 0;
    while i < entries.len() && i < MAX_LOG_ENTRIES
        invariant
            i <= entries.len(),
            i <= MAX_LOG_ENTRIES,
            out.len() == i,
            forall|j: int|
                0 <= j < i ==> (#[trigger] out@[j]).0@ == entries@[j].level@ && out@[j].1@
                    == entries@[j].event@ && out@[j].2@ == entries@[j].fields@,
        decreases entries.len() - i,
    {
        let e = &entries[i];
        out.push((e.level.clone(), e.event.clone(), e.fields.copy()));
        i += 1;
    }
    out
}

// ---------------------------------------------------------------------------
// Settings
// ---------------------------------------------------------------------------

/// Settings to be saved; an empty one keeps what is there.
#[derive(Debug)]
pub struct SaveConfigRequest {
    pub image_api_url: String,
    pub image_api_key: String,
    pub image_api_model: String,
    pub video_api_url: String,
    pub video_api_key: String,
    pub video_api_model: String,
    pub llm_api_url: String,
    pub llm_api_key: String,
    pub llm_api_model: String,
    pub output_dir: String,
}

/// The error of an address, where it has one: it must be an HTTP address with a host, or blank.
pub open spec fn address_error(name: Seq<char>, value: Seq<char>) -> Option<Seq<char>> {
    if is_blank(value) {
        None
    } else {
        scheme_error(name, url_scheme(trimmed(value)), url_has_host(trimmed(value)))
    }
}

/// The error of an address by its scheme, or by the reason why it is none, and by whether it
/// has a host.
pub open spec fn scheme_error(
    name: Seq<char>,
    scheme: Result<Seq<char>, Seq<char>>,
    has_host: bool,
) -> Option<Seq<char>> {
    match scheme {
        Err(e) => Some(name + " 地址无效: "@ + e),
        Ok(scheme) => if (scheme == "http"@ || scheme == "https"@) && has_host {
            None
        } else {
            Some(name + " 必须是 HTTP(S) 地址"@)
        },
    }
}

/// The error of a text that is too long.
pub open spec fn length_error(value: Seq<char>, limit: int, message: Seq<char>) -> Option<
    Seq<char>,
> {
    if value.len() > limit {
        Some(message)
    } else {
        None
    }
}

/// The first of two errors.
pub open spec fn first_error(a: Option<Seq<char>>, b: Option<Seq<char>>) -> Option<Seq<char>> {
    match a {
        Some(e) => Some(e),
        None => b,
    }
}

/// The error of settings to be saved, where they have one: addresses first, then models, the
/// output directory and keys.
pub open spec fn settings_error(c: SaveConfigRequest) -> Option<Seq<char>> {
    first_error(
        first_error(
            first_error(
                address_error("image_api_url"@, c.image_api_url@),
                address_error("video_api_url"@, c.video_api_url@),
            ),
            address_error("llm_api_url"@, c.llm_api_url@),
        ),
        first_error(
            first_error(
                first_error(
                    length_error(c.image_api_model@, 200, "image_api_model 超过 200 个字符"@),
                    length_error(c.video_api_model@, 200, "video_api_model 超过 200 个字符"@),
                ),
                first_error(
                    length_error(c.llm_api_model@, 200, "llm_api_model 超过 200 个字符"@),
                    length_error(c.output_dir@, 4096, "output_dir 超过 4096 个字符"@),
                ),
            ),
            first_error(
                first_error(
                    length_error(c.image_api_key@, 16384, "image_api_key 超过 16384 个字符"@),
                    length_error(c.video_api_key@, 16384, "video_api_key 超过 16384 个字符"@),
                ),
                length_error(c.llm_api_key@, 16384, "llm_api_key 超过 16384 个字符"@),
            ),
        ),
    )
}

fn check_address(name: &str, value: &str) -> (r: Option<String>)
    ensures
        opt_view(r) == address_error(name@, value@),
{
    let value = trim(value);
    if value.as_str().is_empty() {
        return None;
    }
    check_scheme(name, parse_url_scheme(value.as_str()), parse_url_host(value.as_str()))
}

/// Checks an address by its scheme, or by the reason why it is none, and by whether it has a
/// host. The result is what is wrong with it.
pub fn check_scheme(name: &str, scheme: Result<String, String>, has_host: bool) -> (r: Option<
    String,
>)
    ensures
        opt_view(r) == scheme_error(name@, result_view(scheme), has_host),
{
    match scheme {
        Err(e) => Some(concat3(name, " 地址无效: ", e.as_str())),
        Ok(scheme) => if (same(scheme.as_str(), "http") || same(scheme.as_str(), "https"))
            && has_host {
            None
        } else {
            Some(concat2(name, " 必须是 HTTP(S) 地址"))
        },
    }
}

fn check_length(value: &str, limit: usize, message: &str) -> (r: Option<String>)
    ensures
        opt_view(r) == length_error(value@, limit as int, message@),
{
    if chars_of(value).len() > limit {
        Some(owned(message))
    } else {
        None
    }
}

fn either(a: Option<String>, b: Option<String>) -> (r: Option<String>)
    ensures
        opt_view(r) == first_error(opt_view(a), opt_view(b)),
{
    match a {
        Some(e) => Some(e),
        None => b,
    }
}

/// Checks settings to be saved.
pub fn validate_save_config(config: &SaveConfigRequest) -> (r: Result<(), String>)
    ensures
        match settings_error(*config) {
            Some(e) => r matches Err(f) && f@ == e,
            None => r is Ok,
        },
{
    let addresses = either(
        either(
            check_address("image_api_url", config.image_api_url.as_str()),
            check_address("video_api_url", config.video_api_url.as_str()),
        ),
        check_address("llm_api_url", config.llm_api_url.as_str()),
    );
    let models = either(
        either(
            check_length(config.image_api_model.as_str(), 200, "image_api_model 超过 200 个字符"),
            check_length(config.video_api_model.as_str(), 200, "video_api_model 超过 200 个字符"),
        ),
        either(
            check_length(config.llm_api_model.as_str(), 200, "llm_api_model 超过 200 个字符"),
            check_length(config.output_dir.as_str(), 4096, "output_dir 超过 4096 个字符"),
        ),
    );
    let keys = either(
        either(
            check_length(config.image_api_key.as_str(), 16384, "image_api_key 超过 16384 个字符"),
            check_length(config.video_api_key.as_str(), 16384, "video_api_key 超过 16384 个字符"),
        ),
        check_length(config.llm_api_key.as_str(), 16384, "llm_api_key 超过 16384 个字符"),
    );
    match either(addresses, either(models, keys)) {
        Some(e) => Err(e),
        None => Ok(()),
    }
}

/// Whether a request moves a service to another address without bringing a new key for it.
pub open spec fn key_would_move(
    incoming_url: Seq<char>,
    stored_url: Seq<char>,
    stored_key: Seq<char>,
    incoming_key: Seq<char>,
) -> bool {
    &&& !is_blank(incoming_url)
    &&& !is_blank(stored_url)
    &&& trimmed(stored_url) != trimmed(incoming_url)
    &&& !is_blank(stored_key)
    &&& is_blank(incoming_key)
}

/// A setting after a request: the new one, trimmed, where it is not blank.
pub open spec fn merged(stored: Seq<char>, incoming: Seq<char>) -> Seq<char> {
    if is_blank(incoming) {
        stored
    } else {
        trimmed(incoming)
    }
}

/// A configuration after a request.
pub open spec fn merged_config(c: ConfigView, q: SaveConfigRequest) -> ConfigView {
    ConfigView {
        image_api_url: merged(c.image_api_url, q.image_api_url@),
        image_api_key: merged(c.image_api_key, q.image_api_key@),
        image_model: merged(c.image_model, q.image_api_model@),
        video_api_url: merged(c.video_api_url, q.video_api_url@),
        video_api_key: merged(c.video_api_key, q.video_api_key@),
        video_model: merged(c.video_model, q.video_api_model@),
        llm_api_url: merged(c.llm_api_url, q.llm_api_url@),
        llm_api_key: merged(c.llm_api_key, q.llm_api_key@),
        llm_model: merged(c.llm_model, q.llm_api_model@),
        output_dir: merged(c.output_dir, q.output_dir@),
        source: c.source,
    }
}

/// What is said of a service whose key would move.
pub open spec fn key_error(name: Seq<char>) -> Seq<char> {
    name
        + " 已变更：请同时提交该服务的新 Key，不能沿用已保存的旧 Key（避免密钥被发往新地址）"@
}

/// The refusal of a request against a configuration, where it is refused.
pub open spec fn merge_refusal(c: ConfigView, q: SaveConfigRequest) -> Option<Seq<char>> {
    if key_would_move(q.image_api_url@, c.image_api_url, c.image_api_key, q.image_api_key@) {
        Some(key_error("image_api_url"@))
    } else if key_would_move(q.video_api_url@, c.video_api_url, c.video_api_key, q.video_api_key@) {
        Some(key_error("video_api_url"@))
    } else if key_would_move(q.llm_api_url@, c.llm_api_url, c.llm_api_key, q.llm_api_key@) {
        Some(key_error("llm_api_url"@))
    } else {
        None
    }
}

fn moves_key(incoming_url: &str, stored_url: &str, stored_key: &str, incoming_key: &str) -> (r:
    bool)
    ensures
        r == key_would_move(incoming_url@, stored_url@, stored_key@, incoming_key@),
{
    let incoming = trim(incoming_url);
    let stored = trim(stored_url);
    !incoming.as_str().is_empty() && !stored.as_str().is_empty() && !same(
        stored.as_str(),
        incoming.as_str(),
    ) && !blank(stored_key) && blank(incoming_key)
}

fn take_over(stored: &mut String, incoming: &str)
    ensures
        final(stored)@ == merged(old(stored)@, incoming@),
{
    let value = trim(incoming);
    if !value.as_str().is_empty() {
        *stored = value;
    }
}

/// Takes settings over into a configuration: an empty one keeps what is there, and a service
/// that moves to another address must bring a new key, for the stored one must not go there.
/// A refused request changes nothing.
pub fn merge_config(new: &mut ConfigState, config: &SaveConfigRequest) -> (r: Result<(), String>)
    ensures
        match merge_refusal(old(new)@, *config) {
            Some(e) => r matches Err(f) && f@ == e && final(new)@ == old(new)@,
            None => r is Ok && final(new)@ == merged_config(old(new)@, *config),
        },
{
    if moves_key(
        config.image_api_url.as_str(),
        new.image_api_url.as_str(),
        new.image_api_key.as_str(),
        config.image_api_key.as_str(),
    ) {
        return Err(
            concat2(
                "image_api_url",
                " 已变更：请同时提交该服务的新 Key，不能沿用已保存的旧 Key（避免密钥被发往新地址）",
            ),
        );
    }
    if moves_key(
        config.video_api_url.as_str(),
        new.video_api_url.as_str(),
        new.video_api_key.as_str(),
        config.video_api_key.as_str(),
    ) {
        return Err(
            concat2(
                "video_api_url",
                " 已变更：请同时提交该服务的新 Key，不能沿用已保存的旧 Key（避免密钥被发往新地址）",
            ),
        );
    }
    if moves_key(
        config.llm_api_url.as_str(),
        new.llm_api_url.as_str(),
        new.llm_api_key.as_str(),
        config.llm_api_key.as_str(),
    ) {
        return Err(
            concat2(
                "llm_api_url",
                " 已变更：请同时提交该服务的新 Key，不能沿用已保存的旧 Key（避免密钥被发往新地址）",
            ),
        );
    }
    take_over(&mut new.image_api_url, config.image_api_url.as_str());
    take_over(&mut new.video_api_url, config.video_api_url.as_str());
    take_over(&mut new.llm_api_url, config.llm_api_url.as_str());
    take_over(&mut new.output_dir, config.output_dir.as_str());
    take_over(&mut new.image_model, config.image_api_model.as_str());
    take_over(&mut new.video_model, config.video_api_model.as_str());
    take_over(&mut new.llm_model, config.llm_api_model.as_str());
    take_over(&mut new.image_api_key, config.image_api_key.as_str());
    take_over(&mut new.video_api_key, config.video_api_key.as_str());
    take_over(&mut new.llm_api_key, config.llm_api_key.as_str());
    Ok(())
}

/// A configuration after a request that was saved.
pub open spec fn saved_config(c: ConfigView, q: SaveConfigRequest) -> ConfigView {
    ConfigView { source: "db"@, ..merged_config(c, q) }
}

/// Checks settings and takes them over into a copy of the configuration, which is the one to
/// store and to use from now on.
pub fn save_config(current: &ConfigState, config: &SaveConfigRequest) -> (r: Result<
    ConfigState,
    String,
>)
    ensures
        match first_error(settings_error(*config), merge_refusal(current@, *config)) {
            Some(e) => r matches Err(f) && f@ == e,
            None => r matches Ok(c) && c@ == saved_config(current@, *config),
        },
{
    match validate_save_config(config) {
        Ok(_) => {},
        Err(e) => return Err(e),
    }
    let mut new = current.copy();
    match merge_config(&mut new, config) {
        Ok(_) => {},
        Err(e) => return Err(e),
    }
    new.source = owned("db");
    Ok(new)
}

/// A stored key never goes to a new address: where the address of a service changes from one
/// to another, its key was blank or is the one that the request brings.
pub proof fn stored_key_never_moves(c: ConfigView, q: SaveConfigRequest)
    requires
        merge_refusal(c, q) is None,
    ensures
        ({
            let m = merged_config(c, q);
            &&& !is_blank(c.image_api_url) && trimmed(m.image_api_url) != trimmed(c.image_api_url)
                ==> is_blank(c.image_api_key) || m.image_api_key == trimmed(q.image_api_key@)
            &&& !is_blank(c.video_api_url) && trimmed(m.video_api_url) != trimmed(c.video_api_url)
                ==> is_blank(c.video_api_key) || m.video_api_key == trimmed(q.video_api_key@)
            &&& !is_blank(c.llm_api_url) && trimmed(m.llm_api_url) != trimmed(c.llm_api_url)
                ==> is_blank(c.llm_api_key) || m.llm_api_key == trimmed(q.llm_api_key@)
        }),
{
    crate::text::trim_is_idempotent(q.image_api_url@);
    crate::text::trim_is_idempotent(q.video_api_url@);
    crate::text::trim_is_idempotent(q.llm_api_url@);
}

/// A request without content changes nothing.
pub proof fn empty_request_keeps_everything(c: ConfigView, q: SaveConfigRequest)
    requires
        is_blank(q.image_api_url@) && is_blank(q.image_api_key@) && is_blank(q.image_api_model@),
        is_blank(q.video_api_url@) && is_blank(q.video_api_key@) && is_blank(q.video_api_model@),
        is_blank(q.llm_api_url@) && is_blank(q.llm_api_key@) && is_blank(q.llm_api_model@),
        is_blank(q.output_dir@),
    ensures
        merge_refusal(c, q) is None,
        merged_config(c, q) == c,
{
}

// ---------------------------------------------------------------------------
// Documents
// ---------------------------------------------------------------------------

/// A new version of a document.
#[derive(Debug)]
pub struct DocumentVersionSaveRequest {
    pub label: String,
    pub text: String,
    pub model: Option<String>,
    pub project_id: Option<String>,
    pub document_id: String,
    pub params: Json,
    pub expected_head_asset_id: Option<String>,
    pub allow_branch: bool,
}

/// A stored file, without the length of a recording.
#[derive(Debug)]
pub struct AssetRef {
    pub id: String,
    pub kind: String,
    pub path: String,
    pub width: Option<u32>,
    pub height: Option<u32>,
    pub format: Option<String>,
}

/// A stored version of a document.
#[derive(Debug)]
pub struct DocumentVersionSaveResult {
    pub asset: AssetRef,
    pub params: Json,
    pub version: i64,
}

/// The asset of a text that was written as Markdown.
pub fn text_asset(id: &str, path: &str) -> (r: AssetRef)
    ensures
        r.id@ == id@,
        r.kind@ == "text"@,
        r.path@ == path@,
        r.width is None,
        r.height is None,
        opt_view(r.format) == Some("md"@),
{
    AssetRef {
        id: owned(id),
        kind: owned("text"),
        path: owned(path),
        width: None,
        height: None,
        format: Some(owned("md")),
    }
}

/// A stored version of a document: the identifier of its asset, its number, whether it is a
/// branch, and when it was stored.
#[derive(Debug)]
pub struct DocumentRow {
    pub id: String,
    pub version: i64,
    pub branch: bool,
    pub created_at: i64,
}

/// What a stored version says.
pub struct RowView {
    pub id: Seq<char>,
    pub version: int,
    pub branch: bool,
    pub created_at: int,
}

impl View for DocumentRow {
    type V = RowView;

    open spec fn view(&self) -> RowView {
        RowView {
            id: self.id@,
            version: self.version as int,
            branch: self.branch,
            created_at: self.created_at as int,
        }
    }
}

/// The views of stored versions.
pub open spec fn rows_view(rows: Seq<DocumentRow>) -> Seq<RowView> {
    rows.map_values(|r: DocumentRow| r@)
}

/// Whether a version comes after another: by number, then by time, then by identifier.
pub open spec fn is_later(a: RowView, b: RowView) -> bool {
    ||| a.version > b.version
    ||| a.version == b.version && a.created_at > b.created_at
    ||| a.version == b.version && a.created_at == b.created_at && precedes(b.id, a.id)
}

/// The production version of a document: the latest one that is no branch.
pub open spec fn head_row(rows: Seq<RowView>) -> Option<RowView>
    decreases rows.len(),
{
    if rows.len() == 0 {
        None
    } else {
        let before = head_row(rows.drop_last());
        let row = rows.last();
        if row.branch || (before is Some && !is_later(row, before->0)) {
            before
        } else {
            Some(row)
        }
    }
}

/// The identifier of the production version.
pub open spec fn head_id(rows: Seq<RowView>) -> Option<Seq<char>> {
    match head_row(rows) {
        Some(row) => Some(row.id),
        None => None,
    }
}

/// The highest version number of a document; zero where it has no version.
pub open spec fn top_version(rows: Seq<RowView>) -> int
    decreases rows.len(),
{
    if rows.len() == 0 {
        0
    } else if rows.len() == 1 {
        rows[0].version
    } else {
        let before = top_version(rows.drop_last());
        if rows.last().version > before {
            rows.last().version
        } else {
            before
        }
    }
}

fn later(a: &DocumentRow, b: &DocumentRow) -> (r: bool)
    ensures
        r == is_later(a@, b@),
{
    if a.version != b.version {
        a.version > b.version
    } else if a.created_at != b.created_at {
        a.created_at > b.created_at
    } else {
        text_precedes(b.id.as_str(), a.id.as_str())
    }
}

/// The identifier of the production version of a document.
pub fn production_head(rows: &Vec<DocumentRow>) -> (r: Option<String>)
    ensures
        opt_view(r) == head_id(rows_view(rows@)),
{
    let ghost views = rows_view(rows@);
    let mut best: Option<usize> = None;
    let mut i: usize = 0;
    assert(views.take(0) =~= Seq::<RowView>::empty());
    while i < rows.len()
        invariant
            i <= rows.len(),
            views == rows_view(rows@),
            best matches Some(k) ==> k < rows.len(),
            head_row(views.take(i as int)) == (match best {
                Some(k) => Some(rows@[k as int]@),
                None => None,
            }),
        decreases rows.len() - i,
    {
        proof {
            assert(views.take(i + 1).drop_last() =~= views.take(i as int));
            assert(views.take(i + 1).last() == rows@[i as int]@);
        }
        if !rows[i].branch {
            let replace = match best {
                Some(k) => later(&rows[i], &rows[k]),
                None => true,
            };
            if replace {
                best = Some(i);
            }
        }
        i += 1;
    }
    assert(views.take(i as int) =~= views);
    match best {
        Some(k) => Some(rows[k].id.clone()),
        None => None,
    }
}

/// The number of the next version of a document, where there is one.
pub fn next_version(rows: &Vec<DocumentRow>) -> (r: Option<i64>)
    ensures
        r is Some <==> top_version(rows_view(rows@)) < i64::MAX,
        r matches Some(v) ==> v == top_version(rows_view(rows@)) + 1,
{
    let ghost views = rows_view(rows@);
    if rows.len() == 0 {
        return Some(1);
    }
    let mut top: i64 = rows[0].version;
    let mut i: usize = 1;
    assert(views.take(1).len() == 1);
    while i < rows.len()
        invariant
            1 <= i <= rows.len(),
            views == rows_view(rows@),
            top == top_version(views.take(i as int)),
        decreases rows.len() - i,
    {
        proof {
            assert(views.take(i + 1).drop_last() =~= views.take(i as int));
            assert(views.take(i + 1).last() == rows@[i as int]@);
        }
        if rows[i].version > top {
            top = rows[i].version;
        }
        i += 1;
    }
    assert(views.take(i as int) =~= views);
    if top < i64::MAX {
        Some(top + 1)
    } else {
        None
    }
}

/// Checks that a document has a title, a text and an identifier. The result is the trimmed
/// title and text.
pub fn check_document(request: &DocumentVersionSaveRequest) -> (r: Result<(String, String), String>)
    ensures
        if is_blank(request.label@) || is_blank(request.text@) || is_blank(request.document_id@) {
            r matches Err(e) && e@ == "文档标题、内容和 documentId 不能为空"@
        } else {
            r matches Ok(p) && p.0@ == trimmed(request.label@) && p.1@ == trimmed(request.text@)
        },
{
    let label = trim(request.label.as_str());
    let text = trim(request.text.as_str());
    if label.as_str().is_empty() || text.as_str().is_empty() || blank(
        request.document_id.as_str(),
    ) {
        return Err(owned("文档标题、内容和 documentId 不能为空"));
    }
    Ok((label, text))
}

/// A text or null.
pub open spec fn optional_value(s: Option<Seq<char>>) -> JsonView {
    match s {
        Some(s) => JsonView::Str(s),
        None => JsonView::Null,
    }
}

fn optional_json(s: &Option<String>) -> (r: Json)
    ensures
        r@ == optional_value(opt_view(*s)),
{
    match s {
        Some(s) => json_text_value(s.as_str()),
        None => Json::Null,
    }
}

/// The parameters of a version: what it is and whether it is a branch are set here, whatever
/// the request says.
pub open spec fn version_params(
    m: Seq<(Seq<char>, JsonView)>,
    request: DocumentVersionSaveRequest,
    version: int,
) -> JsonView {
    JsonView::Obj(
        put_member(
            put_member(
                put_member(
                    put_member(
                        put_member(m, "documentId"@, JsonView::Str(request.document_id@)),
                        "version"@,
                        JsonView::Int(version),
                    ),
                    "text"@,
                    JsonView::Str(trimmed(request.text@)),
                ),
                "title"@,
                JsonView::Str(trimmed(request.label@)),
            ),
            "videoBranch"@,
            JsonView::Bool(request.allow_branch),
        ),
    )
}

/// The metadata of a stored asset.
pub open spec fn asset_metadata_value(
    source: Seq<char>,
    model: Option<Seq<char>>,
    project: Option<Seq<char>>,
    params: JsonView,
) -> JsonView {
    JsonView::Obj(
        no_members()
            .push(("source"@, JsonView::Str(source)))
            .push(("model"@, optional_value(model)))
            .push(("projectId"@, optional_value(project)))
            .push(("params"@, params)),
    )
}

/// The metadata of a stored asset.
pub fn asset_metadata(
    source: &str,
    model: &Option<String>,
    project_id: &Option<String>,
    params: Json,
) -> (r: Json)
    ensures
        r@ == asset_metadata_value(source@, opt_view(*model), opt_view(*project_id), params@),
{
    fields().text("source", source).with("model", optional_json(model)).with(
        "projectId",
        optional_json(project_id),
    ).with("params", params).object()
}

/// Why a version is not stored, where it is not: something is missing, the production version
/// is not the one that the request expects, there is no number left, or the parameters are no
/// object. A branch expects nothing of the production version.
pub open spec fn version_refusal(
    request: DocumentVersionSaveRequest,
    rows: Seq<RowView>,
) -> Option<Seq<char>> {
    if is_blank(request.label@) || is_blank(request.text@) || is_blank(request.document_id@) {
        Some("文档标题、内容和 documentId 不能为空"@)
    } else if !request.allow_branch && opt_view(request.expected_head_asset_id) != head_id(rows) {
        Some("版本冲突：当前生产版已变化。请创建历史分支，或迁移到最新版本后再保存"@)
    } else if top_version(rows) >= i64::MAX {
        Some("分配文档版本失败"@)
    } else if !(request.params@ is Obj) {
        Some("文档 params 必须是对象"@)
    } else {
        None
    }
}

/// The parameters of the version that a request adds.
pub open spec fn added_params(
    request: DocumentVersionSaveRequest,
    rows: Seq<RowView>,
) -> JsonView {
    version_params(request.params@->Obj_0, request, top_version(rows) + 1)
}

/// Decides a new version of a document against the stored ones; `asset` is the written text.
/// The result is the version and the metadata to be stored with its asset.
pub fn save_document_version(
    request: &DocumentVersionSaveRequest,
    asset: AssetRef,
    rows: &Vec<DocumentRow>,
) -> (r: Result<(DocumentVersionSaveResult, Json), String>)
    ensures
        match version_refusal(*request, rows_view(rows@)) {
            Some(e) => r matches Err(f) && f@ == e,
            None => {
                &&& r is Ok
                &&& (r->Ok_0).0.asset == asset
                &&& (r->Ok_0).0.version == top_version(rows_view(rows@)) + 1
                &&& (r->Ok_0).0.params@ == added_params(*request, rows_view(rows@))
                &&& (r->Ok_0).1@ == asset_metadata_value(
                    trimmed(request.label@),
                    opt_view(request.model),
                    opt_view(request.project_id),
                    added_params(*request, rows_view(rows@)),
                )
            },
        },
{
    broadcast use {crate::json::lemma_arr_view, crate::json::lemma_obj_view};

    let (label, text) = match check_document(request) {
        Ok(p) => p,
        Err(e) => return Err(e),
    };
    let expected = match &request.expected_head_asset_id {
        Some(id) => Some(id.as_str()),
        None => None,
    };
    let head = production_head(rows);
    let current = match &head {
        Some(id) => Some(id.as_str()),
        None => None,
    };
    if !request.allow_branch && !same_opt(expected, current) {
        return Err(
            owned("版本冲突：当前生产版已变化。请创建历史分支，或迁移到最新版本后再保存"),
        );
    }
    let version: i64 = match next_version(rows) {
        Some(v) => v,
        None => return Err(owned("分配文档版本失败")),
    };
    let members = match request.params.as_object() {
        Some(members) => copy_members(members),
        None => return Err(owned("文档 params 必须是对象")),
    };
    let members = set_member(
        members,
        "documentId",
        json_text_value(request.document_id.as_str()),
    );
    let members = set_member(members, "version", Json::Int(version));
    let members = set_member(members, "text", json_text_value(text.as_str()));
    let members = set_member(members, "title", json_text_value(label.as_str()));
    let members = set_member(members, "videoBranch", Json::Bool(request.allow_branch));
    let params = Json::Obj(members);
    let metadata = asset_metadata(
        label.as_str(),
        &request.model,
        &request.project_id,
        params.copy(),
    );
    Ok((DocumentVersionSaveResult { asset, params, version }, metadata))
}

/// No version of a document has a higher number than the highest.
pub proof fn lemma_top_version(rows: Seq<RowView>)
    ensures
        forall|i: int| 0 <= i < rows.len() ==> (#[trigger] rows[i]).version <= top_version(rows),
    decreases rows.len(),
{
    if rows.len() > 1 {
        lemma_top_version(rows.drop_last());
        assert forall|i: int| 0 <= i < rows.len() implies (#[trigger] rows[i]).version
            <= top_version(rows) by {
            if i < rows.len() - 1 {
                assert(rows.drop_last()[i] == rows[i]);
            }
        }
    }
}

proof fn lemma_head_among(rows: Seq<RowView>)
    ensures
        head_row(rows) matches Some(h) ==> rows.contains(h) && !h.branch,
    decreases rows.len(),
{
    if rows.len() > 0 {
        lemma_head_among(rows.drop_last());
        match head_row(rows.drop_last()) {
            Some(h) => {
                let i = rows.drop_last().index_of(h);
                assert(rows[i] == h);
            },
            None => {},
        }
        assert(rows[rows.len() - 1] == rows.last());
    }
}

/// A new version that is no branch becomes the production version.
pub proof fn new_version_becomes_the_head(rows: Seq<RowView>, row: RowView)
    requires
        !row.branch,
        row.version == top_version(rows) + 1,
    ensures
        head_id(rows.push(row)) == Some(row.id),
{
    assert(rows.push(row).drop_last() =~= rows);
    lemma_head_among(rows);
    lemma_top_version(rows);
}

/// A branch never replaces the production version.
pub proof fn branch_keeps_the_head(rows: Seq<RowView>, row: RowView)
    requires
        row.branch,
    ensures
        head_id(rows.push(row)) == head_id(rows),
{
    assert(rows.push(row).drop_last() =~= rows);
}

/// How a step of storing a version went, whose text was written to a file before.
#[derive(Debug)]
pub enum DocumentEvent {
    /// The transaction was begun.
    Begun(Result<(), String>),
    /// The version was decided against the stored ones.
    Decided(Result<(), String>),
    /// The version was entered.
    Entered(Result<(), String>),
    /// The transaction was committed.
    Committed(Result<(), String>),
}

/// What is done next in storing a version.
#[derive(Debug)]
pub enum DocumentAction {
    /// Decide the version against the stored ones.
    Decide,
    /// Enter the version.
    Enter,
    /// Commit the transaction.
    Commit,
    /// Keep the file: the version is stored.
    Keep,
    /// Roll the transaction back, remove the file and fail with this text.
    Undo(String),
    /// Remove the file and fail with this text.
    Remove(String),
}

/// What is done next in storing a version, in characters.
pub enum DocumentActionView {
    Decide,
    Enter,
    Commit,
    Keep,
    Undo(Seq<char>),
    Remove(Seq<char>),
}

impl View for DocumentAction {
    type V = DocumentActionView;

    open spec fn view(&self) -> DocumentActionView {
        match self {
            DocumentAction::Decide => DocumentActionView::Decide,
            DocumentAction::Enter => DocumentActionView::Enter,
            DocumentAction::Commit => DocumentActionView::Commit,
            DocumentAction::Keep => DocumentActionView::Keep,
            DocumentAction::Undo(e) => DocumentActionView::Undo(e@),
            DocumentAction::Remove(e) => DocumentActionView::Remove(e@),
        }
    }
}

/// What is done next in storing a version: the file stays only where all steps succeeded.
pub open spec fn document_action(event: DocumentEvent) -> DocumentActionView {
    match event {
        DocumentEvent::Begun(Ok(_)) => DocumentActionView::Decide,
        DocumentEvent::Begun(Err(e)) => DocumentActionView::Remove("开始文档版本事务失败: "@ + e@),
        DocumentEvent::Decided(Ok(_)) => DocumentActionView::Enter,
        DocumentEvent::Decided(Err(e)) => DocumentActionView::Undo(e@),
        DocumentEvent::Entered(Ok(_)) => DocumentActionView::Commit,
        DocumentEvent::Entered(Err(e)) => DocumentActionView::Undo("写入文档版本失败: "@ + e@),
        DocumentEvent::Committed(Ok(_)) => DocumentActionView::Keep,
        DocumentEvent::Committed(Err(e)) => DocumentActionView::Remove("提交文档版本失败: "@ + e@),
    }
}

/// Decides what is done next in storing a version.
pub fn save_document_step(event: DocumentEvent) -> (r: DocumentAction)
    ensures
        r@ == document_action(event),
{
    match event {
        DocumentEvent::Begun(Ok(_)) => DocumentAction::Decide,
        DocumentEvent::Begun(Err(e)) => DocumentAction::Remove(
            concat2("开始文档版本事务失败: ", e.as_str()),
        ),
        DocumentEvent::Decided(Ok(_)) => DocumentAction::Enter,
        DocumentEvent::Decided(Err(e)) => DocumentAction::Undo(e),
        DocumentEvent::Entered(Ok(_)) => DocumentAction::Commit,
        DocumentEvent::Entered(Err(e)) => DocumentAction::Undo(
            concat2("写入文档版本失败: ", e.as_str()),
        ),
        DocumentEvent::Committed(Ok(_)) => DocumentAction::Keep,
        DocumentEvent::Committed(Err(e)) => DocumentAction::Remove(
            concat2("提交文档版本失败: ", e.as_str()),
        ),
    }
}

/// The stored versions of a document and the files of their texts.
pub struct DocumentStore {
    pub rows: Seq<RowView>,
    pub files: Set<Seq<char>>,
}

/// A store with one more file.
pub open spec fn with_file(store: DocumentStore, path: Seq<char>) -> DocumentStore {
    DocumentStore { files: store.files.insert(path), ..store }
}

/// A store without a file.
pub open spec fn without_file(store: DocumentStore, path: Seq<char>) -> DocumentStore {
    DocumentStore { files: store.files.remove(path), ..store }
}

/// The version that a request adds to a store, under an identifier.
pub open spec fn added_row(
    store: DocumentStore,
    request: DocumentVersionSaveRequest,
    id: Seq<char>,
    created_at: int,
) -> RowView {
    RowView {
        id,
        version: top_version(store.rows) + 1,
        branch: request.allow_branch,
        created_at,
    }
}

/// How the steps of storing a version go, as far as they come to be taken.
pub struct DocumentAnswers {
    pub begun: Result<(), String>,
    pub entered: Result<(), String>,
    pub committed: Result<(), String>,
}

/// A document that could not be stored: its file is removed, and nothing else has changed.
pub open spec fn refused_document(
    store: DocumentStore,
    path: Seq<char>,
    action: DocumentActionView,
) -> (DocumentStore, Result<int, Seq<char>>) {
    (
        without_file(store, path),
        Err(
            match action {
                DocumentActionView::Undo(e) => e,
                DocumentActionView::Remove(e) => e,
                _ => Seq::empty(),
            },
        ),
    )
}

/// What a request whose text lies in a file makes of a store, and its result: the number of the
/// version. The version is decided and entered in one transaction, so that no other request
/// comes between; `save_document_step` says what follows each step.
pub open spec fn document_saved(
    store: DocumentStore,
    request: DocumentVersionSaveRequest,
    id: Seq<char>,
    path: Seq<char>,
    created_at: int,
    a: DocumentAnswers,
) -> (DocumentStore, Result<int, Seq<char>>) {
    let begun = document_action(DocumentEvent::Begun(a.begun));
    let entered = document_action(DocumentEvent::Entered(a.entered));
    let committed = document_action(DocumentEvent::Committed(a.committed));
    if !(begun is Decide) {
        refused_document(store, path, begun)
    } else if version_refusal(request, store.rows) is Some {
        refused_document(
            store,
            path,
            DocumentActionView::Undo(version_refusal(request, store.rows)->0),
        )
    } else if !(entered is Commit) {
        refused_document(store, path, entered)
    } else if !(committed is Keep) {
        refused_document(store, path, committed)
    } else {
        (
            DocumentStore {
                rows: store.rows.push(added_row(store, request, id, created_at)),
                ..store
            },
            Ok(top_version(store.rows) + 1),
        )
    }
}

/// Whether a document has a title, a text, an identifier and parameters.
pub open spec fn is_given(request: DocumentVersionSaveRequest) -> bool {
    &&& !is_blank(request.label@)
    &&& !is_blank(request.text@)
    &&& !is_blank(request.document_id@)
    &&& request.params@ is Obj
}

/// A document that two requests want to store at the same time: both write their texts to
/// files, and their transactions follow each other.
pub struct DocumentRace {
    pub first: DocumentVersionSaveRequest,
    pub second: DocumentVersionSaveRequest,
    pub first_id: Seq<char>,
    pub second_id: Seq<char>,
    pub first_path: Seq<char>,
    pub second_path: Seq<char>,
    pub first_at: int,
    pub second_at: int,
}

/// Whether the requests of a race have new identifiers and write to new files.
pub open spec fn race_is_new(store: DocumentStore, race: DocumentRace) -> bool {
    &&& race.first_path != race.second_path
    &&& !store.files.contains(race.first_path)
    &&& !store.files.contains(race.second_path)
    &&& head_id(store.rows) != Some(race.first_id)
    &&& head_id(store.rows) != Some(race.second_id)
}

/// What is stored after a race, and the results of the first and of the second request, where
/// the transaction of the first comes before that of the second, or behind it.
pub open spec fn raced(
    store: DocumentStore,
    race: DocumentRace,
    in_order: bool,
    a: DocumentAnswers,
    b: DocumentAnswers,
) -> (DocumentStore, Result<int, Seq<char>>, Result<int, Seq<char>>) {
    let both = with_file(with_file(store, race.first_path), race.second_path);
    if in_order {
        let (one, x) = document_saved(
            both,
            race.first,
            race.first_id,
            race.first_path,
            race.first_at,
            a,
        );
        let (two, y) = document_saved(
            one,
            race.second,
            race.second_id,
            race.second_path,
            race.second_at,
            b,
        );
        (two, x, y)
    } else {
        let (one, y) = document_saved(
            both,
            race.second,
            race.second_id,
            race.second_path,
            race.second_at,
            b,
        );
        let (two, x) = document_saved(
            one,
            race.first,
            race.first_id,
            race.first_path,
            race.first_at,
            a,
        );
        (two, x, y)
    }
}

/// A document is stored exactly where it is a branch or its request expects the production
/// version that there is. Otherwise it is told of the conflict; and whatever keeps a document
/// from being stored, no version is added and no file is left. Of two requests at the same time
/// that expect the same production version and are no branches, exactly one is stored,
/// whichever transaction comes first: the other one adds no version and leaves no file.
pub proof fn documents_are_stored_for_the_head_they_expect(
    store: DocumentStore,
    race: DocumentRace,
    a: DocumentAnswers,
    b: DocumentAnswers,
    in_order: bool,
)
    requires
        race_is_new(store, race),
    ensures
        ({
            let conflict =
                "版本冲突：当前生产版已变化。请创建历史分支，或迁移到最新版本后再保存"@;
            let request = race.first;
            let expected = request.allow_branch || opt_view(request.expected_head_asset_id)
                == head_id(store.rows);
            let works = a.begun is Ok && a.entered is Ok && a.committed is Ok;
            let (after, result) = document_saved(
                with_file(store, race.first_path),
                request,
                race.first_id,
                race.first_path,
                race.first_at,
                a,
            );
            &&& result is Err ==> after == store
            &&& result is Ok ==> after.rows == store.rows.push(
                added_row(store, request, race.first_id, race.first_at),
            ) && after.files == store.files.insert(race.first_path)
            &&& works && is_given(request) && top_version(store.rows) < i64::MAX ==> {
                &&& result is Ok <==> expected
                &&& !expected ==> result == Err::<int, _>(conflict)
            }
        }),
        ({
            let conflict =
                "版本冲突：当前生产版已变化。请创建历史分支，或迁移到最新版本后再保存"@;
            let works = a.begun is Ok && a.entered is Ok && a.committed is Ok && b.begun is Ok
                && b.entered is Ok && b.committed is Ok;
            let alike = version_refusal(race.first, store.rows) is None && version_refusal(
                race.second,
                store.rows,
            ) is None && !race.first.allow_branch && !race.second.allow_branch;
            let (after, x, y) = raced(store, race, in_order, a, b);
            works && alike ==> {
                &&& in_order ==> x is Ok && y == Err::<int, _>(conflict)
                &&& !in_order ==> y is Ok && x == Err::<int, _>(conflict)
                &&& after.rows == store.rows.push(
                    if in_order {
                        added_row(store, race.first, race.first_id, race.first_at)
                    } else {
                        added_row(store, race.second, race.second_id, race.second_at)
                    },
                )
                &&& after.files == store.files.insert(
                    if in_order {
                        race.first_path
                    } else {
                        race.second_path
                    },
                )
            }
        }),
{
    let written = with_file(store, race.first_path);
    assert(without_file(written, race.first_path).files =~= store.files);
    let both = with_file(written, race.second_path);
    assert(both.files.remove(race.second_path) =~= store.files.insert(race.first_path));
    assert(both.files.remove(race.first_path) =~= store.files.insert(race.second_path));
    if version_refusal(race.first, store.rows) is None && !race.first.allow_branch {
        new_version_becomes_the_head(
            store.rows,
            added_row(store, race.first, race.first_id, race.first_at),
        );
    }
    if version_refusal(race.second, store.rows) is None && !race.second.allow_branch {
        new_version_becomes_the_head(
            store.rows,
            added_row(store, race.second, race.second_id, race.second_at),
        );
    }
}

/// Whether a version is a branch is decided by the request to branch alone, whatever its
/// parameters say.
pub proof fn branch_mark_follows_the_request(
    m: Seq<(Seq<char>, JsonView)>,
    request: DocumentVersionSaveRequest,
    version: int,
)
    ensures
        field(version_params(m, request, version), "videoBranch"@) == Some(
            JsonView::Bool(request.allow_branch),
        ),
{
    let inner = put_member(
        put_member(
            put_member(
                put_member(m, "documentId"@, JsonView::Str(request.document_id@)),
                "version"@,
                JsonView::Int(version),
            ),
            "text"@,
            JsonView::Str(trimmed(request.text@)),
        ),
        "title"@,
        JsonView::Str(trimmed(request.label@)),
    );
    crate::json::entered_member_is_found(inner, "videoBranch"@, JsonView::Bool(request.allow_branch));
}

/// Checks the size of a text to be saved.
pub fn check_text_size(text: &str) -> (r: Result<(), String>)
    ensures
        r is Ok <==> byte_length(text@) <= MAX_TEXT_ASSET_BYTES,
        r matches Err(e) ==> e@ == "文本资产超过 20 MiB 大小限制"@,
{
    if byte_count(text) <= 20_971_520 {
        Ok(())
    } else {
        Err(owned("文本资产超过 20 MiB 大小限制"))
    }
}

/// The refusal to read a text file, where it is refused: outside the directories of the
/// application, of another kind, or too large.
pub open spec fn text_file_refusal(
    path: Seq<Seq<char>>,
    roots: Seq<Option<Vec<String>>>,
    extension: Seq<char>,
    bytes: u64,
) -> Option<Seq<char>> {
    let e = lowered(extension);
    if !lies_under_any(path, roots) {
        Some("文档不在应用数据或输出目录中"@)
    } else if !(e == "md"@ || e == "txt"@ || e == "json"@) {
        Some("只允许读取 md、txt、json 文档"@)
    } else if bytes > MAX_TEXT_ASSET_BYTES {
        Some("文档超过 20 MiB 大小限制"@)
    } else {
        None
    }
}

/// Decides whether a text file may be read; `extension` is empty where it has none.
pub fn check_text_file(
    path: &Vec<String>,
    roots: &Vec<Option<Vec<String>>>,
    extension: &str,
    bytes: u64,
) -> (r: Result<(), String>)
    ensures
        match text_file_refusal(texts_view(path@), roots@, extension@, bytes) {
            Some(e) => r matches Err(f) && f@ == e,
            None => r is Ok,
        },
{
    if !path_in_roots(path, roots) {
        return Err(owned("文档不在应用数据或输出目录中"));
    }
    let e = to_ascii_lowercase(extension);
    if !(same(e.as_str(), "md") || same(e.as_str(), "txt") || same(e.as_str(), "json")) {
        return Err(owned("只允许读取 md、txt、json 文档"));
    }
    if bytes > MAX_TEXT_ASSET_BYTES {
        return Err(owned("文档超过 20 MiB 大小限制"));
    }
    Ok(())
}

/// Fails unless a resolved path lies under a directory of the application.
pub fn path_in_allowed_roots(path: &Vec<String>, roots: &Vec<Option<Vec<String>>>) -> (r: Result<
    (),
    String,
>)
    ensures
        r is Ok <==> lies_under_any(texts_view(path@), roots@),
        r matches Err(e) ==> e@ == "文件不在应用数据或输出目录中"@,
{
    if path_in_roots(path, roots) {
        Ok(())
    } else {
        Err(owned("文件不在应用数据或输出目录中"))
    }
}

// ---------------------------------------------------------------------------
// Media files
// ---------------------------------------------------------------------------

/// The longest base64 text of a media file, in bytes.
pub const MAX_MEDIA_BASE64_BYTES: usize = 715_827_884;

/// Decodes a media file that is handed over as base64. A text that is too long is refused
/// before it is decoded.
pub fn decode_media_base64(value: &str) -> (r: Result<Vec<u8>, String>)
    ensures
        if byte_length(value@) > MAX_MEDIA_BASE64_BYTES {
            r matches Err(e) && e@ == "媒体资产超过 512 MiB 大小限制"@
        } else {
            match base64_decoded(value@) {
                Ok(b) => r matches Ok(v) && v@ == b,
                Err(_) => r matches Err(e) && e@ == "媒体数据不是有效的 base64"@,
            }
        },
{
    if byte_count(value) > MAX_MEDIA_BASE64_BYTES {
        return Err(owned("媒体资产超过 512 MiB 大小限制"));
    }
    media_bytes(decode_base64(value))
}

/// The bytes of a media file, from what decoding its base64 text gave.
pub fn media_bytes(decoded: Result<Vec<u8>, String>) -> (r: Result<Vec<u8>, String>)
    ensures
        match decoded {
            Ok(b) => r matches Ok(v) && v@ == b@,
            Err(_) => r matches Err(e) && e@ == "媒体数据不是有效的 base64"@,
        },
{
    match decoded {
        Ok(v) => Ok(v),
        Err(_) => Err(owned("媒体数据不是有效的 base64")),
    }
}

/// Checks a reference image to be taken over; `format` is what its bytes were recognised as.
/// The result is that format.
pub fn check_reference_image(bytes: u64, format: Option<&str>) -> (r: Result<String, String>)
    ensures
        if bytes > MAX_REFERENCE_IMAGE_BYTES {
            r matches Err(e) && e@ == "参考图超过 50 MiB 大小限制"@
        } else {
            match format {
                Some(f) => r matches Ok(s) && s@ == f@,
                None => r matches Err(e) && e@ == "参考图格式不受支持或文件已损坏"@,
            }
        },
{
    if bytes > MAX_REFERENCE_IMAGE_BYTES {
        return Err(owned("参考图超过 50 MiB 大小限制"));
    }
    match format {
        Some(f) => Ok(owned(f)),
        None => Err(owned("参考图格式不受支持或文件已损坏")),
    }
}

/// A text without the dots at its beginning.
pub open spec fn without_dots(s: Seq<char>) -> Seq<char>
    decreases s.len(),
{
    if s.len() > 0 && s[0] == '.' {
        without_dots(s.subrange(1, s.len() as int))
    } else {
        s
    }
}

/// The extension of a media file in its plain form.
pub open spec fn media_extension(ext: Seq<char>) -> Seq<char> {
    lowered(without_dots(ext))
}

/// Whether a text is made of one or more ASCII letters and digits.
pub open spec fn is_plain_word(s: Seq<char>) -> bool {
    s.len() > 0 && forall|i: int| 0 <= i < s.len() ==> is_ascii_alphanumeric(#[trigger] s[i])
}

/// Whether a kind of media may have an extension.
pub open spec fn media_allowed(kind: Seq<char>, ext: Seq<char>) -> bool {
    if kind == "image"@ {
        ext == "png"@ || ext == "jpg"@ || ext == "jpeg"@ || ext == "webp"@ || ext == "gif"@
    } else if kind == "video"@ {
        ext == "mp4"@ || ext == "webm"@ || ext == "mov"@
    } else {
        false
    }
}

/// The refusal of a media file, where it is refused.
pub open spec fn media_refusal(
    kind: Seq<char>,
    ext: Seq<char>,
    bytes: u64,
    image_valid: bool,
    video_valid: bool,
) -> Option<Seq<char>> {
    let e = media_extension(ext);
    if bytes > MAX_MEDIA_ASSET_BYTES {
        Some("媒体资产超过 512 MiB 大小限制"@)
    } else if !is_plain_word(e) {
        Some("无效的媒体扩展名"@)
    } else if !media_allowed(kind, e) {
        Some("不支持的媒体类型或扩展名: "@ + kind + "."@ + e)
    } else if kind == "image"@ && !image_valid {
        Some("图片资产内容格式校验失败"@)
    } else if kind == "video"@ && !video_valid {
        Some("视频资产内容格式校验失败: "@ + e)
    } else {
        None
    }
}

fn strip_dots(ext: &str) -> (r: String)
    ensures
        r@ == without_dots(ext@),
{
    let cs = chars_of(ext);
    let mut from: usize = 0;
    assert(cs@.subrange(0, cs.len() as int) =~= cs@);
    while from < cs.len() && cs[from] == '.'
        invariant
            from <= cs.len(),
            without_dots(cs@) == without_dots(cs@.subrange(from as int, cs.len() as int)),
        decreases cs.len() - from,
    {
        proof {
            let s = cs@.subrange(from as int, cs.len() as int);
            assert(s[0] == '.');
            assert(s.subrange(1, s.len() as int) =~= cs@.subrange(from + 1, cs.len() as int));
        }
        from += 1;
    }
    proof {
        let s = cs@.subrange(from as int, cs.len() as int);
        if from < cs.len() {
            assert(s[0] == cs@[from as int]);
        }
    }
    string_between(&cs, from, cs.len())
}

fn plain_word(s: &str) -> (r: bool)
    ensures
        r == is_plain_word(s@),
{
    let cs = chars_of(s);
    if cs.len() == 0 {
        return false;
    }
    let mut i: usize = 0;
    while i < cs.len()
        invariant
            i <= cs.len(),
            cs@ == s@,
            forall|j: int| 0 <= j < i ==> is_ascii_alphanumeric(#[trigger] s@[j]),
        decreases cs.len() - i,
    {
        let c = cs[i];
        if !(('a' <= c && c <= 'z') || ('A' <= c && c <= 'Z') || ('0' <= c && c <= '9')) {
            assert(!is_ascii_alphanumeric(s@[i as int]));
            return false;
        }
        i += 1;
    }
    true
}

/// Checks a media file to be saved. `image_valid` and `video_valid` tell whether its bytes are
/// an image, and a video of its extension. The result is the extension.
pub fn check_media_asset(
    kind: &str,
    ext: &str,
    bytes: u64,
    image_valid: bool,
    video_valid: bool,
) -> (r: Result<String, String>)
    ensures
        match media_refusal(kind@, ext@, bytes, image_valid, video_valid) {
            Some(e) => r matches Err(f) && f@ == e,
            None => r matches Ok(s) && s@ == media_extension(ext@),
        },
{
    if bytes > MAX_MEDIA_ASSET_BYTES {
        return Err(owned("媒体资产超过 512 MiB 大小限制"));
    }
    let e = to_ascii_lowercase(strip_dots(ext).as_str());
    if !plain_word(e.as_str()) {
        return Err(owned("无效的媒体扩展名"));
    }
    let image = same(kind, "image");
    let video = same(kind, "video");
    let x = e.as_str();
    let allowed = if image {
        same(x, "png") || same(x, "jpg") || same(x, "jpeg") || same(x, "webp") || same(x, "gif")
    } else if video {
        same(x, "mp4") || same(x, "webm") || same(x, "mov")
    } else {
        false
    };
    if !allowed {
        let mut out = owned("不支持的媒体类型或扩展名: ");
        out.append(kind);
        out.append(".");
        out.append(x);
        return Err(out);
    }
    if image && !image_valid {
        return Err(owned("图片资产内容格式校验失败"));
    }
    if video && !video_valid {
        return Err(concat2("视频资产内容格式校验失败: ", x));
    }
    Ok(e)
}

/// The folder of a kind of media.
pub fn kind_folder(kind: &str) -> (r: &'static str)
    ensures
        r@ == if kind@ == "video"@ {
            "视频"@
        } else {
            "图片"@
        },
{
    if same(kind, "video") {
        "视频"
    } else {
        "图片"
    }
}

// ---------------------------------------------------------------------------
// Case images
// ---------------------------------------------------------------------------

/// A text with forward slashes only.
pub open spec fn with_slashes(s: Seq<char>) -> Seq<char> {
    s.map_values(
        |c: char|
            if c == '\\' {
                '/'
            } else {
                c
            },
    )
}

/// The last part of a path, in small letters.
pub open spec fn plain_file_name(file_name: Seq<char>) -> Seq<char> {
    lowered(after_last_char(with_slashes(trimmed(file_name)), '/'))
}

/// The formats of case images.
pub open spec fn is_case_format(s: Seq<char>) -> bool {
    s == "jpg"@ || s == "jpeg"@ || s == "png"@ || s == "webp"@ || s == "gif"@
}

/// Whether a name is `case` followed by one or more digits.
pub open spec fn is_case_stem(s: Seq<char>) -> bool {
    begins_with(s, "case"@) && all_digits(s.subrange(4, s.len() as int))
}

/// The name of a case image, or why a name is none.
pub open spec fn case_image_name(file_name: Seq<char>) -> Result<Seq<char>, Seq<char>> {
    let name = plain_file_name(file_name);
    match rsplit_once_at(name, '.') {
        None => Err("无效的案例图文件名"@),
        Some(p) => if !is_case_format(p.1) {
            Err("不支持的案例图格式"@)
        } else if !is_case_stem(p.0) {
            Err("无效的案例图文件名"@)
        } else {
            Ok(name)
        },
    }
}

fn forward_slashes(s: &str) -> (r: String)
    ensures
        r@ == with_slashes(s@),
{
    let cs = chars_of(s);
    let mut out: Vec<char> = Vec::new();
    let mut i: usize = 0;
    while i < cs.len()
        invariant
            i <= cs.len(),
            out.len() == i,
            forall|j: int| 0 <= j < i ==> #[trigger] out@[j] == with_slashes(cs@)[j],
        decreases cs.len() - i,
    {
        out.push(
            if cs[i] == '\\' {
                '/'
            } else {
                cs[i]
            },
        );
        i += 1;
    }
    assert(out@ =~= with_slashes(cs@));
    string_of(&out)
}

fn case_stem(s: &str) -> (r: bool)
    ensures
        r == is_case_stem(s@),
{
    if !starts_with(s, "case") {
        return false;
    }
    proof {
        reveal_strlit("case");
        assert("case"@.len() == 4);
    }
    let cs = chars_of(s);
    let ghost rest = s@.subrange(4, s@.len() as int);
    if cs.len() <= 4 {
        return false;
    }
    let mut i: usize = 4;
    while i < cs.len()
        invariant
            4 <= i <= cs.len(),
            cs@ == s@,
            rest == s@.subrange(4, s@.len() as int),
            forall|j: int| 0 <= j < i - 4 ==> is_digit(#[trigger] rest[j]),
        decreases cs.len() - i,
    {
        assert(rest[i - 4] == cs@[i as int]);
        if !('0' <= cs[i] && cs[i] <= '9') {
            assert(!is_digit(rest[i - 4]));
            return false;
        }
        i += 1;
    }
    true
}

/// Reads the name of a case image.
pub fn promptlib_image_filename(file_name: &str) -> (r: Result<String, String>)
    ensures
        result_view(r) == case_image_name(file_name@),
{
    let path = forward_slashes(trim(file_name).as_str());
    let name = to_ascii_lowercase(after_last(path.as_str(), '/').as_str());
    let (stem, ext) = match rsplit_once(name.as_str(), '.') {
        Some(p) => p,
        None => return Err(owned("无效的案例图文件名")),
    };
    let e = ext.as_str();
    if !(same(e, "jpg") || same(e, "jpeg") || same(e, "png") || same(e, "webp") || same(e, "gif")) {
        return Err(owned("不支持的案例图格式"));
    }
    if !case_stem(stem.as_str()) {
        return Err(owned("无效的案例图文件名"));
    }
    Ok(name)
}

/// The address of a case image.
pub fn promptlib_image_url(file_name: &str) -> (r: String)
    ensures
        r@ == "https://"@ + PROMPTLIB_IMAGE_HOST@ + PROMPTLIB_IMAGE_PREFIX@ + file_name@,
{
    let mut out = owned("https://");
    out.append(PROMPTLIB_IMAGE_HOST);
    out.append(PROMPTLIB_IMAGE_PREFIX);
    out.append(file_name);
    out
}

/// Checks a downloaded case image.
pub fn check_promptlib_image(bytes: u64, image_valid: bool) -> (r: Result<(), String>)
    ensures
        if bytes > MAX_PROMPTLIB_IMAGE_BYTES {
            r matches Err(e) && e@ == "案例图超过 8 MiB 大小限制"@
        } else if !image_valid {
            r matches Err(e) && e@ == "案例图内容格式校验失败"@
        } else {
            r is Ok
        },
{
    if bytes > MAX_PROMPTLIB_IMAGE_BYTES {
        Err(owned("案例图超过 8 MiB 大小限制"))
    } else if !image_valid {
        Err(owned("案例图内容格式校验失败"))
    } else {
        Ok(())
    }
}

/// A file in the directory of the case images.
#[derive(Debug)]
pub struct CachedFile {
    pub path: String,
    pub name: String,
}

/// The paths of the files that are case images.
pub open spec fn cached_paths(files: Seq<CachedFile>) -> Seq<Seq<char>>
    decreases files.len(),
{
    if files.len() == 0 {
        Seq::empty()
    } else {
        let before = cached_paths(files.drop_last());
        if case_image_name(files.last().name@) is Ok {
            before.push(files.last().path@)
        } else {
            before
        }
    }
}

/// Lists the case images among the files of their directory.
pub fn list_cached_promptlib_images(files: &Vec<CachedFile>) -> (r: Vec<String>)
    ensures
        texts_view(r@) == cached_paths(files@),
{
    let mut out: Vec<String> = Vec::new();
    let mut i: usize = 0;
    assert(texts_view(out@) =~= cached_paths(files@.take(0)));
    while i < files.len()
        invariant
            i <= files.len(),
            texts_view(out@) == cached_paths(files@.take(i as int)),
        decreases files.len() - i,
    {
        proof {
            assert(files@.take(i + 1).drop_last() =~= files@.take(i as int));
            assert(files@.take(i + 1).last() == files@[i as int]);
        }
        match promptlib_image_filename(files[i].name.as_str()) {
            Ok(_) => {
                let ghost before = texts_view(out@);
                out.push(files[i].path.clone());
                assert(texts_view(out@) =~= before.push(files@[i as int].path@));
            },
            Err(_) => {},
        }
        i += 1;
    }
    assert(files@.take(i as int) =~= files@);
    out
}

/// A name that is accepted for a case image holds no slash: the image stays in its directory.
pub proof fn case_image_name_holds_no_slash(file_name: Seq<char>)
    requires
        case_image_name(file_name) is Ok,
    ensures
        forall|i: int|
            0 <= i < case_image_name(file_name)->Ok_0.len() ==> (#[trigger] case_image_name(
                file_name,
            )->Ok_0[i]) != '/' && case_image_name(file_name)->Ok_0[i] != '\\',
{
    let path = with_slashes(trimmed(file_name));
    let tail = after_last_char(path, '/');
    crate::text::lemma_after_last(path, '/');
    let name = plain_file_name(file_name);
    assert forall|i: int| 0 <= i < name.len() implies (#[trigger] name[i]) != '/' && name[i]
        != '\\' by {
        let k = crate::text::last_index(path, '/') + 1 + i;
        assert(tail[i] == path[k]);
        assert(path[k] != '\\');
        assert(tail[i] != '/');
        assert(name[i] == crate::text::lower_char(tail[i]));
    }
}

// ---------------------------------------------------------------------------
// Video segments
// ---------------------------------------------------------------------------

/// How many segments were removed, left alone, and could not be removed.
#[derive(Debug, PartialEq, Eq)]
pub struct CleanupResult {
    pub removed: usize,
    pub skipped: usize,
    pub failed: usize,
}

/// What is known of a segment: the components of its resolved path and of the resolved
/// directory of the videos, and whether it is a file.
#[derive(Debug)]
pub struct SegmentFacts {
    pub path: Option<Vec<String>>,
    pub root: Option<Vec<String>>,
    pub is_file: bool,
}

/// Whether a file name is that of a generated segment.
pub open spec fn is_segment_name(name: Seq<char>) -> bool {
    begins_with(name, "seg_"@) && finishes_with(name, ".mp4"@)
}

/// Whether a segment may be removed: a file of the right name under the directory of the
/// videos.
pub open spec fn is_removable(f: SegmentFacts) -> bool {
    &&& f.path is Some
    &&& f.root is Some
    &&& lies_under(texts_view(f.path->0@), texts_view(f.root->0@))
    &&& f.path->0@.len() > 0
    &&& is_segment_name(f.path->0@.last()@)
    &&& f.is_file
}

/// Decides whether a segment may be removed.
pub fn segment_is_removable(facts: &SegmentFacts) -> (r: bool)
    ensures
        r == is_removable(*facts),
{
    match (&facts.path, &facts.root) {
        (Some(path), Some(root)) => {
            if path.len() == 0 || !path_lies_under(path, root) || !facts.is_file {
                return false;
            }
            let name = path[path.len() - 1].as_str();
            starts_with(name, "seg_") && ends_with(name, ".mp4")
        },
        _ => false,
    }
}

/// Whether the directory that a removed segment was in may be removed too, where it is empty:
/// one below the directory of the videos, not that directory itself.
pub fn segment_parent_is_removable(parent: &Vec<String>, root: &Vec<String>) -> (r: bool)
    ensures
        r == (lies_under(texts_view(parent@), texts_view(root@)) && parent.len() != root.len()),
{
    path_lies_under(parent, root) && parent.len() != root.len()
}

/// What became of a segment.
#[derive(Debug, Clone, Copy, PartialEq, Eq, Structural)]
pub enum SegmentOutcome {
    Removed,
    Skipped,
    Failed,
}

/// How many segments had an outcome.
pub open spec fn outcome_count(v: Seq<SegmentOutcome>, o: SegmentOutcome) -> nat
    decreases v.len(),
{
    if v.len() == 0 {
        0
    } else {
        outcome_count(v.drop_last(), o) + if v.last() == o {
            1nat
        } else {
            0nat
        }
    }
}

/// Counts what became of segments.
pub fn cleanup_result(outcomes: &Vec<SegmentOutcome>) -> (r: CleanupResult)
    ensures
        r.removed == outcome_count(outcomes@, SegmentOutcome::Removed),
        r.skipped == outcome_count(outcomes@, SegmentOutcome::Skipped),
        r.failed == outcome_count(outcomes@, SegmentOutcome::Failed),
        r.removed + r.skipped + r.failed == outcomes.len(),
{
    let mut r = CleanupResult { removed: 0, skipped: 0, failed: 0 };
    let mut i: usize = 0;
    assert(outcomes@.take(0) =~= Seq::<SegmentOutcome>::empty());
    while i < outcomes.len()
        invariant
            i <= outcomes.len(),
            r.removed == outcome_count(outcomes@.take(i as int), SegmentOutcome::Removed),
            r.skipped == outcome_count(outcomes@.take(i as int), SegmentOutcome::Skipped),
            r.failed == outcome_count(outcomes@.take(i as int), SegmentOutcome::Failed),
            r.removed + r.skipped + r.failed == i,
        decreases outcomes.len() - i,
    {
        proof {
            assert(outcomes@.take(i + 1).drop_last() =~= outcomes@.take(i as int));
            assert(outcomes@.take(i + 1).last() == outcomes@[i as int]);
        }
        match outcomes[i] {
            SegmentOutcome::Removed => {
                r.removed = r.removed + 1;
            },
            SegmentOutcome::Skipped => {
                r.skipped = r.skipped + 1;
            },
            SegmentOutcome::Failed => {
                r.failed = r.failed + 1;
            },
        }
        i += 1;
    }
    assert(outcomes@.take(i as int) =~= outcomes@);
    r
}

// ---------------------------------------------------------------------------
// Models and runs
// ---------------------------------------------------------------------------

/// The identifiers in a model catalogue: those that are texts.
pub open spec fn catalogue_ids(items: Seq<JsonView>) -> Seq<Seq<char>>
    decreases items.len(),
{
    if items.len() == 0 {
        Seq::empty()
    } else {
        let before = catalogue_ids(items.drop_last());
        match text_at(items.last(), "id"@) {
            Some(id) => before.push(id),
            None => before,
        }
    }
}

/// The identifiers in the answer of a model catalogue.
pub open spec fn answer_ids(answer: JsonView) -> Seq<Seq<char>> {
    match items_at(answer, "data"@) {
        Some(items) => catalogue_ids(items),
        None => Seq::empty(),
    }
}

/// Reads the identifiers in the answer of a model catalogue.
pub fn model_ids(answer: &Json) -> (r: Vec<String>)
    ensures
        texts_view(r@) == answer_ids(answer@),
{
    let mut out: Vec<String> = Vec::new();
    assert(texts_view(out@) =~= Seq::<Seq<char>>::empty());
    let items = match answer.items_at("data") {
        Some(items) => items,
        None => return out,
    };
    let ghost views = items_view(items@);
    let mut i: usize = 0;
    assert(views.take(0) =~= Seq::<JsonView>::empty());
    while i < items.len()
        invariant
            i <= items.len(),
            views == items_view(items@),
            texts_view(out@) == catalogue_ids(views.take(i as int)),
        decreases items.len() - i,
    {
        proof {
            assert(views.take(i + 1).drop_last() =~= views.take(i as int));
            assert(views.take(i + 1).last() == items@[i as int]@);
        }
        match items[i].text_at("id") {
            Some(id) => {
                let ghost before = texts_view(out@);
                out.push(owned(id));
                assert(texts_view(out@) =~= before.push(id@));
            },
            None => {},
        }
        i += 1;
    }
    assert(views.take(i as int) =~= views);
    out
}

/// The image models: those of the catalogue where it answered with any, else the known ones.
pub fn image_models(answer: Option<&Json>, known: Vec<String>) -> (r: Vec<String>)
    ensures
        texts_view(r@) == match answer {
            Some(a) => if answer_ids(a@).len() > 0 {
                answer_ids(a@)
            } else {
                texts_view(known@)
            },
            None => texts_view(known@),
        },
{
    match answer {
        Some(a) => {
            let ids = model_ids(a);
            assert(texts_view(ids@).len() == ids.len());
            if ids.len() > 0 {
                ids
            } else {
                known
            }
        },
        None => known,
    }
}

/// The address of the catalogue of video models, where it can be asked: the service has an
/// address of that kind and a key. Else the known models are listed.
pub fn video_catalogue(config: &ConfigState) -> (r: Option<String>)
    ensures
        opt_view(r) == if is_blank(config.video_api_key@) {
            None
        } else {
            crate::config::models_address(config.video_api_url@)
        },
{
    if blank(config.video_api_key.as_str()) {
        None
    } else {
        crate::config::models_endpoint(config.video_api_url.as_str())
    }
}

/// The address and the model of a chat, where the text service is configured.
pub fn llm_chat(config: &ConfigState, model: Option<&str>) -> (r: Result<(String, String), String>)
    ensures
        if config.llm_api_url@.len() == 0 || config.llm_api_key@.len() == 0 {
            r matches Err(e) && e@ == "未配置文本 LLM（请在设置中填写 LLM 地址与 Key）"@
        } else {
            r matches Ok(p) && p.0@ == without_end_slashes(config.llm_api_url@)
                + "/chat/completions"@ && p.1@ == match model {
                Some(m) => m@,
                None => config.llm_model@,
            }
        },
{
    if config.llm_api_url.as_str().is_empty() || config.llm_api_key.as_str().is_empty() {
        return Err(owned("未配置文本 LLM（请在设置中填写 LLM 地址与 Key）"));
    }
    let url = chat_url(config.llm_api_url.as_str());
    let model = match model {
        Some(m) => owned(m),
        None => config.llm_model.clone(),
    };
    Ok((url, model))
}

/// The address and the model of an orchestration, where the text service is configured.
pub fn agent_target(config: &ConfigState, model: Option<&str>) -> (r: Result<
    (String, String),
    String,
>)
    ensures
        if config.llm_api_url@.len() == 0 || config.llm_api_key@.len() == 0 {
            r matches Err(e) && e@ == "未配置文本 LLM"@
        } else {
            r matches Ok(p) && p.0@ == without_end_slashes(config.llm_api_url@)
                + "/chat/completions"@ && p.1@ == match model {
                Some(m) => m@,
                None => config.llm_model@,
            }
        },
{
    match llm_chat(config, model) {
        Ok(p) => Ok(p),
        Err(_) => Err(owned("未配置文本 LLM")),
    }
}

/// The video models of a catalogue, which must name at least one.
pub fn video_models(answer: &Json) -> (r: Result<Vec<String>, String>)
    ensures
        if answer_ids(answer@).len() == 0 {
            r matches Err(e) && e@
                == "视频模型目录为空，请确认使用的是视频 API Key，并检查权限和 Base URL"@
        } else {
            r matches Ok(v) && texts_view(v@) == answer_ids(answer@)
        },
{
    let ids = model_ids(answer);
    assert(texts_view(ids@).len() == ids.len());
    if ids.len() == 0 {
        return Err(
            owned("视频模型目录为空，请确认使用的是视频 API Key，并检查权限和 Base URL"),
        );
    }
    Ok(ids)
}

/// The texts of a list that are not blank, trimmed.
pub open spec fn given_texts(items: Seq<JsonView>) -> Seq<Seq<char>>
    decreases items.len(),
{
    if items.len() == 0 {
        Seq::empty()
    } else {
        let before = given_texts(items.drop_last());
        match as_text(Some(items.last())) {
            Some(s) => if is_blank(s) {
                before
            } else {
                before.push(trimmed(s))
            },
            None => before,
        }
    }
}

/// Reads the texts of a list that are not blank.
pub fn string_array(value: &Json, key: &str) -> (r: Vec<String>)
    ensures
        texts_view(r@) == match items_at(value@, key@) {
            Some(items) => given_texts(items),
            None => Seq::empty(),
        },
{
    let mut out: Vec<String> = Vec::new();
    assert(texts_view(out@) =~= Seq::<Seq<char>>::empty());
    let items = match value.items_at(key) {
        Some(items) => items,
        None => return out,
    };
    let ghost views = items_view(items@);
    let mut i: usize = 0;
    assert(views.take(0) =~= Seq::<JsonView>::empty());
    while i < items.len()
        invariant
            i <= items.len(),
            views == items_view(items@),
            texts_view(out@) == given_texts(views.take(i as int)),
        decreases items.len() - i,
    {
        proof {
            assert(views.take(i + 1).drop_last() =~= views.take(i as int));
            assert(views.take(i + 1).last() == items@[i as int]@);
        }
        match items[i].as_str() {
            Some(s) => {
                let t = trim(s);
                if !t.as_str().is_empty() {
                    let ghost before = texts_view(out@);
                    out.push(t);
                    assert(texts_view(out@) =~= before.push(t@));
                }
            },
            None => {},
        }
        i += 1;
    }
    assert(views.take(i as int) =~= views);
    out
}

/// What a node asks of the video service.
#[derive(Debug)]
pub struct VideoRequest {
    pub model: String,
    pub prompt: String,
    pub duration_s: u32,
    pub aspect_ratio: Option<String>,
    pub resolution: Option<String>,
    pub mode: Option<String>,
    pub images: Vec<String>,
    pub videos: Vec<String>,
    pub audios: Vec<String>,
}

/// Reads what a node asks of the video service; `local_images` are appended to the images it
/// names. A prompt must be given.
pub fn video_request(config: &Json, video_model: &str, local_images: &Vec<String>) -> (r: Result<
    VideoRequest,
    String,
>)
    ensures
        match text_at(config@, "prompt"@) {
            Some(prompt) => if is_blank(prompt) {
                r matches Err(e) && e@ == "缺少提示词"@
            } else {
                r matches Ok(q) && q.prompt@ == prompt && q.model@ == (match text_at(
                    config@,
                    "model"@,
                ) {
                    Some(m) => m,
                    None => video_model@,
                }) && q.duration_s == (match u32_at(config@, "duration_s"@) {
                    Some(d) => d,
                    None => 5,
                }) && opt_view(q.aspect_ratio) == text_at(config@, "aspect_ratio"@) && opt_view(
                    q.resolution,
                ) == text_at(config@, "resolution"@) && opt_view(q.mode) == text_at(
                    config@,
                    "mode"@,
                ) && texts_view(q.images@) == listed_texts(config@, "images"@) + texts_view(
                    local_images@,
                ) && texts_view(q.videos@) == listed_texts(config@, "videos"@) && texts_view(
                    q.audios@,
                ) == listed_texts(config@, "audios"@)
            },
            None => r matches Err(e) && e@ == "缺少提示词"@,
        },
{
    let prompt = match get_str(config, "prompt") {
        Some(prompt) => prompt,
        None => return Err(owned("缺少提示词")),
    };
    if blank(prompt.as_str()) {
        return Err(owned("缺少提示词"));
    }
    let mut images = string_array(config, "images");
    let ghost named = texts_view(images@);
    let mut i: usize = 0;
    assert(named + texts_view(local_images@.take(0)) =~= named);
    while i < local_images.len()
        invariant
            i <= local_images.len(),
            texts_view(images@) == named + texts_view(local_images@.take(i as int)),
        decreases local_images.len() - i,
    {
        let ghost before = texts_view(images@);
        images.push(local_images[i].clone());
        proof {
            assert(texts_view(images@) =~= before.push(local_images@[i as int]@));
            assert(texts_view(images@) =~= named + texts_view(local_images@.take(i + 1)));
        }
        i += 1;
    }
    assert(local_images@.take(i as int) =~= local_images@);
    Ok(
        VideoRequest {
            model: match get_str(config, "model") {
                Some(m) => m,
                None => owned(video_model),
            },
            prompt,
            duration_s: match get_u32(config, "duration_s") {
                Some(d) => d,
                None => 5,
            },
            aspect_ratio: get_str(config, "aspect_ratio"),
            resolution: get_str(config, "resolution"),
            mode: get_str(config, "mode"),
            images,
            videos: string_array(config, "videos"),
            audios: string_array(config, "audios"),
        },
    )
}

/// The texts of a list in a field.
pub open spec fn listed_texts(config: JsonView, key: Seq<char>) -> Seq<Seq<char>> {
    match items_at(config, key) {
        Some(items) => given_texts(items),
        None => Seq::empty(),
    }
}

/// Decides whether a node of a category is run by the image service.
pub fn check_node_category(category: &str) -> (r: Result<(), String>)
    ensures
        if category@ == "generate"@ || category@ == "ai_process"@ {
            r is Ok
        } else {
            r matches Err(e) && e@ == "未知节点类别: "@ + category@
        },
{
    if same(category, "generate") || same(category, "ai_process") {
        Ok(())
    } else {
        Err(concat2("未知节点类别: ", category))
    }
}

/// The letters and numbers of a text, with one dash for everything between two of them.
pub open spec fn dashed(s: Seq<char>) -> Seq<char>
    decreases s.len(),
{
    if s.len() == 0 {
        Seq::empty()
    } else {
        let before = dashed(s.drop_last());
        if !is_alphanumeric(s.last()) {
            before
        } else if before.len() > 0 && !is_alphanumeric(s[s.len() - 2]) {
            before.push('-').push(s.last())
        } else {
            before.push(s.last())
        }
    }
}

/// At most so many characters of a text.
pub open spec fn at_most(s: Seq<char>, n: int) -> Seq<char> {
    if s.len() > n {
        s.subrange(0, n)
    } else {
        s
    }
}

/// The name of the folder of a run: when it began, what it was asked for, and a short digest
/// of that.
pub open spec fn run_folder(time: Seq<char>, prompt: Seq<char>) -> Seq<char> {
    folder_name(time, dashed(prompt), md5_hex(prompt))
}

/// The name of the folder of a run from its words and a digest.
pub open spec fn folder_name(time: Seq<char>, words: Seq<char>, digest: Seq<char>) -> Seq<char> {
    let label = if words.len() == 0 {
        "gen"@
    } else {
        words
    };
    time + "_"@ + at_most(label, 24) + "_"@ + at_most(digest, 6)
}

fn dash_words(prompt: &str) -> (r: Vec<char>)
    ensures
        r@ == dashed(prompt@),
{
    let cs = chars_of(prompt);
    let mut out: Vec<char> = Vec::new();
    let mut gap = false;
    let mut i: usize = 0;
    assert(cs@.take(0) =~= Seq::<char>::empty());
    while i < cs.len()
        invariant
            i <= cs.len(),
            out@ == dashed(cs@.take(i as int)),
            gap == (i > 0 && !is_alphanumeric(cs@[i - 1])),
        decreases cs.len() - i,
    {
        proof {
            let t = cs@.take(i + 1);
            assert(t.drop_last() =~= cs@.take(i as int));
            assert(t.last() == cs@[i as int]);
            if i > 0 {
                assert(t[t.len() - 2] == cs@[i - 1]);
            } else {
                assert(cs@.take(i as int) =~= Seq::<char>::empty());
            }
        }
        if alphanumeric(cs[i]) {
            if out.len() > 0 && gap {
                out.push('-');
            }
            out.push(cs[i]);
            gap = false;
        } else {
            gap = true;
        }
        i += 1;
    }
    assert(cs@.take(i as int) =~= cs@);
    out
}

fn cut(cs: &Vec<char>, n: usize) -> (r: String)
    ensures
        r@ == at_most(cs@, n as int),
{
    if cs.len() > n {
        string_between(cs, 0, n)
    } else {
        string_of(cs)
    }
}

/// The name of the folder of a run; `time` is when it began.
pub fn run_tag(config: &Json, time: &str) -> (r: String)
    ensures
        r@ == run_folder(
            time@,
            match text_at(config@, "prompt"@) {
                Some(prompt) => prompt,
                None => Seq::empty(),
            },
        ),
{
    let prompt = match get_str(config, "prompt") {
        Some(prompt) => prompt,
        None => String::new(),
    };
    let words = string_of(&dash_words(prompt.as_str()));
    run_name(time, words.as_str(), md5_digest(prompt.as_str()).as_str())
}

/// The name of the folder of a run; `words` are the words of what it was asked for, and
/// `digest` is the digest of that.
pub fn run_name(time: &str, words: &str, digest: &str) -> (r: String)
    ensures
        r@ == folder_name(time@, words@, digest@),
{
    let label = if words.is_empty() {
        chars_of("gen")
    } else {
        chars_of(words)
    };
    let mut out = owned(time);
    out.append("_");
    out.append(cut(&label, 24).as_str());
    out.append("_");
    out.append(cut(&chars_of(digest), 6).as_str());
    out
}

} // verus!
