//! The service configuration: which service is ready, where output goes, and how a new
//! configuration is taken over.
use crate::json::{
    as_text, equal_objects_hold_the_same, field, fields, is_plain, json_same, json_same_reflexive,
    lookup, members_pretty, named_texts, names_distinct, no_members, parse, render_members,
    texts_object, Json, JsonView,
};
use crate::text::{
    begins_with, chars_of, concat2, find, first_at, opt_view, owned, same, starts_with,
    string_between, texts_view, trim, trimmed,
};
use vstd::prelude::*;

verus! {

/// The setting that stands for the directory of the assets.
pub const DEFAULT_OUTPUT_DIR: &'static str = "$DEFAULT_ASSETS";

/// What a caller may know of the configuration: addresses and readiness, no keys.
#[derive(Debug)]
pub struct ConfigStatus {
    pub image_ready: bool,
    pub video_ready: bool,
    pub llm_ready: bool,
    pub image_api_url: Option<String>,
    pub video_api_url: Option<String>,
    pub image_model: String,
    pub video_model: String,
    pub llm_model: String,
    pub output_dir: String,
    pub source: String,
}

/// The configuration: one address, key and model for each of the three services.
#[derive(Debug)]
pub struct ConfigState {
    pub image_api_url: String,
    pub image_api_key: String,
    pub image_model: String,
    pub video_api_url: String,
    pub video_api_key: String,
    pub video_model: String,
    pub llm_api_url: String,
    pub llm_api_key: String,
    pub llm_model: String,
    pub output_dir: String,
    pub source: String,
}

/// What a configuration says.
pub struct ConfigView {
    pub image_api_url: Seq<char>,
    pub image_api_key: Seq<char>,
    pub image_model: Seq<char>,
    pub video_api_url: Seq<char>,
    pub video_api_key: Seq<char>,
    pub video_model: Seq<char>,
    pub llm_api_url: Seq<char>,
    pub llm_api_key: Seq<char>,
    pub llm_model: Seq<char>,
    pub output_dir: Seq<char>,
    pub source: Seq<char>,
}

impl View for ConfigState {
    type V = ConfigView;

    open spec fn view(&self) -> ConfigView {
        ConfigView {
            image_api_url: self.image_api_url@,
            image_api_key: self.image_api_key@,
            image_model: self.image_model@,
            video_api_url: self.video_api_url@,
            video_api_key: self.video_api_key@,
            video_model: self.video_model@,
            llm_api_url: self.llm_api_url@,
            llm_api_key: self.llm_api_key@,
            llm_model: self.llm_model@,
            output_dir: self.output_dir@,
            source: self.source@,
        }
    }
}

/// The source of a configuration that names none.
pub fn default_source() -> (r: String)
    ensures
        r@ == "none"@,
{
    owned("none")
}

// ---------------------------------------------------------------------------
// Output directory
// ---------------------------------------------------------------------------

/// Whether a character is an ASCII letter.
pub open spec fn is_ascii_letter(c: char) -> bool {
    'a' <= c <= 'z' || 'A' <= c <= 'Z'
}

/// Whether a path is absolute on the other kind of system: on Windows one that begins with a
/// single slash, elsewhere one that begins with a drive.
pub open spec fn is_foreign_absolute(value: Seq<char>, windows: bool) -> bool {
    if windows {
        begins_with(value, "/"@) && !begins_with(value, "//"@)
    } else {
        &&& value.len() >= 3
        &&& is_ascii_letter(value[0])
        &&& value[1] == ':'
        &&& value[2] == '\\' || value[2] == '/'
    }
}

/// Decides whether a path is absolute on the other kind of system.
pub fn looks_foreign_absolute(value: &str, windows: bool) -> (r: bool)
    ensures
        r == is_foreign_absolute(value@, windows),
{
    if windows {
        starts_with(value, "/") && !starts_with(value, "//")
    } else {
        let cs = chars_of(value);
        cs.len() >= 3 && (('a' <= cs[0] && cs[0] <= 'z') || ('A' <= cs[0] && cs[0] <= 'Z'))
            && cs[1] == ':' && (cs[2] == '\\' || cs[2] == '/')
    }
}

/// A setting for the output directory in its portable form: what is empty, names the
/// directory of the assets or belongs to another kind of system becomes the default.
pub open spec fn normalized_output(raw: Seq<char>, is_assets_dir: bool, windows: bool) -> Seq<char> {
    let value = trimmed(raw);
    if value.len() == 0 || value == DEFAULT_OUTPUT_DIR@ || is_assets_dir || is_foreign_absolute(
        value,
        windows,
    ) {
        DEFAULT_OUTPUT_DIR@
    } else {
        value
    }
}

/// Normalizes a setting for the output directory. `is_assets_dir` tells whether the trimmed
/// setting is the path of the assets.
pub fn normalize_output_setting(raw: &str, is_assets_dir: bool, windows: bool) -> (r: String)
    ensures
        r@ == normalized_output(raw@, is_assets_dir, windows),
{
    let value = trim(raw);
    if value.as_str().is_empty() || same(value.as_str(), DEFAULT_OUTPUT_DIR) || is_assets_dir
        || looks_foreign_absolute(value.as_str(), windows) {
        return owned(DEFAULT_OUTPUT_DIR);
    }
    value
}

/// Where output goes.
#[derive(Debug)]
pub enum OutputLocation {
    /// The directory of the assets.
    Assets,
    /// A path below the home of the user.
    Home(String),
    /// A path of its own.
    Absolute(String),
    /// A path below the directory of the data.
    Data(String),
}

/// Where output goes, in characters.
pub enum OutputView {
    Assets,
    Home(Seq<char>),
    Absolute(Seq<char>),
    Data(Seq<char>),
}

impl View for OutputLocation {
    type V = OutputView;

    open spec fn view(&self) -> OutputView {
        match self {
            OutputLocation::Assets => OutputView::Assets,
            OutputLocation::Home(s) => OutputView::Home(s@),
            OutputLocation::Absolute(s) => OutputView::Absolute(s@),
            OutputLocation::Data(s) => OutputView::Data(s@),
        }
    }
}

/// What the system says of a setting: whether it is the path of the assets, whether it is an
/// absolute path here, and whether this is Windows.
#[derive(Debug, Clone, Copy)]
pub struct PathFacts {
    pub is_assets_dir: bool,
    pub is_absolute: bool,
    pub windows: bool,
}

/// Where a setting sends output.
pub open spec fn resolved_output(raw: Seq<char>, facts: PathFacts) -> OutputView {
    let value = normalized_output(raw, facts.is_assets_dir, facts.windows);
    if value == DEFAULT_OUTPUT_DIR@ {
        OutputView::Assets
    } else if begins_with(value, "~/"@) || begins_with(value, "~\\"@) {
        OutputView::Home(value.subrange(2, value.len() as int))
    } else if facts.is_absolute {
        OutputView::Absolute(value)
    } else {
        OutputView::Data(value)
    }
}

/// Resolves a setting for the output directory.
pub fn resolve_output_path(raw: &str, facts: PathFacts) -> (r: OutputLocation)
    ensures
        r@ == resolved_output(raw@, facts),
{
    let value = normalize_output_setting(raw, facts.is_assets_dir, facts.windows);
    if same(value.as_str(), DEFAULT_OUTPUT_DIR) {
        return OutputLocation::Assets;
    }
    if starts_with(value.as_str(), "~/") || starts_with(value.as_str(), "~\\") {
        proof {
            reveal_strlit("~/");
            reveal_strlit("~\\");
            assert("~/"@.len() == 2 && "~\\"@.len() == 2);
        }
        let cs = chars_of(value.as_str());
        return OutputLocation::Home(string_between(&cs, 2, cs.len()));
    }
    if facts.is_absolute {
        OutputLocation::Absolute(value)
    } else {
        OutputLocation::Data(value)
    }
}

/// Normalizing a setting twice is normalizing it once.
pub proof fn normalized_output_is_fixed(raw: Seq<char>, is_assets_dir: bool, windows: bool)
    ensures
        normalized_output(
            normalized_output(raw, is_assets_dir, windows),
            is_assets_dir,
            windows,
        ) == normalized_output(raw, is_assets_dir, windows),
{
    crate::text::trim_is_idempotent(raw);
    if normalized_output(raw, is_assets_dir, windows) == DEFAULT_OUTPUT_DIR@ {
        reveal_strlit("$DEFAULT_ASSETS");
        let d = DEFAULT_OUTPUT_DIR@;
        assert(d.len() == 15 && d[0] == '$' && d[14] == 'S');
        crate::text::lemma_trimmed_fixed(d);
    }
}

// ---------------------------------------------------------------------------
// Loading
// ---------------------------------------------------------------------------

/// What the environment says of the configuration; empty where it says nothing.
#[derive(Debug)]
pub struct EnvSettings {
    pub image_api_url: String,
    pub image_api_key: String,
    pub image_model: String,
    pub video_api_url: String,
    pub video_api_key: String,
    pub video_model: String,
    pub llm_api_url: String,
    pub llm_api_key: String,
    pub llm_model: String,
    pub output_dir: String,
}

/// A text, or another where it is empty.
pub open spec fn or_default(s: Seq<char>, default: Seq<char>) -> Seq<char> {
    if s.len() == 0 {
        default
    } else {
        s
    }
}

fn text_or(s: String, default: &str) -> (r: String)
    ensures
        r@ == or_default(s@, default@),
{
    if s.as_str().is_empty() {
        owned(default)
    } else {
        s
    }
}

/// The configuration that the environment gives: with the standard models where it names none.
pub open spec fn env_config(env: EnvSettings, is_assets_dir: bool, windows: bool) -> ConfigView {
    ConfigView {
        image_api_url: env.image_api_url@,
        image_api_key: env.image_api_key@,
        image_model: or_default(env.image_model@, "gpt-image-2"@),
        video_api_url: env.video_api_url@,
        video_api_key: env.video_api_key@,
        video_model: or_default(env.video_model@, "kling-video-v3"@),
        llm_api_url: env.llm_api_url@,
        llm_api_key: env.llm_api_key@,
        llm_model: or_default(env.llm_model@, "gemini-3.7-flash"@),
        output_dir: normalized_output(env.output_dir@, is_assets_dir, windows),
        source: if env.image_api_url@.len() == 0 && env.video_api_url@.len() == 0 {
            "none"@
        } else {
            "env"@
        },
    }
}

impl ConfigState {
    /// A copy of the configuration.
    pub fn copy(&self) -> (r: ConfigState)
        ensures
            r@ == self@,
    {
        ConfigState {
            image_api_url: self.image_api_url.clone(),
            image_api_key: self.image_api_key.clone(),
            image_model: self.image_model.clone(),
            video_api_url: self.video_api_url.clone(),
            video_api_key: self.video_api_key.clone(),
            video_model: self.video_model.clone(),
            llm_api_url: self.llm_api_url.clone(),
            llm_api_key: self.llm_api_key.clone(),
            llm_model: self.llm_model.clone(),
            output_dir: self.output_dir.clone(),
            source: self.source.clone(),
        }
    }

    /// The configuration at start: the stored one where there is one, else that of the
    /// environment. `is_assets_dir` tells whether the output setting of the one taken is the
    /// path of the assets.
    pub fn load(
        stored: Option<ConfigState>,
        env: EnvSettings,
        is_assets_dir: bool,
        windows: bool,
    ) -> (r: ConfigState)
        ensures
            r@ == match stored {
                Some(c) => ConfigView {
                    output_dir: normalized_output(c@.output_dir, is_assets_dir, windows),
                    ..c@
                },
                None => env_config(env, is_assets_dir, windows),
            },
    {
        match stored {
            Some(c) => {
                let mut c = c;
                c.output_dir =
                normalize_output_setting(c.output_dir.as_str(), is_assets_dir, windows);
                c
            },
            None => {
                let source = if env.image_api_url.as_str().is_empty()
                    && env.video_api_url.as_str().is_empty() {
                    owned("none")
                } else {
                    owned("env")
                };
                ConfigState {
                    image_api_url: env.image_api_url,
                    image_api_key: env.image_api_key,
                    image_model: text_or(env.image_model, "gpt-image-2"),
                    video_api_url: env.video_api_url,
                    video_api_key: env.video_api_key,
                    video_model: text_or(env.video_model, "kling-video-v3"),
                    llm_api_url: env.llm_api_url,
                    llm_api_key: env.llm_api_key,
                    llm_model: text_or(env.llm_model, "gemini-3.7-flash"),
                    output_dir: normalize_output_setting(
                        env.output_dir.as_str(),
                        is_assets_dir,
                        windows,
                    ),
                    source,
                }
            },
        }
    }

    /// What a caller may know; `output_path` is the resolved output directory.
    pub fn status(&self, output_path: &str) -> (r: ConfigStatus)
        ensures
            r.image_ready == (self@.image_api_url.len() > 0 && self@.image_api_key.len() > 0),
            r.video_ready == (self@.video_api_url.len() > 0 && self@.video_api_key.len() > 0),
            r.llm_ready == (self@.llm_api_url.len() > 0 && self@.llm_api_key.len() > 0),
            opt_view(r.image_api_url) == if self@.image_api_url.len() == 0 {
                None
            } else {
                Some(self@.image_api_url)
            },
            opt_view(r.video_api_url) == if self@.video_api_url.len() == 0 {
                None
            } else {
                Some(self@.video_api_url)
            },
            r.image_model@ == self@.image_model,
            r.video_model@ == self@.video_model,
            r.llm_model@ == self@.llm_model,
            r.output_dir@ == output_path@,
            r.source@ == self@.source,
    {
        let image = !self.image_api_url.as_str().is_empty();
        let video = !self.video_api_url.as_str().is_empty();
        let llm = !self.llm_api_url.as_str().is_empty();
        ConfigStatus {
            image_ready: image && !self.image_api_key.as_str().is_empty(),
            video_ready: video && !self.video_api_key.as_str().is_empty(),
            llm_ready: llm && !self.llm_api_key.as_str().is_empty(),
            image_api_url: if image {
                Some(self.image_api_url.clone())
            } else {
                None
            },
            video_api_url: if video {
                Some(self.video_api_url.clone())
            } else {
                None
            },
            image_model: self.image_model.clone(),
            video_model: self.video_model.clone(),
            llm_model: self.llm_model.clone(),
            output_dir: owned(output_path),
            source: self.source.clone(),
        }
    }

    /// Where output goes.
    pub fn output_path(&self, facts: PathFacts) -> (r: OutputLocation)
        ensures
            r@ == resolved_output(self@.output_dir, facts),
    {
        resolve_output_path(self.output_dir.as_str(), facts)
    }

    /// The snapshot that is stored so that the configuration survives a restart.
    pub fn persist_backend(&self) -> (r: Json)
        ensures
            r@ == snapshot_value(self@),
    {
        fields().text("image_api_url", self.image_api_url.as_str()).text(
            "image_api_key",
            self.image_api_key.as_str(),
        ).text("image_model", self.image_model.as_str()).text(
            "video_api_url",
            self.video_api_url.as_str(),
        ).text("video_api_key", self.video_api_key.as_str()).text(
            "video_model",
            self.video_model.as_str(),
        ).text("llm_api_url", self.llm_api_url.as_str()).text(
            "llm_api_key",
            self.llm_api_key.as_str(),
        ).text("llm_model", self.llm_model.as_str()).text(
            "output_dir",
            self.output_dir.as_str(),
        ).text("source", self.source.as_str()).object()
    }
}

impl ConfigState {
    /// The text in which the configuration is stored.
    pub fn snapshot_text(&self) -> (r: String)
        ensures
            r@ == snapshot_text_of(self@),
    {
        let mut m: Vec<(String, String)> = Vec::new();
        m.push((owned("image_api_url"), self.image_api_url.clone()));
        m.push((owned("image_api_key"), self.image_api_key.clone()));
        m.push((owned("image_model"), self.image_model.clone()));
        m.push((owned("video_api_url"), self.video_api_url.clone()));
        m.push((owned("video_api_key"), self.video_api_key.clone()));
        m.push((owned("video_model"), self.video_model.clone()));
        m.push((owned("llm_api_url"), self.llm_api_url.clone()));
        m.push((owned("llm_api_key"), self.llm_api_key.clone()));
        m.push((owned("llm_model"), self.llm_model.clone()));
        m.push((owned("output_dir"), self.output_dir.clone()));
        m.push((owned("source"), self.source.clone()));
        assert(named_texts(m@) =~= snapshot_members(self@));
        render_members(&m)
    }
}

/// The settings of a configuration, in the order in which they are stored.
pub open spec fn snapshot_members(c: ConfigView) -> Seq<(Seq<char>, Seq<char>)> {
    Seq::empty()
        .push(("image_api_url"@, c.image_api_url))
        .push(("image_api_key"@, c.image_api_key))
        .push(("image_model"@, c.image_model))
        .push(("video_api_url"@, c.video_api_url))
        .push(("video_api_key"@, c.video_api_key))
        .push(("video_model"@, c.video_model))
        .push(("llm_api_url"@, c.llm_api_url))
        .push(("llm_api_key"@, c.llm_api_key))
        .push(("llm_model"@, c.llm_model))
        .push(("output_dir"@, c.output_dir))
        .push(("source"@, c.source))
}

/// The text in which a configuration is stored.
pub open spec fn snapshot_text_of(c: ConfigView) -> Seq<char> {
    members_pretty(snapshot_members(c))
}

/// The stored snapshot of a configuration.
pub open spec fn snapshot_value(c: ConfigView) -> JsonView {
    JsonView::Obj(
        no_members()
            .push(("image_api_url"@, JsonView::Str(c.image_api_url)))
            .push(("image_api_key"@, JsonView::Str(c.image_api_key)))
            .push(("image_model"@, JsonView::Str(c.image_model)))
            .push(("video_api_url"@, JsonView::Str(c.video_api_url)))
            .push(("video_api_key"@, JsonView::Str(c.video_api_key)))
            .push(("video_model"@, JsonView::Str(c.video_model)))
            .push(("llm_api_url"@, JsonView::Str(c.llm_api_url)))
            .push(("llm_api_key"@, JsonView::Str(c.llm_api_key)))
            .push(("llm_model"@, JsonView::Str(c.llm_model)))
            .push(("output_dir"@, JsonView::Str(c.output_dir)))
            .push(("source"@, JsonView::Str(c.source))),
    )
}

/// A setting of a snapshot: by name in an object, by place in an array.
pub open spec fn setting(j: JsonView, place: int, name: Seq<char>) -> Option<JsonView> {
    match j {
        JsonView::Obj(_) => field(j, name),
        JsonView::Arr(v) => if v.len() <= 11 && place < v.len() {
            Some(v[place])
        } else {
            None
        },
        _ => None,
    }
}

/// The configuration of a snapshot: all settings must be texts, and only the source may be
/// left out.
pub open spec fn snapshot_config(j: JsonView) -> Option<ConfigView> {
    match (
        (
            as_text(setting(j, 0, "image_api_url"@)),
            as_text(setting(j, 1, "image_api_key"@)),
            as_text(setting(j, 2, "image_model"@)),
            as_text(setting(j, 3, "video_api_url"@)),
            as_text(setting(j, 4, "video_api_key"@)),
            as_text(setting(j, 5, "video_model"@)),
        ),
        (
            as_text(setting(j, 6, "llm_api_url"@)),
            as_text(setting(j, 7, "llm_api_key"@)),
            as_text(setting(j, 8, "llm_model"@)),
            as_text(setting(j, 9, "output_dir"@)),
            match setting(j, 10, "source"@) {
                None => Some("none"@),
                Some(v) => as_text(Some(v)),
            },
        ),
    ) {
        (
            (
                Some(image_api_url),
                Some(image_api_key),
                Some(image_model),
                Some(video_api_url),
                Some(video_api_key),
                Some(video_model),
            ),
            (
                Some(llm_api_url),
                Some(llm_api_key),
                Some(llm_model),
                Some(output_dir),
                Some(source),
            ),
        ) => Some(
            ConfigView {
                image_api_url,
                image_api_key,
                image_model,
                video_api_url,
                video_api_key,
                video_model,
                llm_api_url,
                llm_api_key,
                llm_model,
                output_dir,
                source,
            },
        ),
        _ => None,
    }
}

fn find_setting<'a>(j: &'a Json, place: usize, name: &str) -> (r: Option<&'a Json>)
    ensures
        opt_view(r) == setting(j@, place as int, name@),
{
    broadcast use {crate::json::lemma_arr_view, crate::json::lemma_obj_view};

    match j {
        Json::Obj(_) => j.get(name),
        Json::Arr(v) => if v.len() <= 11 && place < v.len() {
            Some(&v[place])
        } else {
            None
        },
        _ => None,
    }
}

fn text_setting(j: &Json, place: usize, name: &str) -> (r: Option<String>)
    ensures
        opt_view(r) == as_text(setting(j@, place as int, name@)),
{
    match find_setting(j, place, name) {
        Some(v) => match v.as_str() {
            Some(s) => Some(owned(s)),
            None => None,
        },
        None => None,
    }
}

/// The largest stored configuration, in bytes.
pub const MAX_SNAPSHOT_BYTES: u64 = 1_048_576;

/// Whether a stored configuration is small enough to be read.
pub fn check_snapshot_size(bytes: u64) -> (r: Result<(), String>)
    ensures
        r is Ok <==> bytes <= MAX_SNAPSHOT_BYTES,
        r matches Err(e) ==> e@ == "后端配置文件超过 1 MiB 大小限制"@,
{
    if bytes <= MAX_SNAPSHOT_BYTES {
        Ok(())
    } else {
        Err(owned("后端配置文件超过 1 MiB 大小限制"))
    }
}

/// Reads a stored snapshot.
pub fn load_from_snapshot(j: &Json) -> (r: Option<ConfigState>)
    ensures
        opt_view(r) == snapshot_config(j@),
{
    let source = match find_setting(j, 10, "source") {
        None => Some(default_source()),
        Some(v) => match v.as_str() {
            Some(s) => Some(owned(s)),
            None => None,
        },
    };
    match (
        (
            text_setting(j, 0, "image_api_url"),
            text_setting(j, 1, "image_api_key"),
            text_setting(j, 2, "image_model"),
            text_setting(j, 3, "video_api_url"),
            text_setting(j, 4, "video_api_key"),
            text_setting(j, 5, "video_model"),
        ),
        (
            text_setting(j, 6, "llm_api_url"),
            text_setting(j, 7, "llm_api_key"),
            text_setting(j, 8, "llm_model"),
            text_setting(j, 9, "output_dir"),
            source,
        ),
    ) {
        (
            (
                Some(image_api_url),
                Some(image_api_key),
                Some(image_model),
                Some(video_api_url),
                Some(video_api_key),
                Some(video_model),
            ),
            (
                Some(llm_api_url),
                Some(llm_api_key),
                Some(llm_model),
                Some(output_dir),
                Some(source),
            ),
        ) => Some(
            ConfigState {
                image_api_url,
                image_api_key,
                image_model,
                video_api_url,
                video_api_key,
                video_model,
                llm_api_url,
                llm_api_key,
                llm_model,
                output_dir,
                source,
            },
        ),
        _ => None,
    }
}

/// The configuration of which a text is the stored form: the text that `snapshot_text` writes
/// of a configuration gives that configuration. A text that was written otherwise gives
/// nothing, though it may hold a configuration.
pub fn read_snapshot_text(text: &str) -> (r: Option<ConfigState>)
    ensures
        r matches Some(c) ==> snapshot_text_of(c@) == text@,
        forall|c: ConfigView| #[trigger] snapshot_text_of(c) == text@ ==> opt_view(r) == Some(c),
{
    let read = parse(text);
    proof {
        assert forall|c: ConfigView| #[trigger] snapshot_text_of(c) == text@ implies read is Some
            && snapshot_config(read->0@) == Some(c) by {
            lemma_snapshot_members(c);
            let m = snapshot_members(c);
            assert(texts_object(m)->Obj_0 =~= snapshot_value(c)->Obj_0);
            assert(members_pretty(m) == text@);
            equal_snapshot_reads_back(read->0@, c);
        }
    }
    let found = match read {
        Some(j) => load_from_snapshot(&j),
        None => None,
    };
    match found {
        Some(c) => if same(c.snapshot_text().as_str(), text) {
            Some(c)
        } else {
            None
        },
        None => None,
    }
}

/// A value that equals the snapshot of a configuration is read as that configuration.
pub proof fn equal_snapshot_reads_back(j: JsonView, c: ConfigView)
    requires
        names_distinct(j),
        json_same(j, snapshot_value(c)),
    ensures
        snapshot_config(j) == Some(c),
{
    lemma_snapshot_members(c);
    let m = snapshot_value(c)->Obj_0;
    let x = j->Obj_0;
    equal_objects_hold_the_same(x, m);
    assert(lookup(x, m[0].0) is Some && json_same(lookup(x, m[0].0)->0, m[0].1));
    assert(lookup(x, m[1].0) is Some && json_same(lookup(x, m[1].0)->0, m[1].1));
    assert(lookup(x, m[2].0) is Some && json_same(lookup(x, m[2].0)->0, m[2].1));
    assert(lookup(x, m[3].0) is Some && json_same(lookup(x, m[3].0)->0, m[3].1));
    assert(lookup(x, m[4].0) is Some && json_same(lookup(x, m[4].0)->0, m[4].1));
    assert(lookup(x, m[5].0) is Some && json_same(lookup(x, m[5].0)->0, m[5].1));
    assert(lookup(x, m[6].0) is Some && json_same(lookup(x, m[6].0)->0, m[6].1));
    assert(lookup(x, m[7].0) is Some && json_same(lookup(x, m[7].0)->0, m[7].1));
    assert(lookup(x, m[8].0) is Some && json_same(lookup(x, m[8].0)->0, m[8].1));
    assert(lookup(x, m[9].0) is Some && json_same(lookup(x, m[9].0)->0, m[9].1));
    assert(lookup(x, m[10].0) is Some && json_same(lookup(x, m[10].0)->0, m[10].1));
}

/// A stored configuration is read back as it was.
pub proof fn snapshot_reads_back(c: ConfigView)
    ensures
        snapshot_config(snapshot_value(c)) == Some(c),
{
    lemma_snapshot_members(c);
    json_same_reflexive(snapshot_value(c));
    equal_snapshot_reads_back(snapshot_value(c), c);
}

proof fn lemma_snapshot_members(c: ConfigView)
    ensures
        ({
            let m = snapshot_value(c)->Obj_0;
            &&& m.len() == 11
            &&& m[0] == ("image_api_url"@, JsonView::Str(c.image_api_url))
            &&& m[1] == ("image_api_key"@, JsonView::Str(c.image_api_key))
            &&& m[2] == ("image_model"@, JsonView::Str(c.image_model))
            &&& m[3] == ("video_api_url"@, JsonView::Str(c.video_api_url))
            &&& m[4] == ("video_api_key"@, JsonView::Str(c.video_api_key))
            &&& m[5] == ("video_model"@, JsonView::Str(c.video_model))
            &&& m[6] == ("llm_api_url"@, JsonView::Str(c.llm_api_url))
            &&& m[7] == ("llm_api_key"@, JsonView::Str(c.llm_api_key))
            &&& m[8] == ("llm_model"@, JsonView::Str(c.llm_model))
            &&& m[9] == ("output_dir"@, JsonView::Str(c.output_dir))
            &&& m[10] == ("source"@, JsonView::Str(c.source))
            &&& forall|i: int, j: int|
                0 <= i < j < m.len() ==> (#[trigger] m[i]).0 != (#[trigger] m[j]).0
        }),
        names_distinct(snapshot_value(c)),
        is_plain(snapshot_value(c), 100),
{
    let m = snapshot_value(c)->Obj_0;
    reveal_strlit("image_api_url");
    reveal_strlit("image_api_key");
    reveal_strlit("image_model");
    reveal_strlit("video_api_url");
    reveal_strlit("video_api_key");
    reveal_strlit("video_model");
    reveal_strlit("llm_api_url");
    reveal_strlit("llm_api_key");
    reveal_strlit("llm_model");
    reveal_strlit("output_dir");
    reveal_strlit("source");
    let names = seq![
        "image_api_url"@,
        "image_api_key"@,
        "image_model"@,
        "video_api_url"@,
        "video_api_key"@,
        "video_model"@,
        "llm_api_url"@,
        "llm_api_key"@,
        "llm_model"@,
        "output_dir"@,
        "source"@,
    ];
    assert(names[0].len() == 13 && names[0][0] == 'i' && names[0][10] == 'u');
    assert(names[1].len() == 13 && names[1][0] == 'i' && names[1][10] == 'k');
    assert(names[2].len() == 11 && names[2][0] == 'i');
    assert(names[3].len() == 13 && names[3][0] == 'v' && names[3][10] == 'u');
    assert(names[4].len() == 13 && names[4][0] == 'v' && names[4][10] == 'k');
    assert(names[5].len() == 11 && names[5][0] == 'v');
    assert(names[6].len() == 11 && names[6][0] == 'l' && names[6][8] == 'u');
    assert(names[7].len() == 11 && names[7][0] == 'l' && names[7][8] == 'k');
    assert(names[8].len() == 9 && names[9].len() == 10 && names[10].len() == 6);
    assert(m.len() == 11);
    assert(m[0].0 == names[0] && m[1].0 == names[1] && m[2].0 == names[2]);
    assert(m[3].0 == names[3] && m[4].0 == names[4] && m[5].0 == names[5]);
    assert(m[6].0 == names[6] && m[7].0 == names[7] && m[8].0 == names[8]);
    assert(m[9].0 == names[9] && m[10].0 == names[10]);
    assert forall|i: int, j: int| 0 <= i < j < m.len() implies (#[trigger] m[i]).0 != (
    #[trigger] m[j]).0 by {
        assert(m[i].0 == names[i] && m[j].0 == names[j]);
    }
    assert forall|i: int| 0 <= i < m.len() implies names_distinct((#[trigger] m[i]).1) && is_plain(
        m[i].1,
        99,
    ) by {
        assert(m[i].1 is Str);
    }
}

// ---------------------------------------------------------------------------
// Replacing the stored configuration
// ---------------------------------------------------------------------------

/// What happens when a configuration is stored.
#[derive(Debug)]
pub enum PersistEvent {
    /// It begins; tells whether the file lies in a directory.
    Begin(bool),
    /// The directory was made.
    DirectoryMade(Result<(), String>),
    /// The temporary file was written.
    Written(Result<(), String>),
    /// The temporary file was made private.
    Secured(Result<(), String>),
    /// The temporary file was renamed.
    Renamed(Result<(), String>),
    /// The temporary file was removed after it could not be renamed, for this reason.
    Removed(String),
    /// The stored file was made private.
    StoredSecured(Result<(), String>),
}

/// What is done next in storing a configuration.
#[derive(Debug)]
pub enum PersistAction {
    /// Make the directory.
    MakeDirectory,
    /// Write this text to a new temporary file.
    Write(String),
    /// Make the temporary file private.
    Secure,
    /// Rename the temporary file to the stored one, in one step.
    Rename,
    /// Remove the temporary file, which could not be renamed for this reason.
    Remove(String),
    /// Make the stored file private.
    SecureStored,
    /// The configuration is stored.
    Finish,
    /// Fail with this text.
    Fail(String),
}

/// What is done next in storing a configuration, in characters.
pub enum PersistActionView {
    MakeDirectory,
    Write(Seq<char>),
    Secure,
    Rename,
    Remove(Seq<char>),
    SecureStored,
    Finish,
    Fail(Seq<char>),
}

impl View for PersistAction {
    type V = PersistActionView;

    open spec fn view(&self) -> PersistActionView {
        match self {
            PersistAction::MakeDirectory => PersistActionView::MakeDirectory,
            PersistAction::Write(text) => PersistActionView::Write(text@),
            PersistAction::Secure => PersistActionView::Secure,
            PersistAction::Rename => PersistActionView::Rename,
            PersistAction::Remove(e) => PersistActionView::Remove(e@),
            PersistAction::SecureStored => PersistActionView::SecureStored,
            PersistAction::Finish => PersistActionView::Finish,
            PersistAction::Fail(e) => PersistActionView::Fail(e@),
        }
    }
}

/// What is done next in storing a configuration: it is written to a temporary file, which then
/// takes the place of the stored one.
pub open spec fn persist_action(c: ConfigView, event: PersistEvent) -> PersistActionView {
    match event {
        PersistEvent::Begin(false) => PersistActionView::Fail("后端配置路径缺少父目录"@),
        PersistEvent::Begin(true) => PersistActionView::MakeDirectory,
        PersistEvent::DirectoryMade(Ok(_)) => PersistActionView::Write(snapshot_text_of(c)),
        PersistEvent::DirectoryMade(Err(e)) => PersistActionView::Fail("创建配置目录失败: "@ + e@),
        PersistEvent::Written(Ok(_)) => PersistActionView::Secure,
        PersistEvent::Written(Err(e)) => PersistActionView::Fail("写入临时配置失败: "@ + e@),
        PersistEvent::Secured(Ok(_)) => PersistActionView::Rename,
        PersistEvent::Secured(Err(e)) => PersistActionView::Fail("设置临时配置权限失败: "@ + e@),
        PersistEvent::Renamed(Ok(_)) => PersistActionView::SecureStored,
        PersistEvent::Renamed(Err(e)) => PersistActionView::Remove(e@),
        PersistEvent::Removed(e) => PersistActionView::Fail("提交后端配置失败: "@ + e@),
        PersistEvent::StoredSecured(Ok(_)) => PersistActionView::Finish,
        PersistEvent::StoredSecured(Err(e)) => PersistActionView::Fail(
            "设置后端配置权限失败: "@ + e@,
        ),
    }
}

impl ConfigState {
    /// Decides what is done next in storing the configuration.
    pub fn persist_step(&self, event: PersistEvent) -> (r: PersistAction)
        ensures
            r@ == persist_action(self@, event),
    {
        match event {
            PersistEvent::Begin(below) => if below {
                PersistAction::MakeDirectory
            } else {
                PersistAction::Fail(owned("后端配置路径缺少父目录"))
            },
            PersistEvent::DirectoryMade(Ok(_)) => PersistAction::Write(self.snapshot_text()),
            PersistEvent::DirectoryMade(Err(e)) => PersistAction::Fail(
                concat2("创建配置目录失败: ", e.as_str()),
            ),
            PersistEvent::Written(Ok(_)) => PersistAction::Secure,
            PersistEvent::Written(Err(e)) => PersistAction::Fail(
                concat2("写入临时配置失败: ", e.as_str()),
            ),
            PersistEvent::Secured(Ok(_)) => PersistAction::Rename,
            PersistEvent::Secured(Err(e)) => PersistAction::Fail(
                concat2("设置临时配置权限失败: ", e.as_str()),
            ),
            PersistEvent::Renamed(Ok(_)) => PersistAction::SecureStored,
            PersistEvent::Renamed(Err(e)) => PersistAction::Remove(e),
            PersistEvent::Removed(e) => PersistAction::Fail(
                concat2("提交后端配置失败: ", e.as_str()),
            ),
            PersistEvent::StoredSecured(Ok(_)) => PersistAction::Finish,
            PersistEvent::StoredSecured(Err(e)) => PersistAction::Fail(
                concat2("设置后端配置权限失败: ", e.as_str()),
            ),
        }
    }
}

/// How the steps of storing a configuration go, as far as they come to be taken. `left` is what
/// a write that failed leaves in the temporary file, where it leaves one.
pub struct PersistAnswers {
    pub below: bool,
    pub made: Result<(), String>,
    pub written: Result<(), String>,
    pub left: Option<Seq<char>>,
    pub secured: Result<(), String>,
    pub renamed: Result<(), String>,
    pub removed: bool,
    pub stored: Result<(), String>,
}

/// What a step makes of the files, and the event that it gives.
pub open spec fn persist_taken(
    files: Map<Seq<char>, Seq<char>>,
    path: Seq<char>,
    temporary: Seq<char>,
    action: PersistActionView,
    a: PersistAnswers,
) -> (Map<Seq<char>, Seq<char>>, PersistEvent) {
    match action {
        PersistActionView::MakeDirectory => (files, PersistEvent::DirectoryMade(a.made)),
        PersistActionView::Write(text) => (
            if a.written is Ok {
                files.insert(temporary, text)
            } else if a.left is Some {
                files.insert(temporary, a.left->0)
            } else {
                files
            },
            PersistEvent::Written(a.written),
        ),
        PersistActionView::Secure => (files, PersistEvent::Secured(a.secured)),
        PersistActionView::Rename => (
            if a.renamed is Ok {
                files.remove(temporary).insert(path, files[temporary])
            } else {
                files
            },
            PersistEvent::Renamed(a.renamed),
        ),
        PersistActionView::Remove(_) => (
            if a.removed {
                files.remove(temporary)
            } else {
                files
            },
            PersistEvent::Removed(a.renamed->Err_0),
        ),
        PersistActionView::SecureStored => (files, PersistEvent::StoredSecured(a.stored)),
        _ => (files, PersistEvent::Begin(a.below)),
    }
}

/// What the rest of storing a configuration makes of the files, and its error, where it has
/// one: `persist_step` says what follows each event.
pub open spec fn persist_course(
    files: Map<Seq<char>, Seq<char>>,
    path: Seq<char>,
    temporary: Seq<char>,
    c: ConfigView,
    event: PersistEvent,
    a: PersistAnswers,
    steps: nat,
) -> (Map<Seq<char>, Seq<char>>, Option<Seq<char>>)
    decreases steps,
{
    let action = persist_action(c, event);
    match action {
        PersistActionView::Finish => (files, None),
        PersistActionView::Fail(e) => (files, Some(e)),
        _ => if steps == 0 {
            (files, None)
        } else {
            let (after, answer) = persist_taken(files, path, temporary, action, a);
            persist_course(after, path, temporary, c, answer, a, (steps - 1) as nat)
        },
    }
}

/// Storing a configuration replaces the stored file as a whole or not at all. Without an error
/// the file holds the text of the configuration, whether or not there was one before, no
/// temporary file is left, and all other files are as they were; `read_snapshot_text` reads
/// that text as the configuration. With an error the file is as it was or holds the whole new
/// text, and only the temporary file can be left besides.
pub proof fn stored_configuration_is_replaced_whole(
    files: Map<Seq<char>, Seq<char>>,
    path: Seq<char>,
    temporary: Seq<char>,
    c: ConfigView,
    a: PersistAnswers,
)
    requires
        temporary != path,
        !files.dom().contains(temporary),
    ensures
        ({
            let (after, error) = persist_course(
                files,
                path,
                temporary,
                c,
                PersistEvent::Begin(a.below),
                a,
                6,
            );
            let whole = files.insert(path, snapshot_text_of(c));
            &&& error is None ==> after == whole
            &&& error is Some ==> after.remove(temporary) == files || after.remove(temporary)
                == whole
        }),
{
    reveal_with_fuel(persist_course, 7);
    let text = snapshot_text_of(c);
    let written = files.insert(temporary, text);
    assert(files.remove(temporary) =~= files);
    assert(written.remove(temporary) =~= files);
    assert(files.insert(temporary, a.left->0).remove(temporary) =~= files);
    assert(written.remove(temporary).insert(path, written[temporary]) =~= files.insert(path, text));
    assert(files.insert(path, text).remove(temporary) =~= files.insert(path, text));
}

// ---------------------------------------------------------------------------
// Models
// ---------------------------------------------------------------------------

/// The address of the model catalogue of a service, where its address has a version part.
pub open spec fn models_address(url: Seq<char>) -> Option<Seq<char>> {
    match first_at(url, "/v1/"@) {
        Some(at) => Some(url.subrange(0, at + "/v1/"@.len()) + "models"@),
        None => None,
    }
}

/// Derives the address of the model catalogue, such as `.../v1/models`.
pub fn models_endpoint(api_url: &str) -> (r: Option<String>)
    ensures
        opt_view(r) == models_address(api_url@),
{
    let cs = chars_of(api_url);
    let part = chars_of("/v1/");
    let found: Option<usize> = find(&cs, &part);
    match found {
        Some(at) => Some(
            concat2(string_between(&cs, 0, at + part.len()).as_str(), "models"),
        ),
        None => None,
    }
}

fn owned_list(list: &[&str]) -> (r: Vec<String>)
    ensures
        texts_view(r@) == list@.map_values(|s: &str| s@),
{
    let mut out: Vec<String> = Vec::new();
    let mut i: usize = 0;
    while i < list.len()
        invariant
            i <= list@.len(),
            out.len() == i,
            forall|j: int| 0 <= j < i ==> (#[trigger] out@[j])@ == list@[j]@,
        decreases list@.len() - i,
    {
        out.push(owned(list[i]));
        i += 1;
    }
    assert(texts_view(out@) =~= list@.map_values(|s: &str| s@));
    out
}

/// The image models of a catalogue.
pub fn known_image_models(catalogue: &[&str]) -> (r: Vec<String>)
    ensures
        texts_view(r@) == catalogue@.map_values(|s: &str| s@),
{
    owned_list(catalogue)
}

/// The video models of a catalogue.
pub fn known_video_models(catalogue: &[&str]) -> (r: Vec<String>)
    ensures
        texts_view(r@) == catalogue@.map_values(|s: &str| s@),
{
    owned_list(catalogue)
}

/// The text models of a catalogue.
pub fn known_llm_models(catalogue: &[&str]) -> (r: Vec<String>)
    ensures
        texts_view(r@) == catalogue@.map_values(|s: &str| s@),
{
    owned_list(catalogue)
}

} // verus!
