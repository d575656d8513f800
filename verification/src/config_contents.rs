//! What a configuration is made of and where it is kept.
use crate::config::{
    env_config, models_address, normalized_output, resolved_output, setting, snapshot_config,
    snapshot_members, ConfigView, EnvSettings, OutputView, PathFacts,
};
use crate::json::{field, text_at, JsonView};
use crate::text::{begins_with, is_first_occurrence, lemma_first_at, occurs_in, trimmed};
use vstd::prelude::*;

verus! {

/// A configuration is stored under the names of its settings, each with its own value.
pub proof fn stored_settings_keep_their_names(c: ConfigView)
    ensures
        ({
            let m = snapshot_members(c);
            &&& m.len() == 11
            &&& m[0] == ("image_api_url"@, c.image_api_url)
            &&& m[1] == ("image_api_key"@, c.image_api_key)
            &&& m[2] == ("image_model"@, c.image_model)
            &&& m[3] == ("video_api_url"@, c.video_api_url)
            &&& m[4] == ("video_api_key"@, c.video_api_key)
            &&& m[5] == ("video_model"@, c.video_model)
            &&& m[6] == ("llm_api_url"@, c.llm_api_url)
            &&& m[7] == ("llm_api_key"@, c.llm_api_key)
            &&& m[8] == ("llm_model"@, c.llm_model)
            &&& m[9] == ("output_dir"@, c.output_dir)
            &&& m[10] == ("source"@, c.source)
        }),
{
}

/// A stored configuration read as an object takes each setting from under its own name; all but
/// the source must be there.
pub proof fn settings_are_read_by_their_names(j: JsonView, c: ConfigView)
    requires
        j is Obj,
        snapshot_config(j) == Some(c),
    ensures
        ({
            &&& text_at(j, "image_api_url"@) == Some(c.image_api_url)
            &&& text_at(j, "image_api_key"@) == Some(c.image_api_key)
            &&& text_at(j, "image_model"@) == Some(c.image_model)
            &&& text_at(j, "video_api_url"@) == Some(c.video_api_url)
            &&& text_at(j, "video_api_key"@) == Some(c.video_api_key)
            &&& text_at(j, "video_model"@) == Some(c.video_model)
            &&& text_at(j, "llm_api_url"@) == Some(c.llm_api_url)
            &&& text_at(j, "llm_api_key"@) == Some(c.llm_api_key)
            &&& text_at(j, "llm_model"@) == Some(c.llm_model)
            &&& text_at(j, "output_dir"@) == Some(c.output_dir)
            &&& field(j, "source"@) is Some ==> text_at(j, "source"@) == Some(c.source)
            &&& field(j, "source"@) is None ==> c.source == "none"@
        }),
{
}

/// The environment gives the addresses, keys and models as they stand there; where it names no
/// model, the standard one of the service is taken. It is the source of the configuration
/// where it names the address of pictures or of videos.
pub proof fn environment_is_taken_as_it_stands(
    env: EnvSettings,
    is_assets_dir: bool,
    windows: bool,
)
    ensures
        ({
            let c = env_config(env, is_assets_dir, windows);
            &&& c.image_api_url == env.image_api_url@ && c.image_api_key == env.image_api_key@
            &&& c.video_api_url == env.video_api_url@ && c.video_api_key == env.video_api_key@
            &&& c.llm_api_url == env.llm_api_url@ && c.llm_api_key == env.llm_api_key@
            &&& env.image_model@.len() > 0 ==> c.image_model == env.image_model@
            &&& env.image_model@.len() == 0 ==> c.image_model == "gpt-image-2"@
            &&& env.video_model@.len() > 0 ==> c.video_model == env.video_model@
            &&& env.video_model@.len() == 0 ==> c.video_model == "kling-video-v3"@
            &&& env.llm_model@.len() > 0 ==> c.llm_model == env.llm_model@
            &&& env.llm_model@.len() == 0 ==> c.llm_model == "gemini-3.7-flash"@
            &&& c.output_dir == normalized_output(env.output_dir@, is_assets_dir, windows)
            &&& c.source == "env"@ || c.source == "none"@
            &&& c.source == "none"@ ==> env.image_api_url@.len() == 0 && env.video_api_url@.len()
                == 0
            &&& c.source == "env"@ ==> env.image_api_url@.len() > 0 || env.video_api_url@.len() > 0
        }),
{
    reveal_strlit("env");
    reveal_strlit("none");
    assert("env"@.len() == 3);
    assert("none"@.len() == 4);
}

/// Whether a path names a drive.
pub open spec fn names_drive(path: Seq<char>) -> bool {
    &&& path.len() >= 3
    &&& ('a' <= path[0] <= 'z' || 'A' <= path[0] <= 'Z')
    &&& path[1] == ':'
    &&& path[2] == '/' || path[2] == '\\'
}

/// Where output goes: to the directory of the assets where nothing else is set or what is set
/// belongs to another kind of system; below the home directory where it is set so; and else to
/// what is set, which is taken as it stands, below the data directory where it is relative.
pub proof fn output_goes_where_it_is_set(raw: Seq<char>, facts: PathFacts)
    ensures
        ({
            let value = trimmed(raw);
            let out = resolved_output(raw, facts);
            let default = value.len() == 0 || value == "$DEFAULT_ASSETS"@ || facts.is_assets_dir || (
            !facts.windows && names_drive(value)) || (facts.windows && begins_with(value, "/"@)
                && !begins_with(value, "//"@));
            let home = begins_with(value, "~/"@) || begins_with(value, "~\\"@);
            &&& out is Assets <==> default
            &&& !default && home ==> out == OutputView::Home(
                value.subrange(2, value.len() as int),
            )
            &&& !default && !home && facts.is_absolute ==> out == OutputView::Absolute(value)
            &&& !default && !home && !facts.is_absolute ==> out == OutputView::Data(value)
        }),
{
}

/// The models of a service are asked for at its own address, up to and with the first version
/// part; a service without that part has no catalogue.
pub proof fn models_are_asked_for_at_the_service(host: Seq<char>, rest: Seq<char>)
    requires
        is_first_occurrence(host + "/v1/"@ + rest, "/v1/"@, host.len() as int),
    ensures
        models_address(host + "/v1/"@ + rest) == Some(host + "/v1/"@ + "models"@),
        forall|url: Seq<char>|
            models_address(url) is None <==> !#[trigger] occurs_in(url, "/v1/"@),
{
    let url = host + "/v1/"@ + rest;
    lemma_first_at(url, "/v1/"@, host.len() as int);
    let k = host.len() + "/v1/"@.len();
    assert(url.subrange(0, k as int) =~= host + "/v1/"@);
}

} // verus!
