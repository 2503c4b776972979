//! Provider connections and settings: the keys they are stored under, the summary the
//! `configure show` command prints, and the overrides that command-line flags give.

use vstd::prelude::*;
use crate::text::{concat, join, joined, views, str_eq, push_all};

verus! {

/// What a provider connection is for.
#[derive(Clone, Copy, Debug, PartialEq, Eq, Structural)]
pub enum ConnectionType {
    Stt,
    Llm,
    Cal,
}

/// The providers a connection can use.
#[derive(Clone, Copy, Debug, PartialEq, Eq, Structural)]
pub enum ConnectProvider {
    Deepgram,
    Soniox,
    Assemblyai,
    Openai,
    Gladia,
    Elevenlabs,
    Mistral,
    Fireworks,
    Cactus,
    Anthropic,
    Openrouter,
    GoogleGenerativeAi,
    AzureOpenai,
    AzureAi,
    Ollama,
    Lmstudio,
    Custom,
    AppleCalendar,
    GoogleCalendar,
    OutlookCalendar,
}

/// The tab the configure screen opens on.
#[derive(Clone, Copy, Debug, PartialEq, Eq, Structural)]
pub enum ConfigureTab {
    Stt,
    Llm,
    Calendar,
    Language,
}

/// How `configure show` prints.
#[derive(Clone, Copy, Debug, PartialEq, Eq, Structural)]
pub enum OutputFormat {
    Pretty,
    Json,
}

/// Whether the system lets the app read calendars.
#[derive(Clone, Copy, Debug, PartialEq, Eq, Structural)]
pub enum CalendarPermissionState {
    NotDetermined,
    Authorized,
    Denied,
}

/// A calendar offered for syncing.
#[derive(Debug)]
pub struct CalendarItem {
    pub tracking_id: String,
    pub name: String,
    pub color: String,
    pub source: String,
}

/// The name a connection type is stored under.
pub open spec fn type_key(ct: ConnectionType) -> Seq<char> {
    match ct {
        ConnectionType::Stt => "stt"@,
        ConnectionType::Llm => "llm"@,
        ConnectionType::Cal => "cal"@,
    }
}

/// The name a connection type is stored under.
pub fn connection_type_key(ct: ConnectionType) -> (r: &'static str)
    ensures
        r@ == type_key(ct),
{
    match ct {
        ConnectionType::Stt => "stt",
        ConnectionType::Llm => "llm",
        ConnectionType::Cal => "cal",
    }
}

/// The setting that holds the current provider of a connection type.
pub fn provider_setting_key(ct: ConnectionType) -> (r: String)
    ensures
        r@ == "current_"@ + type_key(ct) + "_provider"@,
{
    let mut r = concat("current_", connection_type_key(ct));
    push_all(&mut r, "_provider");
    r
}

/// The connection a calendar provider's calendars are stored under.
pub fn calendar_connection_id(provider_id: &str) -> (r: String)
    ensures
        r@ == "cal:"@ + provider_id@,
{
    concat("cal:", provider_id)
}

/// The id a calendar is stored under: its connection, a colon, and its own id.
pub fn calendar_row_id(connection_id: &str, tracking_id: &str) -> (r: String)
    ensures
        r@ == connection_id@ + ":"@ + tracking_id@,
{
    let mut r = concat(connection_id, ":");
    push_all(&mut r, tracking_id);
    r
}

/// The keys of the connection types.
pub open spec fn type_keys(types: Seq<ConnectionType>) -> Seq<Seq<char>> {
    types.map_values(|t: ConnectionType| type_key(t))
}

/// What is printed once a provider is saved for some connection types.
pub fn saved_message(types: &[ConnectionType], provider_id: &str) -> (r: String)
    ensures
        r@ == "Saved "@ + joined(type_keys(types@), "+"@) + " provider: "@ + provider_id@,
{
    let mut keys: Vec<String> = Vec::new();
    let mut i: usize = 0;
    while i < types.len()
        invariant
            i <= types@.len(),
            keys@.len() == i,
            views(keys@) == type_keys(types@.take(i as int)),
        decreases types.len() - i,
    {
        let ghost before = keys@;
        keys.push(connection_type_key(types[i]).to_owned());
        proof {
            assert(keys@ =~= before.push(keys@[i as int]));
            assert(views(keys@) =~= views(before).push(type_key(types@[i as int])));
            assert(types@.take(i + 1) =~= types@.take(i as int).push(types@[i as int]));
            assert(type_keys(types@.take(i + 1)) =~= type_keys(types@.take(i as int)).push(type_key(types@[i as int])));
        }
        i += 1;
    }
    proof {
        assert(types@.take(types@.len() as int) =~= types@);
    }
    let joined_keys = join(keys.as_slice(), "+");
    let mut r = concat("Saved ", joined_keys.as_str());
    push_all(&mut r, " provider: ");
    push_all(&mut r, provider_id);
    r
}

/// The value a list of settings gives `key`: its last entry wins, as when the list is
/// collected into a map.
pub open spec fn setting_of(settings: Seq<(String, String)>, key: Seq<char>) -> Option<Seq<char>>
    decreases settings.len(),
{
    if settings.len() == 0 {
        None
    } else if settings.last().0@ == key {
        Some(settings.last().1@)
    } else {
        setting_of(settings.drop_last(), key)
    }
}

/// The value of `key` among `settings`.
pub fn setting_value<'a>(settings: &'a [(String, String)], key: &str) -> (r: Option<&'a str>)
    ensures
        match r {
            Some(v) => setting_of(settings@, key@) == Some(v@),
            None => setting_of(settings@, key@) is None,
        },
{
    let mut i = settings.len();
    proof {
        assert(settings@.take(i as int) =~= settings@);
    }
    while i > 0
        invariant
            i <= settings@.len(),
            setting_of(settings@, key@) == setting_of(settings@.take(i as int), key@),
        decreases i,
    {
        proof {
            assert(settings@.take(i as int).drop_last() =~= settings@.take(i - 1));
            assert(settings@.take(i as int).last() == settings@[i - 1]);
        }
        if str_eq(settings[i - 1].0.as_str(), key) {
            return Some(settings[i - 1].1.as_str());
        }
        i -= 1;
    }
    proof {
        assert(settings@.take(0) =~= Seq::<(String, String)>::empty());
    }
    None
}

/// A value, or a stand-in where there is none.
pub open spec fn or_else(v: Option<Seq<char>>, fallback: Seq<char>) -> Seq<char> {
    match v {
        Some(s) => s,
        None => fallback,
    }
}

/// The lines `configure show` prints in its readable form.
pub open spec fn pretty_lines(settings: Seq<(String, String)>, stt: Seq<String>, llm: Seq<String>) -> Seq<Seq<char>> {
    let stt_line = seq!["STT provider:      "@ + or_else(setting_of(settings, "current_stt_provider"@), "(none)"@)];
    let stt_available = if stt.len() > 0 {
        seq!["  available:       "@ + joined(views(stt), ", "@)]
    } else {
        Seq::empty()
    };
    let llm_line = seq!["LLM provider:      "@ + or_else(setting_of(settings, "current_llm_provider"@), "(none)"@)];
    let llm_available = if llm.len() > 0 {
        seq!["  available:       "@ + joined(views(llm), ", "@)]
    } else {
        Seq::empty()
    };
    let rest = seq![
        "AI language:       "@ + or_else(setting_of(settings, "ai_language"@), "(none)"@),
        "Spoken languages:  "@ + or_else(setting_of(settings, "spoken_languages"@), "[]"@),
    ];
    stt_line + stt_available + llm_line + llm_available + rest
}

fn labeled(label: &str, value: Option<&str>, fallback: &str) -> (r: String)
    ensures
        r@ == label@ + match value {
            Some(v) => v@,
            None => fallback@,
        },
{
    match value {
        Some(v) => concat(label, v),
        None => concat(label, fallback),
    }
}

/// The configuration as readable lines: the current providers and those available, the
/// AI language and the spoken languages.
pub fn pretty_config_lines(settings: &[(String, String)], stt: &[String], llm: &[String]) -> (r: Vec<String>)
    ensures
        views(r@) == pretty_lines(settings@, stt@, llm@),
{
    let mut lines: Vec<String> = Vec::new();
    lines.push(labeled("STT provider:      ", setting_value(settings, "current_stt_provider"), "(none)"));
    let ghost l1 = views(lines@);
    if stt.len() > 0 {
        let available = join(stt, ", ");
        lines.push(concat("  available:       ", available.as_str()));
    }
    let ghost l2 = views(lines@);
    lines.push(labeled("LLM provider:      ", setting_value(settings, "current_llm_provider"), "(none)"));
    if llm.len() > 0 {
        let available = join(llm, ", ");
        lines.push(concat("  available:       ", available.as_str()));
    }
    lines.push(labeled("AI language:       ", setting_value(settings, "ai_language"), "(none)"));
    lines.push(labeled("Spoken languages:  ", setting_value(settings, "spoken_languages"), "[]"));
    proof {
        assert(views(lines@) =~= pretty_lines(settings@, stt@, llm@));
    }
    lines
}

/// The command-line options that apply to every command.
#[derive(Debug)]
pub struct GlobalArgs {
    pub base_url: Option<String>,
    pub api_key: Option<String>,
    pub model: Option<String>,
    pub language: Option<String>,
}

/// What the command line overrides of a transcription connection.
#[derive(Debug)]
pub struct SttOverrides<P> {
    pub provider: Option<P>,
    pub base_url: Option<String>,
    pub api_key: Option<String>,
    pub model: Option<String>,
    pub language: Option<String>,
}

/// What the command line overrides of a language-model connection.
#[derive(Debug)]
pub struct LlmOverrides<P> {
    pub provider: Option<P>,
    pub base_url: Option<String>,
    pub api_key: Option<String>,
    pub model: Option<String>,
}

/// The transcription overrides: the provider asked for, and the global options.
pub fn stt_overrides<P>(global: &GlobalArgs, provider: Option<P>) -> (r: SttOverrides<P>)
    ensures
        r.provider == provider,
        r.base_url == global.base_url,
        r.api_key == global.api_key,
        r.model == global.model,
        r.language == global.language,
{
    SttOverrides {
        provider,
        base_url: global.base_url.clone(),
        api_key: global.api_key.clone(),
        model: global.model.clone(),
        language: global.language.clone(),
    }
}

/// The language-model overrides: no provider, and the global options.
pub fn llm_overrides<P>(global: &GlobalArgs) -> (r: LlmOverrides<P>)
    ensures
        r.provider is None,
        r.base_url == global.base_url,
        r.api_key == global.api_key,
        r.model == global.model,
{
    LlmOverrides {
        provider: None,
        base_url: global.base_url.clone(),
        api_key: global.api_key.clone(),
        model: global.model.clone(),
    }
}

} // verus!
