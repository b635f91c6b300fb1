//! Settings transfer: what an export leaves out, what an import keeps from the current
//! installation, the chat export file name, and the Node.js launcher checks.
use vstd::prelude::*;

use crate::ext::{utf8_lossy, utf8_lossy_text};
use crate::profiles::{LLMProfile, ProfileStore};
use crate::text::{
    chars_of, concat2, concat3, has_prefix, has_suffix, is_blank, is_ws, lines_of, owned,
    slice_chars, split_lines, str_eq, string_of, to_ascii_lower, trim, trim_chars, trim_str,
};

verus! {

/// Version written into exported settings files.
pub const SETTINGS_EXPORT_FORMAT_VERSION: u32 = 2;

/// How an MCP server is reached.
#[derive(Debug, Clone, Copy, PartialEq, Eq, Structural)]
pub enum McpTransport {
    Http,
    Stdio,
    Internal,
}

/// A configured MCP server; `login`, `password`, `headers` and `env` are secrets.
#[derive(Debug, Clone)]
pub struct McpServerConfig {
    pub id: String,
    pub name: String,
    pub enabled: bool,
    pub transport: McpTransport,
    pub url: Option<String>,
    pub login: Option<String>,
    pub password: Option<String>,
    pub headers: Option<Vec<(String, String)>>,
    pub command: Option<String>,
    pub args: Option<Vec<String>>,
    pub env: Option<Vec<(String, String)>>,
}

/// Settings of one LLM provider; `api_key` is a secret.
#[derive(Debug, Clone)]
pub struct ProviderSettings {
    pub enabled: bool,
    pub api_key: Option<String>,
    pub base_url: Option<String>,
    pub active_model_id: Option<String>,
}

/// The outgoing proxy; `username` and `password` are secrets.
#[derive(Debug, Clone)]
pub struct ProxySettings {
    pub host: String,
    pub port: Option<u16>,
    pub username: String,
    pub password: String,
}

/// The Configurator window the assistant is bound to while it runs.
#[derive(Debug, Clone)]
pub struct ConfiguratorBinding {
    pub selected_window_hwnd: Option<isize>,
    pub selected_window_pid: Option<u32>,
    pub selected_window_title: Option<String>,
    pub selected_config_name: Option<String>,
}

/// The application settings that a settings transfer reads or changes. Providers are
/// kept as `(id, settings)` pairs with distinct ids.
#[derive(Debug, Clone)]
pub struct AppSettings {
    pub active_llm_profile: String,
    pub active_provider_id: String,
    pub providers: Vec<(String, ProviderSettings)>,
    pub mcp_servers: Vec<McpServerConfig>,
    pub proxy: ProxySettings,
    pub configurator: ConfiguratorBinding,
}

/// Outcome of a settings export.
#[derive(Debug, Clone, Copy, PartialEq, Eq, Structural)]
pub enum SettingsTransferStatus {
    Saved,
    Cancelled,
}

/// What the export command reports.
#[derive(Debug, Clone)]
pub struct ExportSettingsResult {
    pub status: SettingsTransferStatus,
    pub path: Option<String>,
}

impl ExportSettingsResult {
    /// The settings were written to `path`.
    pub fn saved(path: String) -> (r: Self)
        ensures
            r.status == SettingsTransferStatus::Saved,
            r.path == Some(path),
    {
        ExportSettingsResult { status: SettingsTransferStatus::Saved, path: Some(path) }
    }

    /// The user closed the save dialog.
    pub fn cancelled() -> (r: Self)
        ensures
            r.status == SettingsTransferStatus::Cancelled,
            r.path is None,
    {
        ExportSettingsResult { status: SettingsTransferStatus::Cancelled, path: None }
    }
}

/// The content of an exported settings file.
#[derive(Debug, Clone)]
pub struct SettingsExportBundle {
    pub format_version: u32,
    pub settings: AppSettings,
    pub llm_profiles: ProfileStore,
}

// ───────────────────────────── export ─────────────────────────────

/// Name/value pairs as text.
pub open spec fn pairs_view(o: Option<Vec<(String, String)>>) -> Option<Seq<(String, String)>> {
    match o {
        Some(v) => Some(v@),
        None => None,
    }
}

/// An MCP server with its secrets removed.
pub open spec fn server_without_secrets(a: McpServerConfig, b: McpServerConfig) -> bool {
    &&& b.id == a.id
    &&& b.name == a.name
    &&& b.enabled == a.enabled
    &&& b.transport == a.transport
    &&& b.url == a.url
    &&& b.command == a.command
    &&& b.args == a.args
    &&& b.login is None
    &&& b.password is None
    &&& b.headers is None
    &&& b.env is None
}

/// Settings as exported: no MCP secrets, no provider keys, no proxy credentials and no
/// Configurator window binding; everything else unchanged.
pub open spec fn exported_settings(a: AppSettings, b: AppSettings) -> bool {
    &&& b.active_llm_profile == a.active_llm_profile
    &&& b.active_provider_id == a.active_provider_id
    &&& b.mcp_servers@.len() == a.mcp_servers@.len()
    &&& forall|i: int|
        0 <= i < a.mcp_servers@.len() ==> server_without_secrets(
            a.mcp_servers@[i],
            #[trigger] b.mcp_servers@[i],
        )
    &&& b.providers@.len() == a.providers@.len()
    &&& forall|i: int|
        0 <= i < a.providers@.len() ==> {
            &&& (#[trigger] b.providers@[i]).0 == a.providers@[i].0
            &&& b.providers@[i].1.enabled == a.providers@[i].1.enabled
            &&& b.providers@[i].1.base_url == a.providers@[i].1.base_url
            &&& b.providers@[i].1.active_model_id == a.providers@[i].1.active_model_id
            &&& b.providers@[i].1.api_key is None
        }
    &&& b.proxy.host == a.proxy.host
    &&& b.proxy.port == a.proxy.port
    &&& b.proxy.username@.len() == 0
    &&& b.proxy.password@.len() == 0
    &&& b.configurator.selected_window_hwnd is None
    &&& b.configurator.selected_window_pid is None
    &&& b.configurator.selected_window_title is None
    &&& b.configurator.selected_config_name is None
}

/// Removes what must not leave the machine from settings about to be exported.
pub fn sanitize_settings_for_export(safe_settings: AppSettings) -> (r: AppSettings)
    ensures
        exported_settings(safe_settings, r),
{
    let ghost orig = safe_settings;
    let mut s = safe_settings;
    s.configurator.selected_window_hwnd = None;
    s.configurator.selected_window_pid = None;
    s.configurator.selected_window_title = None;
    s.configurator.selected_config_name = None;
    let ghost cleared = s;
    let mut i: usize = 0;
    while i < s.mcp_servers.len()
        invariant
            i <= s.mcp_servers@.len(),
            s == (AppSettings { mcp_servers: s.mcp_servers, ..cleared }),
            cleared == (AppSettings { configurator: cleared.configurator, ..orig }),
            cleared.configurator.selected_window_hwnd is None,
            cleared.configurator.selected_window_pid is None,
            cleared.configurator.selected_window_title is None,
            cleared.configurator.selected_config_name is None,
            s.mcp_servers@.len() == orig.mcp_servers@.len(),
            forall|j: int|
                0 <= j < i ==> server_without_secrets(
                    orig.mcp_servers@[j],
                    #[trigger] s.mcp_servers@[j],
                ),
            forall|j: int| i <= j < s.mcp_servers@.len() ==> #[trigger] s.mcp_servers@[j] == orig.mcp_servers@[j],
        decreases s.mcp_servers.len() - i,
    {
        s.mcp_servers[i].login = None;
        s.mcp_servers[i].password = None;
        s.mcp_servers[i].headers = None;
        s.mcp_servers[i].env = None;
        i = i + 1;
    }
    let ghost after_servers = s;
    let mut k: usize = 0;
    while k < s.providers.len()
        invariant
            k <= s.providers@.len(),
            s == (AppSettings { providers: s.providers, ..after_servers }),
            after_servers == (AppSettings { mcp_servers: after_servers.mcp_servers, ..cleared }),
            cleared == (AppSettings { configurator: cleared.configurator, ..orig }),
            cleared.configurator.selected_window_hwnd is None,
            cleared.configurator.selected_window_pid is None,
            cleared.configurator.selected_window_title is None,
            cleared.configurator.selected_config_name is None,
            after_servers.mcp_servers@.len() == orig.mcp_servers@.len(),
            forall|j: int|
                0 <= j < orig.mcp_servers@.len() ==> server_without_secrets(
                    orig.mcp_servers@[j],
                    #[trigger] after_servers.mcp_servers@[j],
                ),
            s.providers@.len() == orig.providers@.len(),
            forall|j: int|
                0 <= j < k ==> {
                    &&& (#[trigger] s.providers@[j]).0 == orig.providers@[j].0
                    &&& s.providers@[j].1.enabled == orig.providers@[j].1.enabled
                    &&& s.providers@[j].1.base_url == orig.providers@[j].1.base_url
                    &&& s.providers@[j].1.active_model_id == orig.providers@[j].1.active_model_id
                    &&& s.providers@[j].1.api_key is None
                },
            forall|j: int| k <= j < s.providers@.len() ==> #[trigger] s.providers@[j] == orig.providers@[j],
        decreases s.providers.len() - k,
    {
        s.providers[k].1.api_key = None;
        k = k + 1;
    }
    s.proxy.username = String::new();
    s.proxy.password = String::new();
    s
}

/// Profiles as exported: every stored key emptied, everything else unchanged.
pub open spec fn exported_profiles(a: ProfileStore, b: ProfileStore) -> bool {
    &&& b.active_profile_id == a.active_profile_id
    &&& b.profiles@.len() == a.profiles@.len()
    &&& forall|i: int|
        0 <= i < a.profiles@.len() ==> {
            let p = a.profiles@[i];
            let q = #[trigger] b.profiles@[i];
            &&& q.api_key_encrypted@.len() == 0
            &&& q == LLMProfile { api_key_encrypted: q.api_key_encrypted, ..p }
        }
}

/// Empties the stored API keys of profiles about to be exported.
pub fn sanitize_profiles_for_export(safe_profiles: ProfileStore) -> (r: ProfileStore)
    ensures
        exported_profiles(safe_profiles, r),
{
    let ghost orig = safe_profiles;
    let mut s = safe_profiles;
    let mut i: usize = 0;
    while i < s.profiles.len()
        invariant
            i <= s.profiles@.len(),
            s.profiles@.len() == orig.profiles@.len(),
            s.active_profile_id == orig.active_profile_id,
            forall|j: int|
                0 <= j < i ==> {
                    let q = #[trigger] s.profiles@[j];
                    &&& q.api_key_encrypted@.len() == 0
                    &&& q == LLMProfile { api_key_encrypted: q.api_key_encrypted, ..orig.profiles@[j] }
                },
            forall|j: int| i <= j < s.profiles@.len() ==> #[trigger] s.profiles@[j] == orig.profiles@[j],
        decreases s.profiles.len() - i,
    {
        s.profiles[i].api_key_encrypted = String::new();
        i = i + 1;
    }
    s
}

/// Some profile has this id.
pub open spec fn has_profile(store: ProfileStore, id: Seq<char>) -> bool {
    exists|i: int| 0 <= i < store.profiles@.len() && (#[trigger] store.profiles@[i]).id@ == id
}

/// Index of a profile with this id, if any.
fn find_profile(profiles: &Vec<LLMProfile>, id: &str) -> (r: Option<usize>)
    ensures
        match r {
            Some(i) => i < profiles@.len() && profiles@[i as int].id@ == id@ && forall|j: int|
                0 <= j < i ==> (#[trigger] profiles@[j]).id@ != id@,
            None => forall|j: int| 0 <= j < profiles@.len() ==> (#[trigger] profiles@[j]).id@ != id@,
        },
{
    let mut i: usize = 0;
    while i < profiles.len()
        invariant
            i <= profiles@.len(),
            forall|j: int| 0 <= j < i ==> (#[trigger] profiles@[j]).id@ != id@,
        decreases profiles.len() - i,
    {
        if str_eq(profiles[i].id.as_str(), id) {
            return Some(i);
        }
        i = i + 1;
    }
    None
}

/// The settings' active profile follows the profile store: its active profile when that
/// exists, else its first profile; with no profiles the settings are left alone.
pub fn sync_active_profile(settings: &mut AppSettings, profiles: &ProfileStore)
    ensures
        final(settings).active_llm_profile@ == (if has_profile(*profiles, profiles.active_profile_id@) {
            profiles.active_profile_id@
        } else if profiles.profiles@.len() > 0 {
            profiles.profiles@[0].id@
        } else {
            old(settings).active_llm_profile@
        }),
        *final(settings) == (AppSettings {
            active_llm_profile: final(settings).active_llm_profile,
            ..*old(settings)
        }),
{
    match find_profile(&profiles.profiles, profiles.active_profile_id.as_str()) {
        Some(i) => {
            settings.active_llm_profile = profiles.active_profile_id.clone();
        },
        None => {
            if profiles.profiles.len() > 0 {
                settings.active_llm_profile = profiles.profiles[0].id.clone();
            }
        },
    }
}

/// The export of the given settings and profiles: both sanitised, the settings' active
/// profile synchronised with the profiles, and the current format version.
pub fn build_export_bundle(settings: AppSettings, profiles: ProfileStore) -> (b: SettingsExportBundle)
    ensures
        b.format_version == SETTINGS_EXPORT_FORMAT_VERSION,
        exported_profiles(profiles, b.llm_profiles),
        exists|s: AppSettings|
            exported_settings(settings, s) && b.settings == (AppSettings {
                active_llm_profile: b.settings.active_llm_profile,
                ..s
            }) && b.settings.active_llm_profile@ == (if has_profile(
                b.llm_profiles,
                b.llm_profiles.active_profile_id@,
            ) {
                b.llm_profiles.active_profile_id@
            } else if b.llm_profiles.profiles@.len() > 0 {
                b.llm_profiles.profiles@[0].id@
            } else {
                s.active_llm_profile@
            }),
{
    let safe_profiles = sanitize_profiles_for_export(profiles);
    let mut safe_settings = sanitize_settings_for_export(settings);
    let ghost s = safe_settings;
    sync_active_profile(&mut safe_settings, &safe_profiles);
    SettingsExportBundle {
        format_version: SETTINGS_EXPORT_FORMAT_VERSION,
        settings: safe_settings,
        llm_profiles: safe_profiles,
    }
}

// ───────────────────────────── import ─────────────────────────────

/// Index of the MCP server with this id, if any.
fn find_server(servers: &Vec<McpServerConfig>, id: &str) -> (r: Option<usize>)
    ensures
        match r {
            Some(i) => i < servers@.len() && servers@[i as int].id@ == id@ && forall|j: int|
                0 <= j < i ==> (#[trigger] servers@[j]).id@ != id@,
            None => forall|j: int| 0 <= j < servers@.len() ==> (#[trigger] servers@[j]).id@ != id@,
        },
{
    let mut i: usize = 0;
    while i < servers.len()
        invariant
            i <= servers@.len(),
            forall|j: int| 0 <= j < i ==> (#[trigger] servers@[j]).id@ != id@,
        decreases servers.len() - i,
    {
        if str_eq(servers[i].id.as_str(), id) {
            return Some(i);
        }
        i = i + 1;
    }
    None
}

/// Index of the provider with this id, if any.
fn find_provider(providers: &Vec<(String, ProviderSettings)>, id: &str) -> (r: Option<usize>)
    ensures
        match r {
            Some(i) => i < providers@.len() && providers@[i as int].0@ == id@ && forall|j: int|
                0 <= j < i ==> (#[trigger] providers@[j]).0@ != id@,
            None => forall|j: int| 0 <= j < providers@.len() ==> (#[trigger] providers@[j]).0@ != id@,
        },
{
    let mut i: usize = 0;
    while i < providers.len()
        invariant
            i <= providers@.len(),
            forall|j: int| 0 <= j < i ==> (#[trigger] providers@[j]).0@ != id@,
        decreases providers.len() - i,
    {
        if str_eq(providers[i].0.as_str(), id) {
            return Some(i);
        }
        i = i + 1;
    }
    None
}

/// `i` is the first MCP server of `v` with this id.
pub open spec fn first_server_with_id(v: Seq<McpServerConfig>, id: Seq<char>, i: int) -> bool {
    &&& 0 <= i < v.len()
    &&& v[i].id@ == id
    &&& forall|j: int| 0 <= j < i ==> (#[trigger] v[j]).id@ != id
}

/// `i` is the first provider of `v` with this id.
pub open spec fn first_provider_with_id(v: Seq<(String, ProviderSettings)>, id: Seq<char>, i: int) -> bool {
    &&& 0 <= i < v.len()
    &&& v[i].0@ == id
    &&& forall|j: int| 0 <= j < i ==> (#[trigger] v[j]).0@ != id
}

/// `i` is the first profile of `v` with this id.
pub open spec fn first_profile_with_id(v: Seq<LLMProfile>, id: Seq<char>, i: int) -> bool {
    &&& 0 <= i < v.len()
    &&& v[i].id@ == id
    &&& forall|j: int| 0 <= j < i ==> (#[trigger] v[j]).id@ != id
}

/// A copy of an optional text.
fn copy_opt_string(v: &Option<String>) -> (r: Option<String>)
    ensures
        r == *v,
{
    match v {
        Some(s) => Some(s.clone()),
        None => None,
    }
}

/// A copy of optional name/value pairs.
fn copy_opt_pairs(v: &Option<Vec<(String, String)>>) -> (r: Option<Vec<(String, String)>>)
    ensures
        pairs_view(r) == pairs_view(*v),
{
    match v {
        Some(pairs) => {
            let mut out: Vec<(String, String)> = Vec::new();
            let mut i: usize = 0;
            while i < pairs.len()
                invariant
                    i <= pairs@.len(),
                    out@ == pairs@.subrange(0, i as int),
                decreases pairs.len() - i,
            {
                out.push((pairs[i].0.clone(), pairs[i].1.clone()));
                assert(out@ =~= pairs@.subrange(0, i + 1));
                i = i + 1;
            }
            assert(pairs@.subrange(0, pairs@.len() as int) =~= pairs@);
            assert(out@ == pairs@);
            Some(out)
        },
        None => None,
    }
}

/// Imported MCP server `b` (from `a`): the secrets of the current server with the same id
/// when there is one; otherwise unchanged.
pub open spec fn server_restored(a: McpServerConfig, current: Seq<McpServerConfig>, b: McpServerConfig) -> bool {
    if exists|k: int| 0 <= k < current.len() && (#[trigger] current[k]).id@ == a.id@ {
        exists|k: int|
            first_server_with_id(current, a.id@, k) && {
                &&& b.id == a.id
                &&& b.name == a.name
                &&& b.enabled == a.enabled
                &&& b.transport == a.transport
                &&& b.url == a.url
                &&& b.command == a.command
                &&& b.args == a.args
                &&& b.login == current[k].login
                &&& b.password == current[k].password
                &&& pairs_view(b.headers) == pairs_view(current[k].headers)
                &&& pairs_view(b.env) == pairs_view(current[k].env)
            }
    } else {
        b == a
    }
}

/// Imported provider `b` (from `a`): the key of the current provider with the same id, or
/// no key when the current settings have no such provider.
pub open spec fn provider_restored(
    a: (String, ProviderSettings),
    current: Seq<(String, ProviderSettings)>,
    b: (String, ProviderSettings),
) -> bool {
    &&& b.0 == a.0
    &&& if exists|k: int| 0 <= k < current.len() && (#[trigger] current[k]).0@ == a.0@ {
        exists|k: int|
            first_provider_with_id(current, a.0@, k) && b.1 == (
            ProviderSettings { api_key: current[k].1.api_key, ..a.1 })
    } else {
        b.1 == (ProviderSettings { api_key: None, ..a.1 })
    }
}

/// Imported settings with the current installation's secrets put back: MCP credentials by
/// server id, provider keys by provider id, and the proxy credentials.
pub open spec fn secrets_restored(imported: AppSettings, current: AppSettings, r: AppSettings) -> bool {
    &&& r.active_llm_profile == imported.active_llm_profile
    &&& r.active_provider_id == imported.active_provider_id
    &&& r.configurator == imported.configurator
    &&& r.mcp_servers@.len() == imported.mcp_servers@.len()
    &&& forall|i: int|
        0 <= i < r.mcp_servers@.len() ==> server_restored(
            imported.mcp_servers@[i],
            current.mcp_servers@,
            #[trigger] r.mcp_servers@[i],
        )
    &&& r.providers@.len() == imported.providers@.len()
    &&& forall|i: int|
        0 <= i < r.providers@.len() ==> provider_restored(
            imported.providers@[i],
            current.providers@,
            #[trigger] r.providers@[i],
        )
    &&& r.proxy == (ProxySettings {
        username: current.proxy.username,
        password: current.proxy.password,
        ..imported.proxy
    })
}

/// Puts the current installation's secrets back into imported settings.
pub fn restore_sensitive_settings(imported: AppSettings, current: &AppSettings) -> (r: AppSettings)
    ensures
        secrets_restored(imported, *current, r),
{
    let ghost orig = imported;
    let mut s = imported;
    let mut i: usize = 0;
    while i < s.mcp_servers.len()
        invariant
            i <= s.mcp_servers@.len(),
            s.mcp_servers@.len() == orig.mcp_servers@.len(),
            s.providers == orig.providers,
            s.proxy == orig.proxy,
            s.active_llm_profile == orig.active_llm_profile,
            s.active_provider_id == orig.active_provider_id,
            s.configurator == orig.configurator,
            forall|j: int|
                0 <= j < i ==> server_restored(
                    orig.mcp_servers@[j],
                    current.mcp_servers@,
                    #[trigger] s.mcp_servers@[j],
                ),
            forall|j: int| i <= j < s.mcp_servers@.len() ==> #[trigger] s.mcp_servers@[j] == orig.mcp_servers@[j],
        decreases s.mcp_servers.len() - i,
    {
        match find_server(&current.mcp_servers, s.mcp_servers[i].id.as_str()) {
            Some(k) => {
                let c = &current.mcp_servers[k];
                s.mcp_servers[i].login = copy_opt_string(&c.login);
                s.mcp_servers[i].password = copy_opt_string(&c.password);
                s.mcp_servers[i].headers = copy_opt_pairs(&c.headers);
                s.mcp_servers[i].env = copy_opt_pairs(&c.env);
                assert(first_server_with_id(current.mcp_servers@, orig.mcp_servers@[i as int].id@, k as int));
            },
            None => {},
        }
        i = i + 1;
    }
    let ghost after_servers = s;
    let mut k: usize = 0;
    while k < s.providers.len()
        invariant
            k <= s.providers@.len(),
            s == (AppSettings { providers: s.providers, ..after_servers }),
            after_servers.providers == orig.providers,
            after_servers.proxy == orig.proxy,
            after_servers.active_llm_profile == orig.active_llm_profile,
            after_servers.active_provider_id == orig.active_provider_id,
            after_servers.configurator == orig.configurator,
            after_servers.mcp_servers@.len() == orig.mcp_servers@.len(),
            forall|j: int|
                0 <= j < orig.mcp_servers@.len() ==> server_restored(
                    orig.mcp_servers@[j],
                    current.mcp_servers@,
                    #[trigger] after_servers.mcp_servers@[j],
                ),
            s.providers@.len() == orig.providers@.len(),
            forall|j: int|
                0 <= j < k ==> provider_restored(
                    orig.providers@[j],
                    current.providers@,
                    #[trigger] s.providers@[j],
                ),
            forall|j: int| k <= j < s.providers@.len() ==> #[trigger] s.providers@[j] == orig.providers@[j],
        decreases s.providers.len() - k,
    {
        match find_provider(&current.providers, s.providers[k].0.as_str()) {
            Some(c) => {
                s.providers[k].1.api_key = copy_opt_string(&current.providers[c].1.api_key);
                assert(first_provider_with_id(current.providers@, orig.providers@[k as int].0@, c as int));
            },
            None => {
                s.providers[k].1.api_key = None;
            },
        }
        k = k + 1;
    }
    s.proxy.username = current.proxy.username.clone();
    s.proxy.password = current.proxy.password.clone();
    s
}

/// Imported profile `b` (from `a`): the stored key of the current profile with the same id,
/// or an empty key.
pub open spec fn profile_key_restored(a: LLMProfile, current: Seq<LLMProfile>, b: LLMProfile) -> bool {
    &&& b == (LLMProfile { api_key_encrypted: b.api_key_encrypted, ..a })
    &&& if exists|k: int| 0 <= k < current.len() && (#[trigger] current[k]).id@ == a.id@ {
        exists|k: int|
            first_profile_with_id(current, a.id@, k) && b.api_key_encrypted@
                == current[k].api_key_encrypted@
    } else {
        b.api_key_encrypted@.len() == 0
    }
}

/// Imported profiles with the current stored keys put back; an empty import gets the
/// default profile, and an active id that names no profile is replaced by the first one.
pub open spec fn profiles_restored(imported: ProfileStore, current: ProfileStore, r: ProfileStore) -> bool {
    if imported.profiles@.len() == 0 {
        &&& r.profiles@.len() == 1
        &&& r.profiles@[0].id@ == crate::profiles::default_profile_id()
        &&& r.active_profile_id@ == r.profiles@[0].id@
    } else {
        &&& r.profiles@.len() == imported.profiles@.len()
        &&& forall|i: int|
            0 <= i < r.profiles@.len() ==> profile_key_restored(
                imported.profiles@[i],
                current.profiles@,
                #[trigger] r.profiles@[i],
            )
        &&& r.active_profile_id@ == if has_profile(imported, imported.active_profile_id@) {
            imported.active_profile_id@
        } else {
            imported.profiles@[0].id@
        }
    }
}

/// Puts the current stored keys back into imported profiles.
pub fn restore_profile_secrets(imported_store: ProfileStore, current_store: &ProfileStore) -> (r:
    ProfileStore)
    ensures
        profiles_restored(imported_store, *current_store, r),
{
    let ghost orig = imported_store;
    let mut s = imported_store;
    let mut i: usize = 0;
    while i < s.profiles.len()
        invariant
            i <= s.profiles@.len(),
            s.profiles@.len() == orig.profiles@.len(),
            s.active_profile_id == orig.active_profile_id,
            forall|j: int|
                0 <= j < i ==> profile_key_restored(
                    orig.profiles@[j],
                    current_store.profiles@,
                    #[trigger] s.profiles@[j],
                ),
            forall|j: int| i <= j < s.profiles@.len() ==> #[trigger] s.profiles@[j] == orig.profiles@[j],
        decreases s.profiles.len() - i,
    {
        match find_profile(&current_store.profiles, s.profiles[i].id.as_str()) {
            Some(k) => {
                s.profiles[i].api_key_encrypted = current_store.profiles[k].api_key_encrypted.clone();
                assert(first_profile_with_id(current_store.profiles@, orig.profiles@[i as int].id@, k as int));
            },
            None => {
                s.profiles[i].api_key_encrypted = String::new();
            },
        }
        i = i + 1;
    }
    if s.profiles.len() == 0 {
        s.profiles.push(LLMProfile::default_profile());
        s.active_profile_id = s.profiles[0].id.clone();
        return s;
    }
    match find_profile(&s.profiles, s.active_profile_id.as_str()) {
        Some(_) => {
            assert(has_profile(orig, orig.active_profile_id@)) by {
                let w = choose|w: int| 0 <= w < s.profiles@.len() && s.profiles@[w].id@ == s.active_profile_id@;
                assert(profile_key_restored(orig.profiles@[w], current_store.profiles@, s.profiles@[w]));
            }
        },
        None => {
            assert(!has_profile(orig, orig.active_profile_id@)) by {
                if has_profile(orig, orig.active_profile_id@) {
                    let w = choose|w: int| 0 <= w < orig.profiles@.len() && (#[trigger] orig.profiles@[w]).id@ == orig.active_profile_id@;
                    assert(profile_key_restored(orig.profiles@[w], current_store.profiles@, s.profiles@[w]));
                }
            }
            assert(profile_key_restored(orig.profiles@[0], current_store.profiles@, s.profiles@[0]));
            s.active_profile_id = s.profiles[0].id.clone();
        },
    }
    s
}

/// Settings and profiles from an imported export: secrets restored from the current
/// installation and the active profile synchronised.
pub fn merge_imported_bundle(
    bundle: SettingsExportBundle,
    current_settings: &AppSettings,
    current_profiles: &ProfileStore,
) -> (r: (AppSettings, ProfileStore))
    ensures
        profiles_restored(bundle.llm_profiles, *current_profiles, r.1),
        exists|s: AppSettings|
            secrets_restored(bundle.settings, *current_settings, s) && r.0 == (AppSettings {
                active_llm_profile: r.0.active_llm_profile,
                ..s
            }) && r.0.active_llm_profile@ == (if has_profile(r.1, r.1.active_profile_id@) {
                r.1.active_profile_id@
            } else if r.1.profiles@.len() > 0 {
                r.1.profiles@[0].id@
            } else {
                s.active_llm_profile@
            }),
{
    let mut settings = restore_sensitive_settings(bundle.settings, current_settings);
    let ghost s = settings;
    let profiles = restore_profile_secrets(bundle.llm_profiles, current_profiles);
    sync_active_profile(&mut settings, &profiles);
    (settings, profiles)
}

/// Settings imported from a plain settings file (an older export without profiles): secrets
/// restored and the active profile synchronised with the current profiles, which stay.
pub fn merge_imported_settings(
    imported: AppSettings,
    current_settings: &AppSettings,
    current_profiles: ProfileStore,
) -> (r: (AppSettings, ProfileStore))
    ensures
        r.1 == current_profiles,
        exists|s: AppSettings|
            secrets_restored(imported, *current_settings, s) && r.0 == (AppSettings {
                active_llm_profile: r.0.active_llm_profile,
                ..s
            }) && r.0.active_llm_profile@ == (if has_profile(r.1, r.1.active_profile_id@) {
                r.1.active_profile_id@
            } else if r.1.profiles@.len() > 0 {
                r.1.profiles@[0].id@
            } else {
                s.active_llm_profile@
            }),
{
    let mut settings = restore_sensitive_settings(imported, current_settings);
    let ghost s = settings;
    sync_active_profile(&mut settings, &current_profiles);
    (settings, current_profiles)
}

// ───────────────────────────── Node.js launcher ─────────────────────────────

/// The first non-blank line of `text`, trimmed, from index `i` on.
pub open spec fn first_nonblank_from(lines: Seq<Seq<char>>, i: int) -> Option<Seq<char>>
    decreases lines.len() - i,
{
    if i < 0 || i >= lines.len() {
        None
    } else if trim(lines[i]).len() > 0 {
        Some(trim(lines[i]))
    } else {
        first_nonblank_from(lines, i + 1)
    }
}

/// The first non-blank line of a command's output, trimmed.
pub fn first_non_empty_line(output: &[u8]) -> (r: Option<String>)
    ensures
        match r {
            Some(s) => first_nonblank_from(split_lines(utf8_lossy_text(output@)), 0) == Some(s@),
            None => first_nonblank_from(split_lines(utf8_lossy_text(output@)), 0) is None,
        },
{
    let text = utf8_lossy(output);
    let v = chars_of(text.as_str());
    let lines = lines_of(&v);
    let ghost ls = lines@.map_values(|l: Vec<char>| l@);
    let mut i: usize = 0;
    while i < lines.len()
        invariant
            i <= lines@.len(),
            ls == split_lines(utf8_lossy_text(output@)),
            ls == lines@.map_values(|l: Vec<char>| l@),
            first_nonblank_from(ls, i as int) == first_nonblank_from(ls, 0),
        decreases lines.len() - i,
    {
        assert(ls[i as int] == lines@[i as int]@);
        let t = trim_chars(&lines[i]);
        if t.len() > 0 {
            return Some(string_of(&t));
        }
        i = i + 1;
    }
    None
}

/// The Node.js command to run: the configured path trimmed, or `node` when blank.
pub fn normalize_node_command(node_path: &str) -> (r: String)
    ensures
        r@ == (if trim(node_path@).len() == 0 {
            "node"@
        } else {
            trim(node_path@)
        }),
{
    let t = trim_str(node_path);
    if t.as_str().is_empty() {
        "node".to_owned()
    } else {
        t
    }
}

/// Result of `<node> --version`: the version line when it succeeded and printed one; the
/// trimmed error output (or a generic message) when it failed.
pub open spec fn node_version_outcome(
    command: Seq<char>,
    success: bool,
    stdout: Seq<u8>,
    stderr: Seq<u8>,
) -> Result<Seq<char>, Seq<char>> {
    if !success {
        let e = trim(utf8_lossy_text(stderr));
        if e.len() == 0 {
            Err("Node.js '"@ + command + "' завершился с ошибкой"@)
        } else {
            Err(e)
        }
    } else {
        match first_nonblank_from(split_lines(utf8_lossy_text(stdout)), 0) {
            Some(v) => Ok(v),
            None => Err("Node.js '"@ + command + "' запустился, но не вернул версию"@),
        }
    }
}

/// Interprets what `<node> --version` produced.
pub fn node_version_result(command: &str, success: bool, stdout: &[u8], stderr: &[u8]) -> (r: Result<
    String,
    String,
>)
    ensures
        match r {
            Ok(v) => node_version_outcome(command@, success, stdout@, stderr@) == Ok::<
                Seq<char>,
                Seq<char>,
            >(v@),
            Err(e) => node_version_outcome(command@, success, stdout@, stderr@) == Err::<
                Seq<char>,
                Seq<char>,
            >(e@),
        },
{
    if !success {
        let text = utf8_lossy(stderr);
        let e = trim_str(text.as_str());
        if e.as_str().is_empty() {
            return Err(concat3("Node.js '", command, "' завершился с ошибкой"));
        }
        return Err(e);
    }
    match first_non_empty_line(stdout) {
        Some(v) => Ok(v),
        None => Err(concat3("Node.js '", command, "' запустился, но не вернул версию")),
    }
}

// ───────────────────────────── chat export file name ─────────────────────────────

/// A char refused in file names: a control char or one of `< > : " / \ | ? *`.
pub open spec fn bad_file_char(c: char) -> bool {
    ('\u{0}' <= c && c <= '\u{1f}') || ('\u{7f}' <= c && c <= '\u{9f}') || c == '<' || c == '>'
        || c == ':' || c == '"' || c == '/' || c == '\\' || c == '|' || c == '?' || c == '*'
}

/// Left-to-right pass over a stem: refused chars and whitespace collapse into one space
/// (none at the start); the flag says whether the last char seen was collapsed.
pub open spec fn stem_pass(s: Seq<char>) -> (Seq<char>, bool)
    decreases s.len(),
{
    if s.len() == 0 {
        (Seq::empty(), false)
    } else {
        let (out, prev_space) = stem_pass(s.drop_last());
        let c = s.last();
        if bad_file_char(c) || is_ws(c) {
            (if !prev_space && out.len() > 0 {
                out.push(' ')
            } else {
                out
            }, true)
        } else {
            (out.push(c), false)
        }
    }
}

/// A space or a dot, the chars trimmed from both ends of a stem.
pub open spec fn space_or_dot(c: char) -> bool {
    c == ' ' || c == '.'
}

/// `s` without leading spaces and dots.
pub open spec fn trim_dots_start(s: Seq<char>) -> Seq<char>
    decreases s.len(),
{
    if s.len() > 0 && space_or_dot(s[0]) {
        trim_dots_start(s.drop_first())
    } else {
        s
    }
}

/// `s` without trailing spaces and dots.
pub open spec fn trim_dots_end(s: Seq<char>) -> Seq<char>
    decreases s.len(),
{
    if s.len() > 0 && space_or_dot(s.last()) {
        trim_dots_end(s.drop_last())
    } else {
        s
    }
}

/// `s` without spaces and dots at either end.
pub open spec fn trim_dots(s: Seq<char>) -> Seq<char> {
    trim_dots_end(trim_dots_start(s))
}

/// The first 80 chars of `s` (all of it when shorter).
pub open spec fn take80(s: Seq<char>) -> Seq<char> {
    if s.len() <= 80 {
        s
    } else {
        s.subrange(0, 80)
    }
}

/// A file-name stem made safe: refused chars and whitespace collapsed to single spaces,
/// spaces and dots trimmed, at most 80 chars, trimmed again.
pub open spec fn safe_stem(raw: Seq<char>) -> Seq<char> {
    trim_dots(take80(trim_dots(stem_pass(raw).0)))
}

fn trim_dots_start_index(s: &[char]) -> (lo: usize)
    ensures
        lo <= s.len(),
        s@.subrange(lo as int, s.len() as int) == trim_dots_start(s@),
{
    let mut lo: usize = 0;
    assert(s@.subrange(0, s.len() as int) =~= s@);
    while lo < s.len() && (s[lo] == ' ' || s[lo] == '.')
        invariant
            lo <= s.len(),
            trim_dots_start(s@.subrange(lo as int, s.len() as int)) == trim_dots_start(s@),
        decreases s.len() - lo,
    {
        assert(s@.subrange(lo as int, s.len() as int).drop_first() =~= s@.subrange(
            lo + 1,
            s.len() as int,
        ));
        lo = lo + 1;
    }
    lo
}

fn trim_dots_end_index(s: &[char]) -> (hi: usize)
    ensures
        hi <= s.len(),
        s@.subrange(0, hi as int) == trim_dots_end(s@),
{
    let mut hi: usize = s.len();
    assert(s@.subrange(0, s.len() as int) =~= s@);
    while hi > 0 && (s[hi - 1] == ' ' || s[hi - 1] == '.')
        invariant
            hi <= s.len(),
            trim_dots_end(s@.subrange(0, hi as int)) == trim_dots_end(s@),
        decreases hi,
    {
        assert(s@.subrange(0, hi as int).drop_last() =~= s@.subrange(0, hi - 1));
        hi = hi - 1;
    }
    hi
}

fn trim_dots_chars(s: &[char]) -> (r: Vec<char>)
    ensures
        r@ == trim_dots(s@),
{
    let lo = trim_dots_start_index(s);
    let mid = slice_chars(s, lo, s.len());
    let hi = trim_dots_end_index(&mid);
    slice_chars(&mid, 0, hi)
}

/// Makes a file-name stem safe for the export dialog.
pub fn sanitize_chat_export_stem(raw_stem: &str) -> (r: String)
    ensures
        r@ == safe_stem(raw_stem@),
{
    let v = chars_of(raw_stem);
    let mut out: Vec<char> = Vec::new();
    let mut prev_space = false;
    let mut i: usize = 0;
    while i < v.len()
        invariant
            i <= v@.len(),
            v@ == raw_stem@,
            stem_pass(v@.subrange(0, i as int)) == (out@, prev_space),
        decreases v.len() - i,
    {
        let c = v[i];
        let ghost pre = v@.subrange(0, i + 1);
        assert(pre.drop_last() =~= v@.subrange(0, i as int));
        let bad = ('\u{0}' <= c && c <= '\u{1f}') || ('\u{7f}' <= c && c <= '\u{9f}') || c == '<' || c == '>' || c
            == ':' || c == '"' || c == '/' || c == '\\' || c == '|' || c == '?' || c == '*';
        assert(bad == bad_file_char(c));
        if bad || crate::text::is_whitespace(c) {
            if !prev_space && out.len() > 0 {
                out.push(' ');
            }
            prev_space = true;
        } else {
            out.push(c);
            prev_space = false;
        }
        i = i + 1;
    }
    assert(v@.subrange(0, v.len() as int) =~= v@);
    let t1 = trim_dots_chars(&out);
    let t2 = if t1.len() <= 80 {
        slice_chars(&t1, 0, t1.len())
    } else {
        slice_chars(&t1, 0, 80)
    };
    assert(t1@.subrange(0, t1@.len() as int) =~= t1@);
    let t3 = trim_dots_chars(&t2);
    string_of(&t3)
}

/// The part of `s` after its last `.`, and the part before it, when `s` has a dot.
pub open spec fn split_at_last_dot(s: Seq<char>) -> Option<(Seq<char>, Seq<char>)> {
    if exists|k: int| 0 <= k < s.len() && s[k] == '.' {
        let k = choose|k: int|
            0 <= k < s.len() && s[k] == '.' && forall|j: int| k < j < s.len() ==> s[j] != '.';
        Some((s.subrange(0, k), s.subrange(k + 1, s.len() as int)))
    } else {
        None
    }
}

/// Export file name for a suggested name: trimmed; a `.md` or `.txt` extension (any ASCII
/// case, lower-cased) is kept and anything else gets `.md`; the stem made safe; `fallback`
/// when nothing usable is left.
pub open spec fn chat_export_name(suggested: Option<Seq<char>>, fallback: Seq<char>) -> Seq<char> {
    match suggested {
        None => fallback,
        Some(raw) => {
            let t = trim(raw);
            if t.len() == 0 {
                fallback
            } else {
                let (stem, ext, give_up) = match split_at_last_dot(t) {
                    Some((stem, ext)) => {
                        let e = crate::text::ascii_lower(trim(ext));
                        if e == "md"@ || e == "txt"@ {
                            (stem, e, trim(stem).len() == 0)
                        } else {
                            (t, "md"@, false)
                        }
                    },
                    None => (t, "md"@, false),
                };
                if give_up || safe_stem(stem).len() == 0 {
                    fallback
                } else {
                    safe_stem(stem) + "."@ + ext
                }
            }
        },
    }
}

/// Export file name for a suggested name, with `fallback` used when nothing usable is left.
pub fn chat_export_file_name_with_fallback(suggested_file_name: Option<String>, fallback: String) -> (r:
    String)
    ensures
        r@ == chat_export_name(
            match suggested_file_name {
                Some(s) => Some(s@),
                None => None,
            },
            fallback@,
        ),
{
    let raw = match suggested_file_name {
        Some(s) => s,
        None => return fallback,
    };
    let t = trim_str(raw.as_str());
    if t.as_str().is_empty() {
        return fallback;
    }
    let tv = chars_of(t.as_str());
    let dot = crate::text::rfind_char(&tv, '.');
    let ghost sp = split_at_last_dot(tv@);
    let (stem, ext): (Vec<char>, String) = match dot {
        Some(k) => {
            proof {
                let w = choose|w: int|
                    0 <= w < tv@.len() && tv@[w] == '.' && forall|j: int| w < j < tv@.len() ==> tv@[j] != '.';
                if w < k {
                    assert(tv@[k as int] == '.');
                } else if w > k {
                    assert(tv@[w] == '.');
                }
                assert(sp == Some((tv@.subrange(0, k as int), tv@.subrange(k + 1, tv@.len() as int))));
            }
            let stem = slice_chars(&tv, 0, k);
            let ext_raw = slice_chars(&tv, k + 1, tv.len());
            let ext_lower = to_ascii_lower(&trim_chars(&ext_raw));
            let e = string_of(&ext_lower);
            proof {
                reveal_strlit("md");
                reveal_strlit("txt");
            }
            if str_eq(e.as_str(), "md") || str_eq(e.as_str(), "txt") {
                if trim_chars(&stem).len() == 0 {
                    return fallback;
                }
                (stem, e)
            } else {
                (tv, "md".to_owned())
            }
        },
        None => {
            assert(sp is None);
            (tv, "md".to_owned())
        },
    };
    let stem_text = string_of(&stem);
    let safe = sanitize_chat_export_stem(stem_text.as_str());
    if safe.as_str().is_empty() {
        return fallback;
    }
    let mut r = concat2(safe.as_str(), ".");
    crate::text::push_str(&mut r, ext.as_str());
    r
}

/// The local date and time as `YYYY-MM-DD-HHMM` (`chrono::Local::now` formatted with
/// `%Y-%m-%d-%H%M`). It depends on the clock and time zone, so nothing is promised of it.
#[verifier::external_body]
fn local_file_timestamp() -> (r: String) {
    chrono::Local::now().format("%Y-%m-%d-%H%M").to_string()
}

/// `chat-<timestamp>.md`, the name proposed when no usable name was suggested.
pub fn default_chat_export_file_name() -> (r: String)
    ensures
        has_prefix(r@, "chat-"@),
        has_suffix(r@, ".md"@),
{
    let ts = local_file_timestamp();
    let r = concat3("chat-", ts.as_str(), ".md");
    proof {
        reveal_strlit("chat-");
        reveal_strlit(".md");
        assert(r@.subrange(0, 5) =~= "chat-"@);
        assert(r@.subrange(r@.len() - 3, r@.len() as int) =~= ".md"@);
    }
    r
}

/// Export file name for a suggested chat name, falling back to `chat-<timestamp>.md`.
pub fn build_chat_export_file_name(suggested_file_name: Option<String>) -> (r: String)
    ensures
        exists|fallback: Seq<char>|
            has_prefix(fallback, "chat-"@) && has_suffix(fallback, ".md"@) && r@ == chat_export_name(
                match suggested_file_name {
                    Some(s) => Some(s@),
                    None => None,
                },
                fallback,
            ),
{
    let fallback = default_chat_export_file_name();
    let ghost fb = fallback@;
    let r = chat_export_file_name_with_fallback(suggested_file_name, fallback);
    assert(has_prefix(fb, "chat-"@) && has_suffix(fb, ".md"@));
    r
}

} // verus!
