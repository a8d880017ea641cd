//! Application configuration: provider settings, compaction thresholds,
//! display modes, RTK integration and retry policy, with their defaults,
//! the rules that read a provider section and the validation rules.
//!
//! The file lives at `<config dir>/respondami/config.json`.

use vstd::prelude::*;
use crate::display::{HookDisplay, ThinkingDisplay};
use vstd::string::StringExecFns;

verus! {

broadcast use vstd::string::group_string_axioms;

/// Settings of the llama.cpp (OpenAI-compatible) provider.
pub struct LlamaCppSettings {
    pub url: String,
    pub api_key: String,
}

/// Provider-specific settings, tagged by `type` in the file.
pub enum ProviderSettings {
    LlamaCpp(LlamaCppSettings),
}

/// Provider configuration for connecting to an LLM.
pub struct ProviderConfig {
    pub settings: ProviderSettings,
    pub model: String,
    pub context_window: u32,
}

/// Default provider URL.
pub open spec fn default_url() -> Seq<char> {
    "http://localhost:8080"@
}

/// Default model name.
pub open spec fn default_model() -> Seq<char> {
    "llama3.2"@
}

/// Default context window, in tokens.
pub const DEFAULT_CONTEXT_WINDOW: u32 = 32768;

/// Why a configuration is rejected.
#[derive(Clone, Debug, PartialEq, Eq)]
pub enum ConfigError {
    /// The provider section is not a JSON object.
    NotAnObject,
    /// `type` is `anthropic`, which is not implemented yet.
    AnthropicNotImplemented,
    /// `type` names no known provider.
    UnknownProviderType(String),
    /// `context_window` is zero.
    ZeroContextWindow,
    /// The provider URL does not start with `http://` or `https://`.
    InvalidUrl,
}

impl ConfigError {
    /// The error message shown to the user.
    pub fn message(&self) -> (s: String)
        ensures
            s@ == (match *self {
                ConfigError::NotAnObject => "expected provider config object"@,
                ConfigError::AnthropicNotImplemented => "anthropic provider not yet implemented"@,
                ConfigError::UnknownProviderType(t) => "unknown provider type: "@ + t@,
                ConfigError::ZeroContextWindow => "context_window must be greater than 0"@,
                ConfigError::InvalidUrl => "provider url must start with http:// or https://"@,
            }),
    {
        match self {
            ConfigError::NotAnObject => String::from_str("expected provider config object"),
            ConfigError::AnthropicNotImplemented => String::from_str("anthropic provider not yet implemented"),
            ConfigError::UnknownProviderType(t) => {
                let mut s = String::from_str("unknown provider type: ");
                s.append(t.as_str());
                s
            },
            ConfigError::ZeroContextWindow => String::from_str("context_window must be greater than 0"),
            ConfigError::InvalidUrl => String::from_str("provider url must start with http:// or https://"),
        }
    }
}

/// The fields of a provider section as found in the file: each is `None`
/// when absent or of the wrong JSON type.
pub struct ProviderFields {
    pub provider_type: Option<String>,
    pub url: Option<String>,
    pub api_key: Option<String>,
    pub model: Option<String>,
    pub context_window: Option<u64>,
}

/// The view of an optional string, or `default` when absent.
pub open spec fn or_default(o: Option<String>, default: Seq<char>) -> Seq<char> {
    match o {
        Some(s) => s@,
        None => default,
    }
}

/// The provider configuration a section yields, when it yields one:
/// absent fields take their defaults, a missing `type` means llama.cpp, and
/// a `context_window` keeps its low 32 bits.
pub open spec fn provider_from_fields_ok(f: ProviderFields, c: ProviderConfig) -> bool {
    &&& c.settings matches ProviderSettings::LlamaCpp(s)
        && s.url@ == or_default(f.url, default_url())
        && s.api_key@ == or_default(f.api_key, Seq::<char>::empty())
    &&& c.model@ == or_default(f.model, default_model())
    &&& c.context_window == (match f.context_window {
        Some(v) => v as u32,
        None => DEFAULT_CONTEXT_WINDOW,
    })
}

fn string_or(o: Option<String>, default: &str) -> (s: String)
    ensures
        s@ == or_default(o, default@),
{
    match o {
        Some(s) => s,
        None => String::from_str(default),
    }
}

/// Whether two strings hold the same characters.
pub fn str_equal(a: &str, b: &str) -> (r: bool)
    ensures
        r == (a@ == b@),
{
    let ca = crate::text::chars_of(a);
    let cb = crate::text::chars_of(b);
    if ca.len() != cb.len() {
        return false;
    }
    let mut i: usize = 0;
    while i < ca.len()
        invariant
            ca@ == a@,
            cb@ == b@,
            ca@.len() == cb@.len(),
            i <= ca@.len(),
            forall|j: int| 0 <= j < i ==> ca@[j] == #[trigger] cb@[j],
        decreases ca@.len() - i,
    {
        if ca[i] != cb[i] {
            return false;
        }
        i = i + 1;
    }
    assert(ca@ =~= cb@);
    true
}

impl ProviderConfig {
    /// The provider type name: `llamacpp`.
    pub fn provider_type(&self) -> (s: &'static str)
        ensures
            s@ == "llamacpp"@,
    {
        match &self.settings {
            ProviderSettings::LlamaCpp(_) => "llamacpp",
        }
    }

    /// Read a provider section. A `type` of `anthropic` is refused as not
    /// implemented, any other `type` but `llamacpp` as unknown.
    pub fn from_fields(f: ProviderFields) -> (r: Result<ProviderConfig, ConfigError>)
        ensures
            match f.provider_type {
                None => r matches Ok(c) && provider_from_fields_ok(f, c),
                Some(t) => if t@ == "llamacpp"@ {
                    r matches Ok(c) && provider_from_fields_ok(f, c)
                } else if t@ == "anthropic"@ {
                    r == Err::<ProviderConfig, ConfigError>(ConfigError::AnthropicNotImplemented)
                } else {
                    r matches Err(ConfigError::UnknownProviderType(u)) && u@ == t@
                },
            },
    {
        let ghost f0 = f;
        let ProviderFields { provider_type, url, api_key, model, context_window } = f;
        let url = string_or(url, "http://localhost:8080");
        let api_key = string_or(api_key, "");
        proof {
            reveal_strlit("");
            assert(""@ =~= Seq::<char>::empty());
        }
        let model = string_or(model, "llama3.2");
        let context_window: u32 = match context_window {
            Some(v) => v as u32,
            None => DEFAULT_CONTEXT_WINDOW,
        };
        match provider_type {
            Some(t) => {
                if str_equal(t.as_str(), "anthropic") {
                    proof {
                        reveal_strlit("anthropic");
                        reveal_strlit("llamacpp");
                        assert("anthropic"@ != "llamacpp"@) by {
                            assert("anthropic"@[0] != "llamacpp"@[0]);
                        }
                    }
                    return Err(ConfigError::AnthropicNotImplemented);
                }
                if !str_equal(t.as_str(), "llamacpp") {
                    return Err(ConfigError::UnknownProviderType(t));
                }
            },
            None => {},
        }
        let c = ProviderConfig {
            settings: ProviderSettings::LlamaCpp(LlamaCppSettings { url, api_key }),
            model,
            context_window,
        };
        assert(provider_from_fields_ok(f0, c));
        Ok(c)
    }

    /// The configured provider URL.
    pub fn url(&self) -> (s: &String)
        ensures
            self.settings matches ProviderSettings::LlamaCpp(st) && s == &st.url,
    {
        match &self.settings {
            ProviderSettings::LlamaCpp(s) => &s.url,
        }
    }
}

/// Compaction settings.
#[derive(Clone, Copy, Debug, PartialEq, Eq, Structural)]
pub struct CompactionConfig {
    pub enabled: bool,
    pub reserve_tokens: u32,
    pub keep_recent_tokens: u32,
}

/// Display configuration.
#[derive(Clone, Copy, Debug, PartialEq, Eq, Structural)]
pub struct UiConfig {
    pub thinking_display: ThinkingDisplay,
    pub thinking_max_lines: usize,
    /// Whether tool output starts expanded (else only its tail shows).
    pub tool_output_expanded: bool,
    pub hook_display: HookDisplay,
    /// Show dotfiles in the file autocomplete popup.
    pub file_show_hidden: bool,
}

/// RTK integration configuration (command rewriting through `rtk`).
#[derive(Clone, Copy, Debug, PartialEq, Eq, Structural)]
pub struct RtkConfig {
    pub enabled: bool,
}

/// Retry policy for transient provider errors: exponential backoff.
#[derive(Clone, Copy, Debug, PartialEq, Eq, Structural)]
pub struct RetryConfig {
    pub enabled: bool,
    pub max_retries: u32,
    pub base_delay_ms: u64,
}

/// Full application configuration.
pub struct Config {
    pub provider: ProviderConfig,
    pub compaction: CompactionConfig,
    pub ui: UiConfig,
    pub rtk: RtkConfig,
    pub retry: RetryConfig,
}

impl CompactionConfig {
    /// Enabled, 16384 tokens reserved, 16384 recent tokens kept.
    pub fn default_config() -> (c: CompactionConfig)
        ensures
            c == (CompactionConfig { enabled: true, reserve_tokens: 16384, keep_recent_tokens: 16384 }),
    {
        CompactionConfig { enabled: true, reserve_tokens: 16384, keep_recent_tokens: 16384 }
    }
}

impl UiConfig {
    /// Thinking collapsed to 5 lines, tool output expanded, minimal hook
    /// messages, hidden files listed.
    pub fn default_config() -> (c: UiConfig)
        ensures
            c == (UiConfig {
                thinking_display: ThinkingDisplay::Collapsed,
                thinking_max_lines: 5,
                tool_output_expanded: true,
                hook_display: HookDisplay::Minimal,
                file_show_hidden: true,
            }),
    {
        UiConfig {
            thinking_display: ThinkingDisplay::default_mode(),
            thinking_max_lines: 5,
            tool_output_expanded: true,
            hook_display: HookDisplay::default_mode(),
            file_show_hidden: true,
        }
    }
}

impl RtkConfig {
    /// Enabled.
    pub fn default_config() -> (c: RtkConfig)
        ensures
            c.enabled,
    {
        RtkConfig { enabled: true }
    }
}

impl RetryConfig {
    /// Enabled, 3 retries, 2000 ms base delay.
    pub fn default_config() -> (c: RetryConfig)
        ensures
            c == (RetryConfig { enabled: true, max_retries: 3, base_delay_ms: 2000 }),
    {
        RetryConfig { enabled: true, max_retries: 3, base_delay_ms: 2000 }
    }
}

/// Whether `s` begins with `prefix`.
pub open spec fn starts_with(s: Seq<char>, prefix: Seq<char>) -> bool {
    prefix.len() <= s.len() && s.take(prefix.len() as int) == prefix
}

/// Whether `s` begins with `prefix`.
pub fn starts_with_str(s: &str, prefix: &str) -> (b: bool)
    ensures
        b == starts_with(s@, prefix@),
{
    let cs = crate::text::chars_of(s);
    let cp = crate::text::chars_of(prefix);
    if cp.len() > cs.len() {
        return false;
    }
    let mut i: usize = 0;
    while i < cp.len()
        invariant
            cs@ == s@,
            cp@ == prefix@,
            cp@.len() <= cs@.len(),
            i <= cp@.len(),
            forall|j: int| 0 <= j < i ==> cs@[j] == #[trigger] cp@[j],
        decreases cp@.len() - i,
    {
        if cs[i] != cp[i] {
            assert(s@.take(prefix@.len() as int)[i as int] != prefix@[i as int]);
            return false;
        }
        i = i + 1;
    }
    assert(s@.take(prefix@.len() as int) =~= prefix@);
    true
}

/// The result of validating a configuration with this context window and
/// provider URL.
pub open spec fn validation(context_window: u32, url: Seq<char>) -> Result<(), ConfigError> {
    if context_window == 0 {
        Err(ConfigError::ZeroContextWindow)
    } else if !starts_with(url, "http://"@) && !starts_with(url, "https://"@) {
        Err(ConfigError::InvalidUrl)
    } else {
        Ok(())
    }
}

impl Config {
    /// The default configuration: a llama.cpp provider at
    /// `http://localhost:8080` with no API key, model `llama3.2`, a 32768
    /// token context window, and the default sections.
    pub fn default_config() -> (c: Config)
        ensures
            c.provider.settings matches ProviderSettings::LlamaCpp(s) && s.url@ == default_url()
                && s.api_key@ == Seq::<char>::empty(),
            c.provider.model@ == default_model(),
            c.provider.context_window == DEFAULT_CONTEXT_WINDOW,
            c.compaction == CompactionConfig::default_config_spec(),
            c.ui == UiConfig::default_config_spec(),
            c.rtk.enabled,
            c.retry == (RetryConfig { enabled: true, max_retries: 3, base_delay_ms: 2000 }),
    {
        proof {
            reveal_strlit("");
        }
        Config {
            provider: ProviderConfig {
                settings: ProviderSettings::LlamaCpp(
                    LlamaCppSettings { url: String::from_str("http://localhost:8080"), api_key: String::from_str("") },
                ),
                model: String::from_str("llama3.2"),
                context_window: DEFAULT_CONTEXT_WINDOW,
            },
            compaction: CompactionConfig::default_config(),
            ui: UiConfig::default_config(),
            rtk: RtkConfig::default_config(),
            retry: RetryConfig::default_config(),
        }
    }

    /// Check the context window (first) and the provider URL.
    pub fn validate(&self) -> (r: Result<(), ConfigError>)
        ensures
            self.provider.settings matches ProviderSettings::LlamaCpp(s)
                && r == validation(self.provider.context_window, s.url@),
    {
        let url = self.provider.url();
        if self.provider.context_window == 0 {
            return Err(ConfigError::ZeroContextWindow);
        }
        if !starts_with_str(url.as_str(), "http://") && !starts_with_str(url.as_str(), "https://") {
            return Err(ConfigError::InvalidUrl);
        }
        Ok(())
    }
}

impl CompactionConfig {
    /// The default compaction section, as a value.
    pub open spec fn default_config_spec() -> CompactionConfig {
        CompactionConfig { enabled: true, reserve_tokens: 16384, keep_recent_tokens: 16384 }
    }
}

impl UiConfig {
    /// The default display section, as a value.
    pub open spec fn default_config_spec() -> UiConfig {
        UiConfig {
            thinking_display: ThinkingDisplay::Collapsed,
            thinking_max_lines: 5,
            tool_output_expanded: true,
            hook_display: HookDisplay::Minimal,
            file_show_hidden: true,
        }
    }
}

/// A file written before the `ui` and `rtk` sections existed is written
/// back with them when it is loaded.
pub fn needs_migration(has_ui_section: bool, has_rtk_section: bool) -> (b: bool)
    ensures
        b == (!has_ui_section || !has_rtk_section),
{
    !has_ui_section || !has_rtk_section
}

/// `part` appended to the path `base` as `PathBuf::join` does for a
/// relative part: with a `/` between them unless `base` is empty or
/// already ends with one.
pub open spec fn path_join(base: Seq<char>, part: Seq<char>) -> Seq<char> {
    if base.len() == 0 {
        part
    } else if base.last() == '/' {
        base + part
    } else {
        base + seq!['/'] + part
    }
}

/// Join a relative `part` onto `base`.
pub fn join_path(base: &str, part: &str) -> (p: String)
    ensures
        p@ == path_join(base@, part@),
{
    let cs = crate::text::chars_of(base);
    let mut out = String::from_str(base);
    if cs.len() > 0 && cs[cs.len() - 1] != '/' {
        out.push('/');
    }
    out.append(part);
    out
}

/// The user's configuration directory as `dirs::config_dir` reports it
/// (`$XDG_CONFIG_HOME` or `~/.config` on Linux), when there is one.
/// Nothing is stated of the result: it depends on the environment.
#[verifier::external_body]
fn user_config_dir() -> (d: Option<String>) {
    dirs::config_dir().map(|p| p.to_string_lossy().to_string())
}

/// The application's configuration directory below the user's
/// configuration directory `base` (`~/.config` when there is none).
pub open spec fn config_dir_under(base: Option<String>) -> Seq<char> {
    path_join(or_default(base, "~/.config"@), "respondami"@)
}

/// The application's configuration directory below `base`.
pub fn config_dir_from(base: Option<String>) -> (p: String)
    ensures
        p@ == config_dir_under(base),
{
    let b = string_or(base, "~/.config");
    join_path(b.as_str(), "respondami")
}

impl Config {
    /// The configuration directory: `respondami` below the user's
    /// configuration directory.
    pub fn config_dir() -> (p: String)
        ensures
            exists|base: Option<String>| p@ == config_dir_under(base),
    {
        let base = user_config_dir();
        let ghost b = base;
        let p = config_dir_from(base);
        assert(p@ == config_dir_under(b));
        p
    }

    /// The configuration file: `config.json` in the configuration directory.
    pub fn config_path() -> (p: String)
        ensures
            exists|base: Option<String>| p@ == path_join(config_dir_under(base), "config.json"@),
    {
        let dir = Self::config_dir();
        let ghost d = dir@;
        let p = join_path(dir.as_str(), "config.json");
        assert(exists|base: Option<String>| d == config_dir_under(base));
        let ghost base = choose|base: Option<String>| d == config_dir_under(base);
        assert(p@ == path_join(config_dir_under(base), "config.json"@));
        p
    }
}

} // verus!
