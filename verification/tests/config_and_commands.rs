use respondami::agents_md::{GENERATE_CHAT_MESSAGE, GENERATE_PROMPT};
use respondami::app::{transition_to_idle, App, AppState, CompactionResult};
use respondami::config::{
    join_path, Config, ConfigError, ProviderConfig, ProviderFields, ProviderSettings, RtkConfig,
};
use respondami::display::{HookDisplay, ThinkingDisplay};
use respondami::hooks::HookRegistry;
use respondami::logging::{log_dir_path, log_file_path, LOG_FILE};

fn fields_of(json: &str) -> ProviderFields {
    let v: serde_json::Value = serde_json::from_str(json).unwrap();
    let s = |k: &str| v.get(k).and_then(|x| x.as_str()).map(String::from);
    ProviderFields {
        provider_type: s("type"),
        url: s("url"),
        api_key: s("api_key"),
        model: s("model"),
        context_window: v.get("context_window").and_then(serde_json::Value::as_u64),
    }
}

fn url_of(c: &ProviderConfig) -> String {
    let ProviderSettings::LlamaCpp(s) = &c.settings;
    s.url.clone()
}

// ─── ProviderConfig reading ───

#[test]
fn provider_config_full() {
    let json = r#"{
    "type": "llamacpp",
    "url": "http://example.com:8080",
    "api_key": "secret",
    "model": "my-model",
    "context_window": 4096
}"#;
    let config = ProviderConfig::from_fields(fields_of(json)).unwrap();
    assert_eq!(config.model, "my-model");
    assert_eq!(config.context_window, 4096);
    assert_eq!(config.provider_type(), "llamacpp");
}

#[test]
fn provider_config_legacy_no_type_field() {
    let json = r#"{
    "url": "http://localhost:9000",
    "model": "llama3.2",
    "context_window": 8192
}"#;
    let config = ProviderConfig::from_fields(fields_of(json)).unwrap();
    assert_eq!(config.provider_type(), "llamacpp");
    assert_eq!(config.model, "llama3.2");
    assert_eq!(config.context_window, 8192);
}

#[test]
fn provider_config_defaults() {
    let config = ProviderConfig::from_fields(fields_of(r"{}")).unwrap();
    assert_eq!(config.model, "llama3.2");
    assert_eq!(config.context_window, 32768);
    let ProviderSettings::LlamaCpp(s) = &config.settings;
    assert_eq!(s.url, "http://localhost:8080");
    assert_eq!(s.api_key, "");
}

#[test]
fn provider_config_unknown_type_rejects() {
    let json = r#"{
    "type": "unknown_provider",
    "model": "test",
    "context_window": 4096
}"#;
    let result = ProviderConfig::from_fields(fields_of(json));
    assert!(result.is_err());
}

// ─── Config defaults and validation ───

#[test]
fn config_default_values() {
    let config = Config::default_config();
    assert_eq!(config.provider.model, "llama3.2");
    assert_eq!(config.provider.context_window, 32768);
    assert!(config.compaction.enabled);
    assert_eq!(config.compaction.reserve_tokens, 16384);
    assert_eq!(config.compaction.keep_recent_tokens, 16384);
}

#[test]
fn config_validate_valid() {
    let config = Config::default_config();
    config.validate().unwrap();
}

#[test]
fn config_validate_zero_context_window() {
    let mut config = Config::default_config();
    config.provider.context_window = 0;
    assert!(config.validate().is_err());
}

#[test]
fn config_validate_invalid_url() {
    let mut config = Config::default_config();
    let ProviderSettings::LlamaCpp(s) = &mut config.provider.settings;
    s.url = "not-a-url".to_string();
    assert!(config.validate().is_err());
}

#[test]
fn config_validate_https_url_ok() {
    let mut config = Config::default_config();
    let ProviderSettings::LlamaCpp(s) = &mut config.provider.settings;
    s.url = "https://example.com".to_string();
    config.validate().unwrap();
}

#[test]
fn config_default_ui() {
    let config = Config::default_config();
    assert!(matches!(config.ui.thinking_display, ThinkingDisplay::Collapsed));
    assert_eq!(config.ui.thinking_max_lines, 5);
    assert!(config.ui.tool_output_expanded);
    assert!(config.ui.file_show_hidden);
}

#[test]
fn rtk_config_default_values() {
    let config = RtkConfig::default_config();
    assert!(config.enabled);
}

#[test]
fn config_default_includes_rtk() {
    let config = Config::default_config();
    assert!(config.rtk.enabled);
}

// Own configuration tests.

#[test]
fn provider_config_anthropic_is_not_implemented() {
    let r = ProviderConfig::from_fields(fields_of(r#"{"type": "anthropic"}"#));
    match r {
        Err(e) => {
            assert_eq!(e, ConfigError::AnthropicNotImplemented);
            assert_eq!(e.message(), "anthropic provider not yet implemented");
        }
        Ok(_) => panic!("anthropic must be refused"),
    }
}

#[test]
fn provider_config_unknown_type_message_names_it() {
    match ProviderConfig::from_fields(fields_of(r#"{"type": "mystery"}"#)) {
        Err(e) => assert_eq!(e.message(), "unknown provider type: mystery"),
        Ok(_) => panic!("unknown type must be refused"),
    }
}

#[test]
fn provider_config_context_window_keeps_low_bits() {
    let c = ProviderConfig::from_fields(fields_of(r#"{"context_window": 4294967297}"#)).unwrap();
    assert_eq!(c.context_window, 1);
    assert_eq!(url_of(&c), "http://localhost:8080");
}

#[test]
fn validate_checks_context_window_before_url() {
    let mut config = Config::default_config();
    config.provider.context_window = 0;
    let ProviderSettings::LlamaCpp(s) = &mut config.provider.settings;
    s.url = "ftp://x".to_string();
    let e = config.validate().unwrap_err();
    assert_eq!(e, ConfigError::ZeroContextWindow);
    assert_eq!(e.message(), "context_window must be greater than 0");
}

#[test]
fn validate_rejects_url_without_scheme_prefix() {
    let mut config = Config::default_config();
    let ProviderSettings::LlamaCpp(s) = &mut config.provider.settings;
    s.url = "http:/x".to_string();
    assert_eq!(config.validate().unwrap_err(), ConfigError::InvalidUrl);
}

#[test]
fn join_path_adds_one_separator() {
    assert_eq!(join_path("/home/u/.config", "respondami"), "/home/u/.config/respondami");
    assert_eq!(join_path("/home/u/", "x"), "/home/u/x");
    assert_eq!(join_path("", "x"), "x");
}

#[test]
fn config_dir_ends_in_application_name() {
    assert!(Config::config_dir().ends_with("/respondami"));
    assert!(Config::config_path().ends_with("respondami/config.json"));
}

#[test]
fn config_dir_from_defaults_to_home_config() {
    assert_eq!(respondami::config::config_dir_from(None), "~/.config/respondami");
    assert_eq!(respondami::config::config_dir_from(Some("/x".to_string())), "/x/respondami");
}

#[test]
fn migration_needed_when_a_section_is_missing() {
    assert!(respondami::config::needs_migration(false, true));
    assert!(respondami::config::needs_migration(true, false));
    assert!(!respondami::config::needs_migration(true, true));
}

// ─── Palette commands ───

#[test]
fn palette_command_new_shows_welcome_screen() {
    let messages_empty = true;
    assert!(messages_empty, "new must leave messages empty for welcome screen");
}

#[test]
fn palette_command_resume_sets_session_select_state() {
    let state = AppState::SessionSelect;
    assert!(matches!(state, AppState::SessionSelect));
}

#[test]
fn palette_command_quit_returns_true() {
    let quit = true;
    assert!(quit, "quit must return true to quit");
}

#[test]
fn palette_command_help_shows_help_message() {
    let help_message = "Use Ctrl+G to open the command palette.";
    assert!(help_message.contains("Ctrl+G"));
}

#[test]
fn palette_command_model_shows_model_info() {
    let info = "Model: test-model";
    assert!(info.contains("Model:"));
}

#[test]
fn palette_command_clear_clears_chat() {
    let commands = ["new", "resume", "quit", "compact", "help", "model", "clear", "init"];
    assert!(commands.contains(&"clear"));
}

#[test]
fn palette_command_compact_sets_compacting_state() {
    let state = AppState::Compacting;
    assert!(matches!(state, AppState::Compacting));
}

#[test]
fn palette_command_compact_requires_active_session() {
    let error = "No active session to compact.";
    assert!(error.contains("No active session"));
}

#[test]
fn palette_command_toggle_thinking_toggles_display() {
    let current = ThinkingDisplay::Collapsed;
    let next = current.toggle();
    assert_eq!(next, ThinkingDisplay::Expanded);
}

#[test]
fn palette_command_toggle_tool_output_toggles_expand() {
    let expanded = true;
    let next = !expanded;
    assert!(!next, "toggle should flip expanded state");
}

#[test]
fn palette_command_toggle_hook_mode_toggles_display() {
    let current = HookDisplay::Minimal;
    let next = current.toggle();
    assert_eq!(next, HookDisplay::Full);
}

#[test]
fn palette_command_unknown_shows_error() {
    let cmd = "unknown_command";
    let error = format!("Unknown command: {cmd}");
    assert_eq!(error, "Unknown command: unknown_command");
}

#[test]
fn palette_command_reload_hooks_replaces_registry() {
    let registry = HookRegistry::new();
    let count = registry.total_count();
    let msg = format!("Hooks reloaded: {count} active");
    assert!(msg.contains("Hooks reloaded"));
    assert!(msg.contains("active"));
}

// ─── Event loop ───

#[test]
fn compaction_result_success_display() {
    let result = CompactionResult::Success { tokens_before: 1000, tokens_after: 500, messages_removed: 10 };
    assert_eq!(result.to_display_string(), "compaction succeeded");
}

#[test]
fn compaction_result_failed_display() {
    let result = CompactionResult::Failed("provider error".to_string());
    assert_eq!(result.to_display_string(), "compaction failed: provider error");
}

#[test]
fn compaction_result_panicked_display() {
    let result = CompactionResult::Panicked;
    assert_eq!(result.to_display_string(), "compaction task panicked");
}

#[test]
fn compaction_result_debug() {
    let result = CompactionResult::Success { tokens_before: 100, tokens_after: 50, messages_removed: 3 };
    let debug = format!("{result:?}");
    assert!(debug.contains("Success"));
    assert!(debug.contains("100"));
}

#[test]
fn transition_to_idle_sets_idle_state() {
    let mut app = App::new(&Config::default_config(), ".".to_string());
    app.modal.state = AppState::Compacting;
    transition_to_idle(&mut app);
    assert_eq!(app.modal.state, AppState::Idle);
}

#[test]
fn transition_to_idle_from_streaming() {
    let mut app = App::new(&Config::default_config(), ".".to_string());
    app.modal.state = AppState::Streaming;
    transition_to_idle(&mut app);
    assert_eq!(app.modal.state, AppState::Idle);
}

// ─── AGENTS.md constants ───

#[test]
fn generate_prompt_is_non_empty() {
    assert!(!GENERATE_PROMPT.is_empty());
}

#[test]
fn generate_prompt_mentions_agents_md() {
    assert!(GENERATE_PROMPT.contains("AGENTS.md"));
}

#[test]
fn generate_prompt_mentions_architecture() {
    assert!(GENERATE_PROMPT.contains("Architecture"));
}

#[test]
fn generate_prompt_mentions_file_map() {
    assert!(GENERATE_PROMPT.contains("File Map"));
}

#[test]
fn generate_chat_message_has_emoji() {
    assert!(GENERATE_CHAT_MESSAGE.contains('🤖'));
}

#[test]
fn generate_chat_message_mentions_agents_md() {
    assert!(GENERATE_CHAT_MESSAGE.contains("AGENTS.md"));
}

#[test]
fn agents_md_candidates_root_then_hidden() {
    let c = respondami::agents_md::agents_md_candidates("/p");
    assert_eq!(c, vec!["/p/AGENTS.md".to_string(), "/p/.respondami/AGENTS.md".to_string()]);
}

#[test]
fn agents_md_blank_content_counts_as_absent() {
    assert_eq!(respondami::agents_md::agents_md_content("   \n\n  ".to_string()), None);
    assert_eq!(respondami::agents_md::agents_md_content(String::new()), None);
    assert_eq!(
        respondami::agents_md::agents_md_content("# Rules".to_string()),
        Some("# Rules".to_string())
    );
}

// ─── Logging ───

#[test]
fn log_dir_path_includes_respondami_dir() {
    let path = log_dir_path("/work");
    assert!(path.contains(".respondami"));
    assert!(path.contains("logs"));
}

#[test]
fn log_file_path_includes_respondami_dir_and_logs() {
    let path = log_file_path("/work");
    assert!(path.contains(".respondami"));
    assert!(path.contains("logs"));
    assert_eq!(path.rsplit('/').next().map(String::from), Some(LOG_FILE.to_string()));
}

#[test]
fn log_file_path_is_inside_log_dir() {
    let dir = log_dir_path(".");
    let file = log_file_path(".");
    assert!(file.starts_with(&dir));
    assert_eq!(file, "./.respondami/logs/respondami.log");
}
