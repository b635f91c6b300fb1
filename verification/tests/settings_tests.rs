use mini_ai_1c::profiles::{LLMProfile, LLMProvider, ProfileStore};
use mini_ai_1c::settings::{
    build_chat_export_file_name, build_export_bundle, chat_export_file_name_with_fallback,
    first_non_empty_line, merge_imported_bundle, node_version_result, normalize_node_command,
    restore_profile_secrets, restore_sensitive_settings, sanitize_chat_export_stem,
    sanitize_profiles_for_export, sanitize_settings_for_export, AppSettings, ConfiguratorBinding,
    ExportSettingsResult, McpServerConfig, McpTransport, ProviderSettings, ProxySettings,
    SettingsTransferStatus, SETTINGS_EXPORT_FORMAT_VERSION,
};

fn empty_settings() -> AppSettings {
    AppSettings {
        active_llm_profile: String::new(),
        active_provider_id: String::new(),
        providers: Vec::new(),
        mcp_servers: Vec::new(),
        proxy: ProxySettings {
            host: String::new(),
            port: None,
            username: String::new(),
            password: String::new(),
        },
        configurator: ConfiguratorBinding {
            selected_window_hwnd: None,
            selected_window_pid: None,
            selected_window_title: None,
            selected_config_name: None,
        },
    }
}

fn settings_with_sensitive_data() -> AppSettings {
    AppSettings {
        active_llm_profile: "profile-123".to_string(),
        active_provider_id: "openai".to_string(),
        providers: vec![(
            "openai".to_string(),
            ProviderSettings {
                enabled: true,
                api_key: Some("super-secret-key".to_string()),
                base_url: Some("https://api.example.com".to_string()),
                active_model_id: Some("gpt-test".to_string()),
            },
        )],
        mcp_servers: vec![McpServerConfig {
            id: "mcp-1".to_string(),
            name: "Protected MCP".to_string(),
            enabled: true,
            transport: McpTransport::Http,
            url: Some("http://localhost:3000/mcp".to_string()),
            login: Some("admin".to_string()),
            password: Some("hunter2".to_string()),
            headers: Some(vec![(
                "Authorization".to_string(),
                "Bearer test".to_string(),
            )]),
            command: None,
            args: None,
            env: Some(vec![("TOKEN".to_string(), "secret".to_string())]),
        }],
        proxy: ProxySettings {
            host: "proxy.corp.local".to_string(),
            port: Some(8080),
            username: "proxy-user".to_string(),
            password: "proxy-secret".to_string(),
        },
        ..empty_settings()
    }
}

fn profile(
    id: &str,
    name: &str,
    provider: LLMProvider,
    model: &str,
    key: &str,
    base_url: &str,
    temperature_milli: u32,
    context_window_override: Option<u32>,
) -> LLMProfile {
    LLMProfile {
        id: id.to_string(),
        name: name.to_string(),
        provider,
        model: model.to_string(),
        api_key_encrypted: key.to_string(),
        base_url: Some(base_url.to_string()),
        max_tokens: 8000,
        temperature_milli,
        context_window_override,
        reasoning_effort: None,
        enable_thinking: Some(true),
        disable_streaming: Some(false),
        stream_timeout_secs: Some(60),
        context_compress_strategy: "summarize".to_string(),
        max_context_messages: Some(50),
        extra_headers: None,
    }
}

fn profile_store_with_sensitive_data() -> ProfileStore {
    ProfileStore {
        profiles: vec![
            profile(
                "profile-1",
                "Profile One",
                LLMProvider::OpenAI,
                "gpt-5",
                "encrypted-secret",
                "https://api.example.com/v1",
                200,
                Some(128_000),
            ),
            profile(
                "profile-2",
                "Profile Two",
                LLMProvider::QwenCli,
                "qwen3-coder",
                "encrypted-qwen-secret",
                "https://chat.qwen.ai/api/v1",
                100,
                None,
            ),
        ],
        active_profile_id: "profile-2".to_string(),
    }
}

fn provider_of<'a>(s: &'a AppSettings, id: &str) -> &'a ProviderSettings {
    &s.providers.iter().find(|(k, _)| k == id).unwrap().1
}

#[test]
fn node_path_resolution_uses_first_non_empty_line() {
    let output = b"\r\nC:\\Program Files\\nodejs\\node.exe\r\nC:\\tools\\node.exe\r\n";

    assert_eq!(
        first_non_empty_line(output).as_deref(),
        Some(r"C:\Program Files\nodejs\node.exe")
    );
}

#[test]
fn node_path_check_normalizes_blank_to_default_launcher() {
    assert_eq!(normalize_node_command(""), "node");
    assert_eq!(normalize_node_command("   "), "node");
    assert_eq!(
        normalize_node_command(r" D:\portable\node\node.exe "),
        r"D:\portable\node\node.exe"
    );
}

#[test]
fn node_version_result_reports_each_outcome() {
    assert_eq!(
        node_version_result("node", true, b"v20.1.0\n", b""),
        Ok("v20.1.0".to_string())
    );
    assert_eq!(
        node_version_result("node", true, b"\n", b""),
        Err("Node.js 'node' запустился, но не вернул версию".to_string())
    );
    assert_eq!(
        node_version_result("node", false, b"", b"  boom \n"),
        Err("boom".to_string())
    );
    assert_eq!(
        node_version_result("node", false, b"", b""),
        Err("Node.js 'node' завершился с ошибкой".to_string())
    );
}

#[test]
fn export_sanitizer_removes_sensitive_data() {
    let sanitized = sanitize_settings_for_export(settings_with_sensitive_data());
    let server = &sanitized.mcp_servers[0];
    let provider = provider_of(&sanitized, "openai");

    assert_eq!(sanitized.active_llm_profile, "profile-123");
    assert_eq!(server.login, None);
    assert_eq!(server.password, None);
    assert_eq!(server.headers, None);
    assert_eq!(server.env, None);
    assert_eq!(provider.api_key, None);
    assert_eq!(sanitized.proxy.username, "");
    assert_eq!(sanitized.proxy.password, "");
}

#[test]
fn export_sanitizer_removes_transient_configurator_binding() {
    let mut settings = settings_with_sensitive_data();
    settings.configurator.selected_window_hwnd = Some(265280);
    settings.configurator.selected_window_pid = Some(12892);
    settings.configurator.selected_window_title = Some(
        "Общий модуль ГлобальныйПоискСервер: Модуль - Конфигуратор - Демонстрационное приложение"
            .to_string(),
    );
    settings.configurator.selected_config_name = Some("Демонстрационное приложение".to_string());

    let sanitized = sanitize_settings_for_export(settings);

    assert_eq!(sanitized.configurator.selected_window_hwnd, None);
    assert_eq!(sanitized.configurator.selected_window_pid, None);
    assert_eq!(sanitized.configurator.selected_window_title, None);
    assert_eq!(sanitized.configurator.selected_config_name, None);
}

#[test]
fn profile_export_sanitizer_removes_only_profile_secrets() {
    let sanitized = sanitize_profiles_for_export(profile_store_with_sensitive_data());
    let profile = &sanitized.profiles[0];
    let active_profile = &sanitized.profiles[1];

    assert_eq!(profile.api_key_encrypted, "");
    assert_eq!(profile.name, "Profile One");
    assert_eq!(profile.model, "gpt-5");
    assert_eq!(profile.base_url.as_deref(), Some("https://api.example.com/v1"));
    assert_eq!(profile.temperature_milli, 200);
    assert_eq!(profile.context_window_override, Some(128_000));
    assert_eq!(active_profile.id, "profile-2");
    assert_eq!(sanitized.active_profile_id, "profile-2");
}

#[test]
fn restore_sensitive_settings_preserves_current_secrets() {
    let mut current = empty_settings();
    current.active_llm_profile = "existing-profile".to_string();
    current.mcp_servers = vec![McpServerConfig {
        id: "mcp-1".to_string(),
        name: "Protected MCP".to_string(),
        enabled: true,
        transport: McpTransport::Http,
        url: Some("http://localhost:3000/mcp".to_string()),
        login: Some("current-login".to_string()),
        password: Some("current-password".to_string()),
        headers: Some(vec![(
            "Authorization".to_string(),
            "Bearer current".to_string(),
        )]),
        command: None,
        args: None,
        env: Some(vec![("TOKEN".to_string(), "current-secret".to_string())]),
    }];
    current.providers.push((
        "openai".to_string(),
        ProviderSettings {
            enabled: true,
            api_key: Some("current-api-key".to_string()),
            base_url: Some("https://api.example.com".to_string()),
            active_model_id: Some("gpt-test".to_string()),
        },
    ));
    current.proxy = ProxySettings {
        host: "proxy.corp.local".to_string(),
        port: Some(8080),
        username: "current-proxy-user".to_string(),
        password: "current-proxy-secret".to_string(),
    };

    let imported = restore_sensitive_settings(
        sanitize_settings_for_export(settings_with_sensitive_data()),
        &current,
    );
    let server = &imported.mcp_servers[0];
    let provider = provider_of(&imported, "openai");

    assert_eq!(imported.active_llm_profile, "profile-123");
    assert_eq!(server.login.as_deref(), Some("current-login"));
    assert_eq!(server.password.as_deref(), Some("current-password"));
    assert_eq!(
        server
            .headers
            .as_ref()
            .and_then(|headers| headers.iter().find(|(k, _)| k == "Authorization"))
            .map(|(_, v)| v.clone()),
        Some("Bearer current".to_string())
    );
    assert_eq!(
        server
            .env
            .as_ref()
            .and_then(|env| env.iter().find(|(k, _)| k == "TOKEN"))
            .map(|(_, v)| v.clone()),
        Some("current-secret".to_string())
    );
    assert_eq!(imported.proxy.username, "current-proxy-user");
    assert_eq!(imported.proxy.password, "current-proxy-secret");
    assert_eq!(provider.api_key.as_deref(), Some("current-api-key"));
}

#[test]
fn restore_sensitive_settings_drops_keys_of_unknown_providers() {
    let imported = restore_sensitive_settings(settings_with_sensitive_data(), &empty_settings());
    assert_eq!(provider_of(&imported, "openai").api_key, None);
    assert_eq!(imported.mcp_servers[0].login.as_deref(), Some("admin"));
    assert_eq!(imported.proxy.username, "");
}

#[test]
fn restore_profile_secrets_preserves_existing_profile_keys() {
    let imported_store = sanitize_profiles_for_export(profile_store_with_sensitive_data());
    let current_store = ProfileStore {
        profiles: vec![LLMProfile {
            api_key_encrypted: "current-profile-key".to_string(),
            ..profile_store_with_sensitive_data().profiles[0].clone()
        }],
        active_profile_id: "profile-1".to_string(),
    };

    let restored = restore_profile_secrets(imported_store, &current_store);
    let restored_profile = restored
        .profiles
        .iter()
        .find(|profile| profile.id == "profile-1")
        .unwrap();
    let untouched_profile = restored
        .profiles
        .iter()
        .find(|profile| profile.id == "profile-2")
        .unwrap();

    assert_eq!(restored_profile.api_key_encrypted, "current-profile-key");
    assert_eq!(untouched_profile.api_key_encrypted, "");
    assert_eq!(restored.active_profile_id, "profile-2");
}

#[test]
fn restore_profile_secrets_fills_empty_import_with_default_profile() {
    let empty = ProfileStore {
        profiles: Vec::new(),
        active_profile_id: "missing".to_string(),
    };
    let restored = restore_profile_secrets(empty, &profile_store_with_sensitive_data());
    assert_eq!(restored.profiles.len(), 1);
    assert_eq!(restored.profiles[0].id, "default");
    assert_eq!(restored.active_profile_id, "default");

    let mut dangling = profile_store_with_sensitive_data();
    dangling.active_profile_id = "nope".to_string();
    let restored = restore_profile_secrets(dangling, &profile_store_with_sensitive_data());
    assert_eq!(restored.active_profile_id, "profile-1");
}

#[test]
fn export_bundle_contains_settings_and_profiles() {
    let store = ProfileStore {
        profiles: vec![LLMProfile::default_profile()],
        active_profile_id: "default".to_string(),
    };
    let bundle = build_export_bundle(empty_settings(), store);

    assert_eq!(bundle.format_version, SETTINGS_EXPORT_FORMAT_VERSION);
    assert!(!bundle.llm_profiles.profiles.is_empty());
}

#[test]
fn export_bundle_sanitizes_and_syncs_active_profile() {
    let bundle = build_export_bundle(settings_with_sensitive_data(), profile_store_with_sensitive_data());
    assert_eq!(bundle.settings.active_llm_profile, "profile-2");
    assert_eq!(bundle.settings.proxy.password, "");
    assert!(bundle
        .llm_profiles
        .profiles
        .iter()
        .all(|p| p.api_key_encrypted.is_empty()));
}

#[test]
fn import_round_trip_restores_every_secret() {
    let current = settings_with_sensitive_data();
    let profiles = profile_store_with_sensitive_data();
    let bundle = build_export_bundle(current.clone(), profiles.clone());
    let (settings, restored) = merge_imported_bundle(bundle, &current, &profiles);
    assert_eq!(settings.mcp_servers[0].password.as_deref(), Some("hunter2"));
    assert_eq!(provider_of(&settings, "openai").api_key.as_deref(), Some("super-secret-key"));
    assert_eq!(settings.proxy.password, "proxy-secret");
    assert_eq!(restored.profiles[0].api_key_encrypted, "encrypted-secret");
    assert_eq!(restored.profiles[1].api_key_encrypted, "encrypted-qwen-secret");
    assert_eq!(settings.active_llm_profile, "profile-2");
}

#[test]
fn export_result_reports_status() {
    let saved = ExportSettingsResult::saved("/tmp/x.json".to_string());
    assert_eq!(saved.status, SettingsTransferStatus::Saved);
    assert_eq!(saved.path.as_deref(), Some("/tmp/x.json"));
    let cancelled = ExportSettingsResult::cancelled();
    assert_eq!(cancelled.status, SettingsTransferStatus::Cancelled);
    assert!(cancelled.path.is_none());
}

#[test]
fn chat_export_file_name_uses_suggested_name_and_sanitizes_it() {
    let file_name = build_chat_export_file_name(Some(
        "  тест: связи / demo? 2026-04-09 12-30.md  ".to_string(),
    ));

    assert_eq!(file_name, "тест связи demo 2026-04-09 12-30.md");
}

#[test]
fn chat_export_file_name_adds_md_extension_when_missing() {
    let file_name = build_chat_export_file_name(Some("Отчет по чату".to_string()));

    assert_eq!(file_name, "Отчет по чату.md");
}

#[test]
fn chat_export_file_name_falls_back_to_default_for_empty_input() {
    let file_name = build_chat_export_file_name(Some("   .md   ".to_string()));

    assert!(file_name.starts_with("chat-"));
    assert!(file_name.ends_with(".md"));
}

#[test]
fn chat_export_file_name_keeps_txt_and_truncates_long_stems() {
    assert_eq!(
        chat_export_file_name_with_fallback(Some("notes.TXT".to_string()), "fb.md".to_string()),
        "notes.txt"
    );
    assert_eq!(
        chat_export_file_name_with_fallback(Some("a.b.pdf".to_string()), "fb.md".to_string()),
        "a.b.pdf.md"
    );
    assert_eq!(
        chat_export_file_name_with_fallback(None, "fb.md".to_string()),
        "fb.md"
    );
    let long = "x".repeat(100);
    assert_eq!(sanitize_chat_export_stem(&long).chars().count(), 80);
    assert_eq!(sanitize_chat_export_stem(" ..a<>b.. "), "a b");
}
