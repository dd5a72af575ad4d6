use openclaw_launcher::environment::filtered_openclaw_env;
use openclaw_launcher::registry::{
    is_default_npm_registry, is_known_domestic_npm_registry, normalize_registry,
    resolve_openclaw_install_registry, DEFAULT_NPM_REGISTRY, TEMPORARY_CHINA_NPM_REGISTRY,
};

#[test]
fn filtered_openclaw_env_preserves_remote_provider_keys_without_local_injection() {
    let env = vec![
        ("OPENAI_API_KEY".to_string(), "openai-key".to_string()),
        ("ANTHROPIC_API_KEY".to_string(), "anthropic-key".to_string()),
        ("PATH".to_string(), "C:\\bin".to_string()),
    ];

    assert_eq!(filtered_openclaw_env(env.clone(), false), env);
}

#[test]
fn filtered_openclaw_env_removes_remote_provider_keys_for_local_injection() {
    let filtered = filtered_openclaw_env(
        vec![
            ("OPENAI_API_KEY".to_string(), "openai-key".to_string()),
            ("ANTHROPIC_API_KEY".to_string(), "anthropic-key".to_string()),
            ("PATH".to_string(), "C:\\bin".to_string()),
        ],
        true,
    );

    assert_eq!(filtered, vec![("PATH".to_string(), "C:\\bin".to_string())]);
}

#[test]
fn resolve_openclaw_install_registry_uses_temporary_mirror_for_default_npm_registry() {
    let decision = resolve_openclaw_install_registry(Some("https://registry.npmjs.org/"));

    assert_eq!(decision.as_deref(), Some(TEMPORARY_CHINA_NPM_REGISTRY));
}

#[test]
fn resolve_openclaw_install_registry_keeps_existing_domestic_registry() {
    assert_eq!(
        resolve_openclaw_install_registry(Some("https://registry.npmmirror.com/")),
        None
    );
    assert_eq!(
        resolve_openclaw_install_registry(Some("https://registry.npm.taobao.org")),
        None
    );
}

#[test]
fn resolve_openclaw_install_registry_keeps_custom_non_default_registry() {
    let decision = resolve_openclaw_install_registry(Some("https://packages.example.com/npm"));

    assert_eq!(decision, None);
}

#[test]
fn resolve_openclaw_install_registry_uses_temporary_mirror_when_registry_is_empty() {
    let decision = resolve_openclaw_install_registry(Some("   "));

    assert_eq!(decision.as_deref(), Some(TEMPORARY_CHINA_NPM_REGISTRY));
}

#[test]
fn resolve_openclaw_install_registry_uses_temporary_mirror_when_registry_is_unavailable() {
    let decision = resolve_openclaw_install_registry(None);

    assert_eq!(decision.as_deref(), Some(TEMPORARY_CHINA_NPM_REGISTRY));
}

#[test]
fn every_remote_provider_key_is_filtered_and_order_is_kept() {
    let keys = [
        "ANTHROPIC_API_KEY",
        "ANTHROPIC_OAUTH_TOKEN",
        "OPENAI_API_KEY",
        "GEMINI_API_KEY",
        "MISTRAL_API_KEY",
        "GROQ_API_KEY",
        "XAI_API_KEY",
        "OPENROUTER_API_KEY",
    ];
    let mut env = vec![("HOME".to_string(), "/home/u".to_string())];
    for key in keys {
        env.push((key.to_string(), "secret".to_string()));
    }
    env.push(("openai_api_key".to_string(), "lower case is another name".to_string()));
    env.push(("PATH".to_string(), "/bin".to_string()));

    let filtered = filtered_openclaw_env(env, true);
    assert_eq!(
        filtered,
        vec![
            ("HOME".to_string(), "/home/u".to_string()),
            ("openai_api_key".to_string(), "lower case is another name".to_string()),
            ("PATH".to_string(), "/bin".to_string()),
        ]
    );
    assert_eq!(filtered_openclaw_env(filtered.clone(), true), filtered);
    assert_eq!(filtered_openclaw_env(Vec::new(), true), Vec::new());
}

#[test]
fn registry_is_normalized() {
    assert_eq!(normalize_registry("  HTTPS://Registry.NPMJS.org///\n"), DEFAULT_NPM_REGISTRY);
    assert_eq!(normalize_registry("\u{3000}/ /"), "/ ");
    assert_eq!(normalize_registry("///"), "");
    assert_eq!(normalize_registry("ÄB/"), "Äb");
}

#[test]
fn registry_decision_ignores_case_space_and_trailing_slash() {
    for address in [
        "http://registry.npmjs.org",
        " http://REGISTRY.npmjs.org",
        "https://registry.npmjs.org//",
        "\thttps://registry.npmjs.ORG/ ",
    ] {
        assert_eq!(
            resolve_openclaw_install_registry(Some(address)),
            Some(TEMPORARY_CHINA_NPM_REGISTRY)
        );
    }
}

#[test]
fn mirror_is_not_replaced_again() {
    assert_eq!(resolve_openclaw_install_registry(Some(TEMPORARY_CHINA_NPM_REGISTRY)), None);
}

#[test]
fn default_and_domestic_registries_are_told_apart() {
    assert!(is_default_npm_registry(""));
    assert!(is_default_npm_registry("https://registry.npmjs.org"));
    assert!(is_default_npm_registry("http://registry.npmjs.org"));
    assert!(!is_default_npm_registry("https://registry.npmjs.org/"));
    assert!(!is_default_npm_registry("https://registry.npmjs.com"));
    assert!(is_known_domestic_npm_registry("https://registry.npmmirror.com"));
    assert!(is_known_domestic_npm_registry("http://registry.npm.taobao.org/x"));
    assert!(is_known_domestic_npm_registry("registry.cnpmjs.org"));
    assert!(!is_known_domestic_npm_registry("https://registry.npmjs.org"));
    assert!(!is_known_domestic_npm_registry(""));
}
