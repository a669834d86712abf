use titan_core::control::{
    configuration_errors, env_token_value, expected_bearer_token, hunter_identity_or_default, is_authorized,
    minimum_agents_or_default, parse_count, parse_csv_list, parse_port, port_or_default,
    secure_token_eq, strict_startup_enabled,
};
use titan_core::control::{command_rejection_for, relay_rejection_for, CommandRejection};
use titan_core::{HunterConfig, RuntimeConfig, Vulnerability, VulnerabilityLevel};

#[test]
fn bearer_token_parsing_accepts_standard_bearer_header() {
    let header = format!("{} {}", "Bearer", "operator-token");
    assert_eq!(expected_bearer_token(Some(&header)), Some("operator-token".to_string()));
}

#[test]
fn bearer_token_parsing_accepts_case_insensitive_scheme_and_extra_spaces() {
    assert_eq!(
        expected_bearer_token(Some("   bearer    ingest-token   ")),
        Some("ingest-token".to_string())
    );
}

#[test]
fn bearer_token_parsing_rejects_missing_or_empty_token() {
    assert_eq!(expected_bearer_token(Some("Bearer   ")), None);
}

#[test]
fn bearer_token_parsing_rejects_non_bearer_scheme() {
    assert_eq!(expected_bearer_token(Some("Basic abc123")), None);
}

#[test]
fn secure_token_comparison_matches_identical_tokens_only() {
    assert!(secure_token_eq("same-token", "same-token"));
    assert!(!secure_token_eq("same-token", "different-token"));
    assert!(!secure_token_eq("same-token", "same-token-extra"));
}

#[test]
fn authorization_requires_matching_expected_bearer_token() {
    let header = format!("{} {}", "Bearer", "secret-token");
    assert!(is_authorized(Some(&header), Some("secret-token")));
    assert!(!is_authorized(Some(&header), Some("other-token")));
    assert!(!is_authorized(Some(&header), None));
}

#[test]
fn missing_authorization_header_is_never_authorized() {
    assert_eq!(expected_bearer_token(None), None);
    assert!(!is_authorized(None, Some("secret-token")));
}

#[test]
fn bearer_scheme_alone_has_no_token() {
    assert_eq!(expected_bearer_token(Some("Bearer")), None);
    assert_eq!(expected_bearer_token(Some("")), None);
    assert_eq!(expected_bearer_token(Some("BEARER\ttab-token")), Some("tab-token".to_string()));
    assert_eq!(expected_bearer_token(Some("Bearer a b")), Some("a b".to_string()));
}

#[test]
fn secure_token_comparison_of_empty_and_unicode_tokens() {
    assert!(secure_token_eq("", ""));
    assert!(!secure_token_eq("", "x"));
    assert!(secure_token_eq("tökén", "tökén"));
    assert!(!secure_token_eq("tökén", "token"));
}

#[test]
fn env_values_are_trimmed_and_blank_ones_dropped() {
    assert_eq!(env_token_value("  secret \n"), Some("secret".to_string()));
    assert_eq!(env_token_value("   "), None);
    assert_eq!(env_token_value(""), None);
}

#[test]
fn strict_startup_accepts_the_listed_words_only() {
    for yes in ["1", "true", "TRUE", "yes", " YES "] {
        assert!(strict_startup_enabled(Some(yes)), "{yes}");
    }
    for no in ["0", "True", "y", "", "on"] {
        assert!(!strict_startup_enabled(Some(no)), "{no}");
    }
    assert!(!strict_startup_enabled(None));
}

#[test]
fn csv_lists_are_trimmed_and_blank_items_dropped() {
    assert_eq!(parse_csv_list(" a, b ,,c ,"), vec!["a", "b", "c"]);
    assert!(parse_csv_list("").is_empty());
    assert!(parse_csv_list(" , ").is_empty());
}

#[test]
fn numbers_are_read_as_str_parse_reads_them() {
    assert_eq!(parse_port("8081"), Some(8081));
    assert_eq!(parse_port("+80"), Some(80));
    assert_eq!(parse_port("65535"), Some(65535));
    assert_eq!(parse_port("65536"), None);
    assert_eq!(parse_port(" 80"), None);
    assert_eq!(parse_port("-1"), None);
    assert_eq!(parse_port("+"), None);
    assert_eq!(parse_port(""), None);
    assert_eq!(parse_count("007"), Some(7));
    assert_eq!(parse_count("12x"), None);
    for text in ["0", "42", "+9", "99999999999999999999", "1_000", "a"] {
        assert_eq!(parse_count(text), text.parse::<usize>().ok(), "{text}");
        assert_eq!(parse_port(text), text.parse::<u16>().ok(), "{text}");
    }
}

#[test]
fn defaults_apply_when_values_do_not_parse() {
    assert_eq!(port_or_default(None), 8080);
    assert_eq!(port_or_default(Some("nope")), 8080);
    assert_eq!(port_or_default(Some("3000")), 3000);
    assert_eq!(minimum_agents_or_default(None), 2);
    assert_eq!(minimum_agents_or_default(Some("5")), 5);
    assert_eq!(minimum_agents_or_default(Some("five")), 2);
}

#[test]
fn configuration_errors_list_every_missing_setting_in_order() {
    let config = HunterConfig {
        hunter_identity: "  ".into(),
        allowed_guilds: vec![],
        allowed_channels: vec![],
        minimum_active_agents: 2,
    };
    let runtime = RuntimeConfig {
        operator_api_token: None,
        discord_bot_token: None,
        discord_ingest_token: None,
        monitor_state_path: None,
        strict_startup: false,
    };
    assert_eq!(
        configuration_errors(&config, &runtime),
        vec![
            "HUNTER_IDENTITY is not configured.",
            "DISCORD_BOT_TOKEN is not configured.",
            "OPERATOR_API_TOKEN is not configured.",
            "DISCORD_INGEST_TOKEN is not configured.",
        ]
    );
    let configured = HunterConfig { hunter_identity: "hunter-prime".into(), ..config };
    let complete = RuntimeConfig {
        operator_api_token: Some("op".into()),
        discord_bot_token: Some("bot".into()),
        discord_ingest_token: Some("ingest".into()),
        ..runtime
    };
    assert!(configuration_errors(&configured, &complete).is_empty());
}

fn finding(code: &str) -> Vulnerability {
    Vulnerability::new(code, "description", VulnerabilityLevel::High)
}

#[test]
fn refused_commands_are_answered_by_their_findings() {
    assert_eq!(command_rejection_for(&vec![]), CommandRejection::NotFound);
    assert_eq!(
        command_rejection_for(&vec![finding("empty_message"), finding("channel_not_allowlisted")]),
        CommandRejection::Forbidden
    );
    assert_eq!(command_rejection_for(&vec![finding("message_too_large")]), CommandRejection::BadRequest);
    assert_eq!(command_rejection_for(&vec![finding("allowlist")]), CommandRejection::BadRequest);
}

#[test]
fn refused_relays_are_not_found_or_bad_requests() {
    assert_eq!(relay_rejection_for(&vec![]), CommandRejection::NotFound);
    assert_eq!(relay_rejection_for(&vec![finding("guild_not_allowlisted")]), CommandRejection::BadRequest);
}

#[test]
fn hunter_identity_defaults_when_unset_or_blank() {
    assert_eq!(hunter_identity_or_default(None), "hunter-prime");
    assert_eq!(hunter_identity_or_default(Some("   ")), "hunter-prime");
    assert_eq!(hunter_identity_or_default(Some(" scout ")), "scout");
}
