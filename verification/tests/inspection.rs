use titan_core::{
    CommandSafetyInspector, DiscordContext, HunterConfig, KeyCompromiseDetector, Stablecoin,
    StablecoinTransaction, TransactionState, VulnerabilityLevel,
};

fn context(guild: &str, channel: &str) -> DiscordContext {
    DiscordContext {
        guild_id: guild.into(),
        channel_id: channel.into(),
        thread_id: None,
        user_id: "user".into(),
        message_id: None,
    }
}

fn hunter_config(guilds: &[&str], channels: &[&str]) -> HunterConfig {
    HunterConfig {
        hunter_identity: "hunter-prime".into(),
        allowed_guilds: guilds.iter().map(|g| g.to_string()).collect(),
        allowed_channels: channels.iter().map(|c| c.to_string()).collect(),
        minimum_active_agents: 2,
    }
}

#[test]
fn empty_allowlists_admit_every_context() {
    let inspector = CommandSafetyInspector::new();
    assert!(inspector.inspect_context(&context("g", "c"), &hunter_config(&[], &[])).is_empty());
}

#[test]
fn unlisted_guild_and_channel_are_both_reported() {
    let inspector = CommandSafetyInspector::new();
    let findings = inspector.inspect_context(&context("g", "c"), &hunter_config(&["other"], &["x"]));
    assert_eq!(findings.len(), 2);
    assert_eq!(findings[0].code, "guild_not_allowlisted");
    assert_eq!(findings[0].level, VulnerabilityLevel::Critical);
    assert_eq!(findings[1].code, "channel_not_allowlisted");
    assert_eq!(findings[1].level, VulnerabilityLevel::High);
}

#[test]
fn listed_guild_with_unlisted_channel() {
    let inspector = CommandSafetyInspector::new();
    let findings = inspector.inspect_context(&context("g", "c"), &hunter_config(&["g"], &["d"]));
    assert_eq!(findings.len(), 1);
    assert_eq!(findings[0].code, "channel_not_allowlisted");
}

#[test]
fn blank_message_is_rejected() {
    let inspector = CommandSafetyInspector::new();
    let findings = inspector.inspect_message(" \n\t\u{3000} ");
    assert_eq!(findings.len(), 1);
    assert_eq!(findings[0].code, "empty_message");
    assert_eq!(findings[0].level, VulnerabilityLevel::Medium);
    assert_eq!(inspector.inspect_message("").len(), 1);
}

#[test]
fn message_size_is_counted_in_bytes() {
    let inspector = CommandSafetyInspector::new();
    assert!(inspector.inspect_message(&"a".repeat(4000)).is_empty());
    let findings = inspector.inspect_message(&"a".repeat(4001));
    assert_eq!(findings.len(), 1);
    assert_eq!(findings[0].code, "message_too_large");
    // 2000 two-byte characters make 4000 bytes; one more makes 4002.
    assert!(inspector.inspect_message(&"é".repeat(2000)).is_empty());
    assert_eq!(inspector.inspect_message(&"é".repeat(2001))[0].code, "message_too_large");
}

#[test]
fn plain_message_is_accepted() {
    let inspector = CommandSafetyInspector::new();
    assert!(inspector.inspect_message("hello hunter").is_empty());
}

fn transaction(asset: Stablecoin, destination: &str) -> StablecoinTransaction {
    StablecoinTransaction {
        transaction_id: "tx".into(),
        asset,
        amount_cents: 100,
        source_wallet: "src".into(),
        destination_wallet: destination.into(),
        safe_wallet: "safe".into(),
        state: TransactionState::Held,
        hold_reason: "hold".into(),
        created_at_epoch_ms: 0,
        released_by: None,
        release_note: None,
    }
}

#[test]
fn detector_flags_usdc_and_unapproved_destinations() {
    let detector = KeyCompromiseDetector::new(vec!["approved".into()]);
    assert!(detector.inspect(&transaction(Stablecoin::Usdt, "approved")).is_empty());
    let usdc = detector.inspect(&transaction(Stablecoin::Usdc, "approved"));
    assert_eq!(usdc.len(), 1);
    assert_eq!(usdc[0].code, "usdc_high_alert");
    assert_eq!(usdc[0].level, VulnerabilityLevel::High);
    let elsewhere = detector.inspect(&transaction(Stablecoin::Usdt, "elsewhere"));
    assert_eq!(elsewhere.len(), 1);
    assert_eq!(elsewhere[0].code, "unapproved_destination");
    assert_eq!(elsewhere[0].level, VulnerabilityLevel::Critical);
}
