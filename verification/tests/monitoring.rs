use titan_core::{
    AgentHeartbeat, AgentRole, MonitorConfig, MonitorService, OperatorReleaseRequest, Stablecoin,
    TransactionIntakeRequest, TransactionState,
};

fn config(approved: &[&str], minimum_active_agents: usize) -> MonitorConfig {
    MonitorConfig {
        safe_wallet: "safe-wallet".into(),
        approved_destinations: approved.iter().map(|d| d.to_string()).collect(),
        minimum_active_agents,
    }
}

fn heartbeat(name: &str, role: AgentRole) -> AgentHeartbeat {
    AgentHeartbeat { agent_name: name.into(), role }
}

fn intake(id: Option<&str>, asset: Stablecoin, amount_cents: u64, source: &str, destination: &str) -> TransactionIntakeRequest {
    TransactionIntakeRequest {
        transaction_id: id.map(|i| i.to_string()),
        asset,
        amount_cents,
        source_wallet: source.into(),
        destination_wallet: destination.into(),
    }
}

#[test]
fn intake_places_transaction_on_hold_in_safe_wallet() {
    let mut service = MonitorService::new(MonitorConfig {
        safe_wallet: "safe-wallet".into(),
        approved_destinations: vec!["customer-wallet".into()],
        minimum_active_agents: 2,
    });
    service.register_or_update_agent(AgentHeartbeat {
        agent_name: "agent-a".into(),
        role: AgentRole::Intake,
    });
    service.register_or_update_agent(AgentHeartbeat {
        agent_name: "agent-b".into(),
        role: AgentRole::RiskReview,
    });

    let alert = service.ingest(TransactionIntakeRequest {
        transaction_id: Some("tx-1".into()),
        asset: Stablecoin::Usdc,
        amount_cents: 1_500,
        source_wallet: "source-wallet".into(),
        destination_wallet: "customer-wallet".into(),
    });

    assert!(alert.requires_operator_review);
    assert_eq!(service.alerts().len(), 1);
    let held = service.held_transactions();
    assert_eq!(held.len(), 1);
    assert_eq!(held[0].safe_wallet, "safe-wallet");
}

#[test]
fn usdc_transactions_are_always_high_alert() {
    let mut service = MonitorService::new(MonitorConfig {
        safe_wallet: "safe-wallet".into(),
        approved_destinations: vec!["approved-wallet".into()],
        minimum_active_agents: 1,
    });

    let alert = service.ingest(TransactionIntakeRequest {
        transaction_id: Some("tx-usdc".into()),
        asset: Stablecoin::Usdc,
        amount_cents: 10_000,
        source_wallet: "source-wallet".into(),
        destination_wallet: "approved-wallet".into(),
    });

    assert!(alert.requires_operator_review);
    assert!(alert
        .findings
        .iter()
        .any(|finding| finding.code == "usdc_high_alert"));
}

#[test]
fn unsupported_destination_creates_alert() {
    let mut service = MonitorService::new(MonitorConfig {
        safe_wallet: "safe-wallet".into(),
        approved_destinations: vec!["approved-wallet".into()],
        minimum_active_agents: 1,
    });

    let alert = service.ingest(TransactionIntakeRequest {
        transaction_id: Some("tx-2".into()),
        asset: Stablecoin::Usdt,
        amount_cents: 25_000_000,
        source_wallet: "source-wallet".into(),
        destination_wallet: "unknown-wallet".into(),
    });

    assert!(alert.requires_operator_review);
    assert_eq!(service.alerts().len(), 1);
}

#[test]
fn readiness_requires_minimum_healthy_agents() {
    let mut service = MonitorService::new(MonitorConfig {
        safe_wallet: "safe-wallet".into(),
        approved_destinations: vec![],
        minimum_active_agents: 2,
    });

    service.register_or_update_agent(AgentHeartbeat {
        agent_name: "agent-a".into(),
        role: AgentRole::Intake,
    });
    service.register_or_update_agent(AgentHeartbeat {
        agent_name: "agent-b".into(),
        role: AgentRole::RiskReview,
    });

    assert!(service.is_ready());
    assert!(service.mark_agent_failure("agent-a"));
    assert!(service.mark_agent_failure("agent-a"));
    assert!(service.mark_agent_failure("agent-a"));
    assert!(!service.is_ready());
}

#[test]
fn snapshot_round_trip_preserves_transactions() {
    let mut service = MonitorService::new(MonitorConfig {
        safe_wallet: "safe-wallet".into(),
        approved_destinations: vec!["approved-wallet".into()],
        minimum_active_agents: 1,
    });
    service.register_or_update_agent(AgentHeartbeat {
        agent_name: "agent-a".into(),
        role: AgentRole::Intake,
    });
    service.ingest(TransactionIntakeRequest {
        transaction_id: Some("tx-3".into()),
        asset: Stablecoin::Usdc,
        amount_cents: 5_000,
        source_wallet: "source-wallet".into(),
        destination_wallet: "approved-wallet".into(),
    });

    let restored = MonitorService::from_snapshot(service.snapshot());

    assert_eq!(restored.held_transactions().len(), 1);
    assert_eq!(restored.active_agents(), 1);
}

#[test]
fn approved_usdt_intake_needs_no_review() {
    let mut service = MonitorService::new(config(&["approved-wallet"], 1));
    let alert = service.ingest(intake(Some("tx-clean"), Stablecoin::Usdt, 700, "src", "approved-wallet"));
    assert!(!alert.requires_operator_review);
    assert!(alert.findings.is_empty());
    assert!(service.alerts().is_empty());
    let held = service.held_transactions();
    assert_eq!(held.len(), 1);
    assert_eq!(held[0].state, TransactionState::Held);
    assert_eq!(
        held[0].hold_reason,
        "Automatic temporary hold pending operator-supervised release."
    );
}

#[test]
fn findings_come_in_usdc_then_destination_order() {
    let mut service = MonitorService::new(config(&[], 1));
    let alert = service.ingest(intake(Some("tx-both"), Stablecoin::Usdc, 1, "src", "anywhere"));
    let codes: Vec<&str> = alert.findings.iter().map(|f| f.code.as_str()).collect();
    assert_eq!(codes, vec!["usdc_high_alert", "unapproved_destination"]);
}

#[test]
fn generated_id_strips_spaces_and_counts_the_queue() {
    let mut service = MonitorService::new(config(&["dest"], 1));
    let first = service.ingest(intake(None, Stablecoin::Usdt, 1, "my source wallet", "dest"));
    assert_eq!(first.transaction_id, "mysourcewallet-1");
    let second = service.ingest(intake(None, Stablecoin::Usdt, 1, " a b ", "dest"));
    assert_eq!(second.transaction_id, "ab-2");
    assert_eq!(service.status().queued_transactions, 2);
}

#[test]
fn ingest_at_stamps_the_given_time() {
    let mut service = MonitorService::new(config(&["dest"], 1));
    service.ingest_at(intake(Some("tx-t"), Stablecoin::Usdt, 9, "src", "dest"), 1_234_567);
    let held = service.held_transactions();
    assert_eq!(held[0].created_at_epoch_ms, 1_234_567);
}

#[test]
fn ingesting_a_known_id_replaces_the_transaction() {
    let mut service = MonitorService::new(config(&["dest"], 1));
    service.ingest_at(intake(Some("tx"), Stablecoin::Usdt, 1, "src", "dest"), 1);
    service.release("tx", OperatorReleaseRequest { operator_id: "op".into(), note: None });
    service.ingest_at(intake(Some("tx"), Stablecoin::Usdt, 2, "src", "dest"), 2);
    let status = service.status();
    assert_eq!(status.queued_transactions, 1);
    assert_eq!(status.held_transactions, 1);
    assert_eq!(status.released_transactions, 0);
    assert_eq!(service.held_transactions()[0].amount_cents, 2);
}

#[test]
fn release_records_the_operator_and_note() {
    let mut service = MonitorService::new(config(&["dest"], 1));
    service.ingest(intake(Some("tx-r"), Stablecoin::Usdt, 42, "src", "dest"));
    let released = service
        .release(
            "tx-r",
            OperatorReleaseRequest { operator_id: "operator-1".into(), note: Some("checked".into()) },
        )
        .expect("known transaction");
    assert_eq!(released.state, TransactionState::Released);
    assert_eq!(released.released_by.as_deref(), Some("operator-1"));
    assert_eq!(released.release_note.as_deref(), Some("checked"));
    assert!(service.held_transactions().is_empty());
    let status = service.status();
    assert_eq!(status.released_transactions, 1);
    assert_eq!(status.held_transactions, 0);
    assert_eq!(status.last_release_operator.as_deref(), Some("operator-1"));
}

#[test]
fn release_of_unknown_transaction_changes_nothing() {
    let mut service = MonitorService::new(config(&["dest"], 1));
    service.ingest(intake(Some("tx-k"), Stablecoin::Usdt, 1, "src", "dest"));
    let before = service.snapshot();
    let result = service.release("missing", OperatorReleaseRequest { operator_id: "op".into(), note: None });
    assert!(result.is_none());
    assert_eq!(service.snapshot(), before);
}

#[test]
fn failure_of_unknown_agent_is_reported() {
    let mut service = MonitorService::new(config(&[], 0));
    assert!(!service.mark_agent_failure("ghost"));
    assert_eq!(service.active_agents(), 0);
}

#[test]
fn heartbeat_recovers_a_failed_agent() {
    let mut service = MonitorService::new(config(&[], 1));
    service.register_or_update_agent(heartbeat("agent-a", AgentRole::Intake));
    for _ in 0..3 {
        assert!(service.mark_agent_failure("agent-a"));
    }
    assert_eq!(service.active_agents(), 0);
    assert!(!service.is_ready());
    service.register_or_update_agent(heartbeat("agent-a", AgentRole::ReleaseCoordinator));
    assert_eq!(service.active_agents(), 1);
    assert!(service.is_ready());
    let snapshot = service.snapshot();
    assert_eq!(snapshot.agents.len(), 1);
    assert_eq!(snapshot.agents[0].role, AgentRole::ReleaseCoordinator);
    assert_eq!(snapshot.agents[0].consecutive_failures, 0);
}

#[test]
fn blank_safe_wallet_is_never_ready() {
    let mut service = MonitorService::new(MonitorConfig {
        safe_wallet: " \t ".into(),
        approved_destinations: vec![],
        minimum_active_agents: 0,
    });
    service.register_or_update_agent(heartbeat("agent-a", AgentRole::Intake));
    assert!(!service.is_ready());
    let status = service.status();
    assert!(!status.safe_wallet_configured);
    assert!(!status.ready);
    assert_eq!(status.active_agents, 1);
}

#[test]
fn snapshot_round_trip_restores_everything() {
    let mut service = MonitorService::new(config(&["dest"], 1));
    service.register_or_update_agent(heartbeat("agent-a", AgentRole::Intake));
    service.register_or_update_agent(heartbeat("agent-b", AgentRole::RiskReview));
    service.mark_agent_failure("agent-b");
    service.ingest(intake(Some("tx-1"), Stablecoin::Usdc, 1, "src", "dest"));
    service.ingest(intake(Some("tx-2"), Stablecoin::Usdt, 2, "src", "dest"));
    service.release("tx-2", OperatorReleaseRequest { operator_id: "op".into(), note: None });
    let snapshot = service.snapshot();
    let restored = MonitorService::from_snapshot(snapshot.clone());
    assert_eq!(restored.snapshot(), snapshot);
    assert_eq!(restored.status(), service.status());
}

#[test]
fn snapshot_with_repeated_keys_keeps_the_last_entry() {
    let mut service = MonitorService::new(config(&["dest"], 1));
    service.register_or_update_agent(heartbeat("agent-a", AgentRole::Intake));
    let mut snapshot = service.snapshot();
    let mut again = snapshot.agents[0].clone();
    again.role = AgentRole::RiskReview;
    snapshot.agents.push(again);
    let restored = MonitorService::from_snapshot(snapshot);
    let agents = restored.snapshot().agents;
    assert_eq!(agents.len(), 1);
    assert_eq!(agents[0].role, AgentRole::RiskReview);
}

#[test]
fn replace_config_switches_the_allowlist() {
    let mut service = MonitorService::new(config(&[], 1));
    service.replace_config(config(&["new-dest"], 1));
    let alert = service.ingest(intake(Some("tx"), Stablecoin::Usdt, 1, "src", "new-dest"));
    assert!(!alert.requires_operator_review);
}

#[test]
fn ingest_stamps_the_system_clock() {
    let mut service = MonitorService::new(config(&["dest"], 1));
    service.ingest(intake(Some("tx-now"), Stablecoin::Usdt, 1, "src", "dest"));
    let held = service.held_transactions();
    // 2020-01-01T00:00:00Z in milliseconds since the epoch.
    assert!(held[0].created_at_epoch_ms > 1_577_836_800_000);
}
