use titan_core::{AgentRole, AutonomousAgent};

#[test]
fn new_agent_is_active_and_healthy() {
    let agent = AutonomousAgent::new("agent".to_string(), AgentRole::Intake);
    assert!(agent.active);
    assert_eq!(agent.consecutive_failures, 0);
    assert!(agent.is_healthy());
}

#[test]
fn three_failures_deactivate_an_agent() {
    let mut agent = AutonomousAgent::new("agent".to_string(), AgentRole::RiskReview);
    agent.mark_failure();
    agent.mark_failure();
    assert!(agent.active);
    assert!(agent.is_healthy());
    agent.mark_failure();
    assert!(!agent.active);
    assert_eq!(agent.consecutive_failures, 3);
    assert!(!agent.is_healthy());
}

#[test]
fn failure_counter_saturates() {
    let mut agent = AutonomousAgent::new("agent".to_string(), AgentRole::Intake);
    agent.consecutive_failures = u32::MAX;
    agent.mark_failure();
    assert_eq!(agent.consecutive_failures, u32::MAX);
    assert!(!agent.active);
}

#[test]
fn recover_restores_health() {
    let mut agent = AutonomousAgent::new("agent".to_string(), AgentRole::ReleaseCoordinator);
    for _ in 0..5 {
        agent.mark_failure();
    }
    agent.recover();
    assert!(agent.active);
    assert_eq!(agent.consecutive_failures, 0);
    assert!(agent.is_healthy());
}

#[test]
fn active_agent_over_threshold_is_unhealthy() {
    let mut agent = AutonomousAgent::new("agent".to_string(), AgentRole::Intake);
    agent.consecutive_failures = 3;
    assert!(agent.active);
    assert!(!agent.is_healthy());
}
