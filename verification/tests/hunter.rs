use titan_core::hunter::{parse_agent_definitions, parse_capability, parse_kind};
use titan_core::{AgentCapability, AgentKind};

#[test]
fn kinds_are_matched_without_case_and_default_to_hunter() {
    assert_eq!(parse_kind(" Strategist "), AgentKind::Strategist);
    assert_eq!(parse_kind("RESEARCHER"), AgentKind::Researcher);
    assert_eq!(parse_kind("builder"), AgentKind::Builder);
    assert_eq!(parse_kind("sentinel"), AgentKind::Sentinel);
    assert_eq!(parse_kind("hunter"), AgentKind::Hunter);
    assert_eq!(parse_kind("pilot"), AgentKind::Hunter);
}

#[test]
fn capabilities_are_matched_without_case() {
    assert_eq!(parse_capability("session_intake"), Some(AgentCapability::SessionIntake));
    assert_eq!(parse_capability(" Message_Relay "), Some(AgentCapability::MessageRelay));
    assert_eq!(parse_capability("task_execution"), Some(AgentCapability::TaskExecution));
    assert_eq!(parse_capability("knowledge_retrieval"), Some(AgentCapability::KnowledgeRetrieval));
    assert_eq!(parse_capability("moderation"), Some(AgentCapability::Moderation));
    assert_eq!(parse_capability("flying"), None);
}

#[test]
fn default_definitions_declare_three_clones() {
    let clones = parse_agent_definitions(
        "hunter-prime:hunter:session_intake|message_relay;strategist-1:strategist:knowledge_retrieval;builder-1:builder:task_execution",
    );
    assert_eq!(clones.len(), 3);
    assert_eq!(clones[0].name, "hunter-prime");
    assert_eq!(clones[0].kind, AgentKind::Hunter);
    assert_eq!(
        clones[0].capabilities,
        vec![AgentCapability::SessionIntake, AgentCapability::MessageRelay]
    );
    assert_eq!(clones[1].name, "strategist-1");
    assert_eq!(clones[1].kind, AgentKind::Strategist);
    assert_eq!(clones[1].capabilities, vec![AgentCapability::KnowledgeRetrieval]);
    assert_eq!(clones[2].kind, AgentKind::Builder);
    assert_eq!(clones[2].assigned_session_id, None);
}

#[test]
fn malformed_definitions_are_skipped_or_defaulted() {
    let clones = parse_agent_definitions(" ; :builder ; solo ; scout:sentinel:bogus|moderation ;");
    assert_eq!(clones.len(), 2);
    assert_eq!(clones[0].name, "solo");
    assert_eq!(clones[0].kind, AgentKind::Hunter);
    assert!(clones[0].capabilities.is_empty());
    assert_eq!(clones[1].name, "scout");
    assert_eq!(clones[1].kind, AgentKind::Sentinel);
    assert_eq!(clones[1].capabilities, vec![AgentCapability::Moderation]);
    assert!(parse_agent_definitions("").is_empty());
}
