pub mod ai_agent;
pub mod attack_security;
pub mod clock;
pub mod control;
pub mod discord;
pub mod hunter;
pub mod keyed;
pub mod monitoring;
pub mod session;
pub mod text;
pub mod transaction;
pub mod vulnerability;

pub use ai_agent::{AgentRole, AutonomousAgent};
pub use attack_security::{CommandSafetyInspector, KeyCompromiseDetector};
pub use control::RuntimeConfig;
pub use discord::{DiscordCommandKind, DiscordCommandRequest, DiscordContext, DiscordDispatch};
pub use hunter::{AgentCapability, AgentKind, HunterClone};
pub use monitoring::MonitorService;
pub use session::{
    AssignAgentRequest, CloseSessionRequest, CommandEvent, HunterConfig, HunterSession,
    MessageAuthorKind, MessageRelayRequest, SessionCreateRequest, SessionState, TranscriptEntry,
};
pub use transaction::{
    AgentHeartbeat, AuditEvent, AuditEventKind, MonitorConfig, MonitorSnapshot, MonitorStatus,
    OperatorReleaseRequest, Stablecoin, StablecoinTransaction, TransactionAlert,
    TransactionIntakeRequest, TransactionState,
};
pub use vulnerability::{Vulnerability, VulnerabilityLevel};
