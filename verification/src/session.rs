use vstd::prelude::*;

use crate::discord::DiscordContext;
use crate::hunter::HunterClone;
use crate::text::texts;
use crate::vulnerability::Vulnerability;

verus! {

/// Who wrote a transcript entry.
#[derive(Clone, Copy, Debug, PartialEq, Eq, Structural)]
pub enum MessageAuthorKind {
    DiscordUser,
    HunterClone,
    TitanAgent,
    Operator,
    System,
}

/// One message of a session's transcript.
#[derive(Clone, Debug, PartialEq, Eq)]
pub struct TranscriptEntry {
    pub author: String,
    pub author_kind: MessageAuthorKind,
    pub body: String,
    pub recorded_at_epoch_ms: u128,
}

/// The life cycle of a Hunter session.
#[derive(Clone, Copy, Debug, PartialEq, Eq, Structural)]
pub enum SessionState {
    Pending,
    Active,
    WaitingForAgent,
    Closed,
}

/// A Hunter session opened from Discord.
#[derive(Clone, Debug, PartialEq, Eq)]
pub struct HunterSession {
    pub session_id: String,
    pub clone_name: String,
    pub requested_agent: Option<String>,
    pub assigned_agent: Option<String>,
    pub state: SessionState,
    pub discord_context: DiscordContext,
    pub transcript: Vec<TranscriptEntry>,
    pub findings: Vec<Vulnerability>,
    pub created_at_epoch_ms: u128,
    pub last_activity_epoch_ms: u128,
    pub closed_by: Option<String>,
    pub close_reason: Option<String>,
}

/// A request to open a session.
#[derive(Clone, Debug, PartialEq, Eq)]
pub struct SessionCreateRequest {
    pub session_id: Option<String>,
    pub clone_name: String,
    pub requested_agent: Option<String>,
    pub discord_context: DiscordContext,
    pub initial_prompt: String,
}

/// An operator's assignment of an agent to a session.
#[derive(Clone, Debug, PartialEq, Eq)]
pub struct AssignAgentRequest {
    pub agent_name: String,
    pub operator_id: String,
}

/// A message to relay into a session.
#[derive(Clone, Debug, PartialEq, Eq)]
pub struct MessageRelayRequest {
    pub author: String,
    pub author_kind: MessageAuthorKind,
    pub body: String,
}

/// An operator's request to close a session.
#[derive(Clone, Debug, PartialEq, Eq)]
pub struct CloseSessionRequest {
    pub operator_id: String,
    pub reason: Option<String>,
}

/// The Hunter relay's identity, its Discord allowlists, and its readiness threshold.
#[derive(Clone, Debug, PartialEq, Eq)]
pub struct HunterConfig {
    pub hunter_identity: String,
    pub allowed_guilds: Vec<String>,
    pub allowed_channels: Vec<String>,
    pub minimum_active_agents: usize,
}

pub struct HunterConfigView {
    pub hunter_identity: Seq<char>,
    pub allowed_guilds: Seq<Seq<char>>,
    pub allowed_channels: Seq<Seq<char>>,
    pub minimum_active_agents: usize,
}

impl View for HunterConfig {
    type V = HunterConfigView;

    open spec fn view(&self) -> HunterConfigView {
        HunterConfigView {
            hunter_identity: self.hunter_identity@,
            allowed_guilds: texts(self.allowed_guilds@),
            allowed_channels: texts(self.allowed_channels@),
            minimum_active_agents: self.minimum_active_agents,
        }
    }
}

/// The Hunter relay's status report.
#[derive(Clone, Debug, PartialEq, Eq)]
pub struct MonitorStatus {
    pub hunter_identity: String,
    pub active_agents: usize,
    pub available_agents: usize,
    pub minimum_active_agents: usize,
    pub ready: bool,
    pub discord_bot_configured: bool,
    pub tracked_sessions: usize,
    pub active_sessions: usize,
    pub closed_sessions: usize,
    pub recorded_commands: usize,
}

/// Everything the Hunter relay holds, as it is saved and restored.
#[derive(Clone, Debug, PartialEq, Eq)]
pub struct MonitorSnapshot {
    pub config: HunterConfig,
    pub agents: Vec<HunterClone>,
    pub sessions: Vec<HunterSession>,
    pub audit_events: Vec<AuditEvent>,
    pub command_events: Vec<CommandEvent>,
}

/// What a session audit event records.
#[derive(Clone, Copy, Debug, PartialEq, Eq, Structural)]
pub enum AuditEventKind {
    SessionCreated,
    SessionAssigned,
    MessageRelayed,
    SessionClosed,
    AgentFailure,
}

/// An entry of the session audit trail.
#[derive(Clone, Debug, PartialEq, Eq)]
pub struct AuditEvent {
    pub event_id: String,
    pub session_id: Option<String>,
    pub agent_name: Option<String>,
    pub kind: AuditEventKind,
    pub detail: String,
    pub recorded_at_epoch_ms: u128,
}

/// A record of one relayed Discord command and its outcome.
#[derive(Clone, Debug, PartialEq, Eq)]
pub struct CommandEvent {
    pub event_id: String,
    pub session_id: Option<String>,
    pub command_name: String,
    pub outcome: String,
    pub detail: String,
    pub recorded_at_epoch_ms: u128,
}

} // verus!
