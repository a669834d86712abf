use vstd::prelude::*;

use crate::ai_agent::{AgentRole, AgentView, AutonomousAgent};
use crate::text::{opt_text, texts};
use crate::vulnerability::{findings_view, Vulnerability, VulnerabilityView};

verus! {

/// The stablecoins that the control plane accepts.
#[derive(Clone, Copy, Debug, PartialEq, Eq, Hash, Structural)]
pub enum Stablecoin {
    Usdc,
    Usdt,
}

/// Where a transfer stands: held in the safe wallet, or released by an operator.
#[derive(Clone, Copy, Debug, PartialEq, Eq, Structural)]
pub enum TransactionState {
    Held,
    Released,
}

/// A transfer on temporary hold in the safe wallet.
#[derive(Debug, PartialEq, Eq)]
pub struct StablecoinTransaction {
    pub transaction_id: String,
    pub asset: Stablecoin,
    pub amount_cents: u64,
    pub source_wallet: String,
    pub destination_wallet: String,
    pub safe_wallet: String,
    pub state: TransactionState,
    pub hold_reason: String,
    pub created_at_epoch_ms: u128,
    pub released_by: Option<String>,
    pub release_note: Option<String>,
}

pub struct TransactionView {
    pub transaction_id: Seq<char>,
    pub asset: Stablecoin,
    pub amount_cents: u64,
    pub source_wallet: Seq<char>,
    pub destination_wallet: Seq<char>,
    pub safe_wallet: Seq<char>,
    pub state: TransactionState,
    pub hold_reason: Seq<char>,
    pub created_at_epoch_ms: u128,
    pub released_by: Option<Seq<char>>,
    pub release_note: Option<Seq<char>>,
}

impl View for StablecoinTransaction {
    type V = TransactionView;

    open spec fn view(&self) -> TransactionView {
        TransactionView {
            transaction_id: self.transaction_id@,
            asset: self.asset,
            amount_cents: self.amount_cents,
            source_wallet: self.source_wallet@,
            destination_wallet: self.destination_wallet@,
            safe_wallet: self.safe_wallet@,
            state: self.state,
            hold_reason: self.hold_reason@,
            created_at_epoch_ms: self.created_at_epoch_ms,
            released_by: opt_text(self.released_by),
            release_note: opt_text(self.release_note),
        }
    }
}

impl Clone for StablecoinTransaction {
    fn clone(&self) -> (copy: Self)
        ensures
            copy == *self,
    {
        StablecoinTransaction {
            transaction_id: self.transaction_id.clone(),
            asset: self.asset,
            amount_cents: self.amount_cents,
            source_wallet: self.source_wallet.clone(),
            destination_wallet: self.destination_wallet.clone(),
            safe_wallet: self.safe_wallet.clone(),
            state: self.state,
            hold_reason: self.hold_reason.clone(),
            created_at_epoch_ms: self.created_at_epoch_ms,
            released_by: self.released_by.clone(),
            release_note: self.release_note.clone(),
        }
    }
}

/// An authorized request to take a transfer into the safe wallet.
#[derive(Debug, PartialEq, Eq)]
pub struct TransactionIntakeRequest {
    pub transaction_id: Option<String>,
    pub asset: Stablecoin,
    pub amount_cents: u64,
    pub source_wallet: String,
    pub destination_wallet: String,
}

pub struct IntakeView {
    pub transaction_id: Option<Seq<char>>,
    pub asset: Stablecoin,
    pub amount_cents: u64,
    pub source_wallet: Seq<char>,
    pub destination_wallet: Seq<char>,
}

impl View for TransactionIntakeRequest {
    type V = IntakeView;

    open spec fn view(&self) -> IntakeView {
        IntakeView {
            transaction_id: opt_text(self.transaction_id),
            asset: self.asset,
            amount_cents: self.amount_cents,
            source_wallet: self.source_wallet@,
            destination_wallet: self.destination_wallet@,
        }
    }
}

impl Clone for TransactionIntakeRequest {
    fn clone(&self) -> (copy: Self)
        ensures
            copy == *self,
    {
        TransactionIntakeRequest {
            transaction_id: self.transaction_id.clone(),
            asset: self.asset,
            amount_cents: self.amount_cents,
            source_wallet: self.source_wallet.clone(),
            destination_wallet: self.destination_wallet.clone(),
        }
    }
}

/// An operator's approval to release a held transfer.
#[derive(Debug, PartialEq, Eq)]
pub struct OperatorReleaseRequest {
    pub operator_id: String,
    pub note: Option<String>,
}

pub struct ReleaseView {
    pub operator_id: Seq<char>,
    pub note: Option<Seq<char>>,
}

impl View for OperatorReleaseRequest {
    type V = ReleaseView;

    open spec fn view(&self) -> ReleaseView {
        ReleaseView { operator_id: self.operator_id@, note: opt_text(self.note) }
    }
}

impl Clone for OperatorReleaseRequest {
    fn clone(&self) -> (copy: Self)
        ensures
            copy == *self,
    {
        OperatorReleaseRequest { operator_id: self.operator_id.clone(), note: self.note.clone() }
    }
}

/// A liveness report from a monitor agent.
#[derive(Debug, PartialEq, Eq)]
pub struct AgentHeartbeat {
    pub agent_name: String,
    pub role: AgentRole,
}

pub struct HeartbeatView {
    pub agent_name: Seq<char>,
    pub role: AgentRole,
}

impl View for AgentHeartbeat {
    type V = HeartbeatView;

    open spec fn view(&self) -> HeartbeatView {
        HeartbeatView { agent_name: self.agent_name@, role: self.role }
    }
}

impl Clone for AgentHeartbeat {
    fn clone(&self) -> (copy: Self)
        ensures
            copy == *self,
    {
        AgentHeartbeat { agent_name: self.agent_name.clone(), role: self.role }
    }
}

/// Where held transfers go, which destinations an operator may release to, and
/// how many healthy agents readiness asks for.
#[derive(Debug, PartialEq, Eq)]
pub struct MonitorConfig {
    pub safe_wallet: String,
    pub approved_destinations: Vec<String>,
    pub minimum_active_agents: usize,
}

pub struct ConfigView {
    pub safe_wallet: Seq<char>,
    pub approved_destinations: Seq<Seq<char>>,
    pub minimum_active_agents: usize,
}

impl View for MonitorConfig {
    type V = ConfigView;

    open spec fn view(&self) -> ConfigView {
        ConfigView {
            safe_wallet: self.safe_wallet@,
            approved_destinations: texts(self.approved_destinations@),
            minimum_active_agents: self.minimum_active_agents,
        }
    }
}

impl Clone for MonitorConfig {
    fn clone(&self) -> (copy: Self)
        ensures
            copy@ == self@,
    {
        let approved_destinations = self.approved_destinations.clone();
        assert(texts(approved_destinations@) =~= texts(self.approved_destinations@));
        MonitorConfig {
            safe_wallet: self.safe_wallet.clone(),
            approved_destinations,
            minimum_active_agents: self.minimum_active_agents,
        }
    }
}

/// The outcome of an intake: the inspection's findings, and whether an operator must review.
#[derive(Debug, PartialEq, Eq)]
pub struct TransactionAlert {
    pub transaction_id: String,
    pub findings: Vec<Vulnerability>,
    pub requires_operator_review: bool,
}

pub struct AlertView {
    pub transaction_id: Seq<char>,
    pub findings: Seq<VulnerabilityView>,
    pub requires_operator_review: bool,
}

impl View for TransactionAlert {
    type V = AlertView;

    open spec fn view(&self) -> AlertView {
        AlertView {
            transaction_id: self.transaction_id@,
            findings: findings_view(self.findings@),
            requires_operator_review: self.requires_operator_review,
        }
    }
}

impl Clone for TransactionAlert {
    fn clone(&self) -> (copy: Self)
        ensures
            copy@ == self@,
    {
        let findings = self.findings.clone();
        assert(findings_view(findings@) =~= findings_view(self.findings@));
        TransactionAlert {
            transaction_id: self.transaction_id.clone(),
            findings,
            requires_operator_review: self.requires_operator_review,
        }
    }
}

/// The control plane's status report.
#[derive(Debug, PartialEq, Eq)]
pub struct MonitorStatus {
    pub safe_wallet: String,
    pub safe_wallet_configured: bool,
    pub active_agents: usize,
    pub minimum_active_agents: usize,
    pub ready: bool,
    pub queued_transactions: usize,
    pub held_transactions: usize,
    pub released_transactions: usize,
    pub last_release_operator: Option<String>,
}

pub struct StatusView {
    pub safe_wallet: Seq<char>,
    pub safe_wallet_configured: bool,
    pub active_agents: usize,
    pub minimum_active_agents: usize,
    pub ready: bool,
    pub queued_transactions: usize,
    pub held_transactions: usize,
    pub released_transactions: usize,
    pub last_release_operator: Option<Seq<char>>,
}

impl View for MonitorStatus {
    type V = StatusView;

    open spec fn view(&self) -> StatusView {
        StatusView {
            safe_wallet: self.safe_wallet@,
            safe_wallet_configured: self.safe_wallet_configured,
            active_agents: self.active_agents,
            minimum_active_agents: self.minimum_active_agents,
            ready: self.ready,
            queued_transactions: self.queued_transactions,
            held_transactions: self.held_transactions,
            released_transactions: self.released_transactions,
            last_release_operator: opt_text(self.last_release_operator),
        }
    }
}

/// What an audit event records.
#[derive(Clone, Copy, Debug, PartialEq, Eq, Structural)]
pub enum AuditEventKind {
    TransactionHeld,
    TransactionReleased,
}

/// An entry of the audit trail.
#[derive(Debug, PartialEq, Eq)]
pub struct AuditEvent {
    pub event_id: String,
    pub transaction_id: String,
    pub kind: AuditEventKind,
    pub detail: String,
    pub recorded_at_epoch_ms: u128,
}

pub struct AuditEventView {
    pub event_id: Seq<char>,
    pub transaction_id: Seq<char>,
    pub kind: AuditEventKind,
    pub detail: Seq<char>,
    pub recorded_at_epoch_ms: u128,
}

impl View for AuditEvent {
    type V = AuditEventView;

    open spec fn view(&self) -> AuditEventView {
        AuditEventView {
            event_id: self.event_id@,
            transaction_id: self.transaction_id@,
            kind: self.kind,
            detail: self.detail@,
            recorded_at_epoch_ms: self.recorded_at_epoch_ms,
        }
    }
}

impl Clone for AuditEvent {
    fn clone(&self) -> (copy: Self)
        ensures
            copy == *self,
    {
        AuditEvent {
            event_id: self.event_id.clone(),
            transaction_id: self.transaction_id.clone(),
            kind: self.kind,
            detail: self.detail.clone(),
            recorded_at_epoch_ms: self.recorded_at_epoch_ms,
        }
    }
}

/// Everything the control plane holds, as it is saved and restored.
#[derive(Debug, PartialEq, Eq)]
pub struct MonitorSnapshot {
    pub config: MonitorConfig,
    pub agents: Vec<AutonomousAgent>,
    pub transactions: Vec<StablecoinTransaction>,
    pub alerts: Vec<TransactionAlert>,
    pub audit_events: Vec<AuditEvent>,
    pub last_release_operator: Option<String>,
}

/// The state of the control plane as mathematical values.
pub struct MonitorState {
    pub config: ConfigView,
    pub agents: Seq<AgentView>,
    pub transactions: Seq<TransactionView>,
    pub alerts: Seq<AlertView>,
    pub audit_events: Seq<AuditEventView>,
    pub last_release_operator: Option<Seq<char>>,
}

pub open spec fn agents_view(v: Seq<AutonomousAgent>) -> Seq<AgentView> {
    v.map_values(|a: AutonomousAgent| a@)
}

pub open spec fn transactions_view(v: Seq<StablecoinTransaction>) -> Seq<TransactionView> {
    v.map_values(|t: StablecoinTransaction| t@)
}

pub open spec fn alerts_view(v: Seq<TransactionAlert>) -> Seq<AlertView> {
    v.map_values(|a: TransactionAlert| a@)
}

pub open spec fn audit_view(v: Seq<AuditEvent>) -> Seq<AuditEventView> {
    v.map_values(|e: AuditEvent| e@)
}

impl View for MonitorSnapshot {
    type V = MonitorState;

    open spec fn view(&self) -> MonitorState {
        MonitorState {
            config: self.config@,
            agents: agents_view(self.agents@),
            transactions: transactions_view(self.transactions@),
            alerts: alerts_view(self.alerts@),
            audit_events: audit_view(self.audit_events@),
            last_release_operator: opt_text(self.last_release_operator),
        }
    }
}

impl Clone for MonitorSnapshot {
    fn clone(&self) -> (copy: Self)
        ensures
            copy@ == self@,
    {
        let agents = self.agents.clone();
        assert(agents_view(agents@) =~= agents_view(self.agents@));
        let transactions = self.transactions.clone();
        assert(transactions_view(transactions@) =~= transactions_view(self.transactions@));
        let alerts = self.alerts.clone();
        assert(alerts_view(alerts@) =~= alerts_view(self.alerts@));
        let audit_events = self.audit_events.clone();
        assert(audit_view(audit_events@) =~= audit_view(self.audit_events@));
        MonitorSnapshot {
            config: self.config.clone(),
            agents,
            transactions,
            alerts,
            audit_events,
            last_release_operator: self.last_release_operator.clone(),
        }
    }
}

} // verus!
