use vstd::prelude::*;

use crate::ai_agent::{agent_healthy, failed_once, fresh_agent, AgentView, AutonomousAgent};
use crate::attack_security::{transaction_findings, KeyCompromiseDetector};
use crate::clock::epoch_millis_now;
use crate::keyed::{
    collect_keyed, has_key, key_index, lemma_collect_keyed_identity, lemma_collect_keyed_unique,
    lemma_key_index, lemma_update_same_key, lemma_upsert, lemma_upsert_other, unique_keys, upsert,
    Keyed,
};
use crate::text::{
    chars_of, decimal, decimal_chars, push_chars, push_without_char, texts, trim, trim_bounds,
    without_char,
};
use crate::transaction::{
    agents_view, alerts_view, audit_view, transactions_view, AgentHeartbeat, AlertView, ConfigView,
    HeartbeatView, IntakeView, MonitorConfig, MonitorSnapshot, MonitorState, MonitorStatus,
    OperatorReleaseRequest, ReleaseView, StablecoinTransaction, StatusView, TransactionAlert,
    TransactionIntakeRequest, TransactionState, TransactionView, AuditEvent,
};

verus! {

impl Keyed for AgentView {
    open spec fn key(&self) -> Seq<char> {
        self.name
    }
}

impl Keyed for TransactionView {
    open spec fn key(&self) -> Seq<char> {
        self.transaction_id
    }
}

/// The state is well formed: one agent per name and one transaction per id.
pub open spec fn monitor_wf(s: MonitorState) -> bool {
    unique_keys(s.agents) && unique_keys(s.transactions)
}

/// The state of a newly started control plane.
pub open spec fn initial_state(config: ConfigView) -> MonitorState {
    MonitorState {
        config,
        agents: Seq::empty(),
        transactions: Seq::empty(),
        alerts: Seq::empty(),
        audit_events: Seq::empty(),
        last_release_operator: None,
    }
}

/// The state restored from a snapshot: agents keyed by name and transactions
/// keyed by id, a later entry taking the place of an earlier one with the same key.
pub open spec fn restore(snapshot: MonitorState) -> MonitorState {
    MonitorState {
        agents: collect_keyed(snapshot.agents),
        transactions: collect_keyed(snapshot.transactions),
        ..snapshot
    }
}

pub open spec fn replace_config_step(s: MonitorState, config: ConfigView) -> MonitorState {
    MonitorState { config, ..s }
}

/// A heartbeat registers the agent, or refreshes it: its role is taken from the
/// heartbeat and it is recovered.
pub open spec fn register_step(s: MonitorState, heartbeat: HeartbeatView) -> MonitorState {
    MonitorState { agents: upsert(s.agents, fresh_agent(heartbeat.agent_name, heartbeat.role)), ..s }
}

/// A failure report counts against the named agent; an unknown name changes nothing.
pub open spec fn failure_step(s: MonitorState, name: Seq<char>) -> MonitorState {
    if has_key(s.agents, name) {
        let i = key_index(s.agents, name);
        MonitorState { agents: s.agents.update(i, failed_once(s.agents[i])), ..s }
    } else {
        s
    }
}

/// The reason every intake is held.
pub open spec fn hold_reason() -> Seq<char> {
    "Automatic temporary hold pending operator-supervised release."@
}

/// The id given to a request without one: the source wallet without spaces, a
/// hyphen, and the queue's size after the intake.
pub open spec fn generated_transaction_id(source_wallet: Seq<char>, position: nat) -> Seq<char> {
    without_char(source_wallet, ' ') + seq!['-'] + decimal(position)
}

pub open spec fn intake_id(s: MonitorState, request: IntakeView) -> Seq<char> {
    match request.transaction_id {
        Some(id) => id,
        None => generated_transaction_id(request.source_wallet, s.transactions.len() + 1),
    }
}

/// The transaction that an intake places on hold in the safe wallet.
pub open spec fn held_transaction(s: MonitorState, request: IntakeView, now: u128) -> TransactionView {
    TransactionView {
        transaction_id: intake_id(s, request),
        asset: request.asset,
        amount_cents: request.amount_cents,
        source_wallet: request.source_wallet,
        destination_wallet: request.destination_wallet,
        safe_wallet: s.config.safe_wallet,
        state: TransactionState::Held,
        hold_reason: hold_reason(),
        created_at_epoch_ms: now,
        released_by: None,
        release_note: None,
    }
}

/// The alert an intake answers with: the detector's findings, and review
/// whenever there is any.
pub open spec fn intake_alert(s: MonitorState, request: IntakeView, now: u128) -> AlertView {
    let findings = transaction_findings(
        s.config.approved_destinations,
        held_transaction(s, request, now),
    );
    AlertView {
        transaction_id: intake_id(s, request),
        findings,
        requires_operator_review: findings.len() > 0,
    }
}

/// An intake stores the held transaction under its id (replacing one with the
/// same id) and queues the alert when it asks for review.
pub open spec fn ingest_step(s: MonitorState, request: IntakeView, now: u128) -> MonitorState {
    let alert = intake_alert(s, request, now);
    MonitorState {
        transactions: upsert(s.transactions, held_transaction(s, request, now)),
        alerts: if alert.requires_operator_review {
            s.alerts.push(alert)
        } else {
            s.alerts
        },
        ..s
    }
}

pub open spec fn released_transaction(t: TransactionView, request: ReleaseView) -> TransactionView {
    TransactionView {
        state: TransactionState::Released,
        released_by: Some(request.operator_id),
        release_note: request.note,
        ..t
    }
}

/// A release marks the transaction released by the operator, with the
/// operator's note, and records the operator; an unknown id changes nothing.
pub open spec fn release_step(s: MonitorState, id: Seq<char>, request: ReleaseView) -> MonitorState {
    if has_key(s.transactions, id) {
        let i = key_index(s.transactions, id);
        MonitorState {
            transactions: s.transactions.update(i, released_transaction(s.transactions[i], request)),
            last_release_operator: Some(request.operator_id),
            ..s
        }
    } else {
        s
    }
}

/// What a release answers: the released transaction, or nothing for an unknown id.
pub open spec fn release_result(s: MonitorState, id: Seq<char>, request: ReleaseView) -> Option<TransactionView> {
    if has_key(s.transactions, id) {
        Some(released_transaction(s.transactions[key_index(s.transactions, id)], request))
    } else {
        None
    }
}

/// The number of healthy agents.
pub open spec fn count_healthy(agents: Seq<AgentView>) -> nat
    decreases agents.len(),
{
    if agents.len() == 0 {
        0
    } else {
        count_healthy(agents.drop_last()) + if agent_healthy(agents.last()) { 1nat } else { 0nat }
    }
}

/// The number of transactions in `state`.
pub open spec fn count_in_state(txs: Seq<TransactionView>, state: TransactionState) -> nat
    decreases txs.len(),
{
    if txs.len() == 0 {
        0
    } else {
        count_in_state(txs.drop_last(), state) + if txs.last().state == state { 1nat } else { 0nat }
    }
}

/// The held transactions, in queue order.
pub open spec fn held_only(txs: Seq<TransactionView>) -> Seq<TransactionView>
    decreases txs.len(),
{
    if txs.len() == 0 {
        Seq::empty()
    } else if txs.last().state == TransactionState::Held {
        held_only(txs.drop_last()).push(txs.last())
    } else {
        held_only(txs.drop_last())
    }
}

/// The safe wallet is configured when it is not blank.
pub open spec fn safe_wallet_configured(s: MonitorState) -> bool {
    trim(s.config.safe_wallet).len() > 0
}

/// Ready: a safe wallet to hold transfers in, and at least the configured number of healthy agents.
pub open spec fn monitor_ready(s: MonitorState) -> bool {
    safe_wallet_configured(s) && count_healthy(s.agents) >= s.config.minimum_active_agents
}

pub open spec fn status_of(s: MonitorState) -> StatusView {
    StatusView {
        safe_wallet: s.config.safe_wallet,
        safe_wallet_configured: safe_wallet_configured(s),
        active_agents: count_healthy(s.agents) as usize,
        minimum_active_agents: s.config.minimum_active_agents,
        ready: monitor_ready(s),
        queued_transactions: s.transactions.len() as usize,
        held_transactions: count_in_state(s.transactions, TransactionState::Held) as usize,
        released_transactions: count_in_state(s.transactions, TransactionState::Released) as usize,
        last_release_operator: s.last_release_operator,
    }
}


/// One operation on the control plane, as the service's methods perform it.
pub enum MonitorOp {
    ReplaceConfig(ConfigView),
    Register(HeartbeatView),
    Failure(Seq<char>),
    Ingest(IntakeView, u128),
    Release(Seq<char>, ReleaseView),
}

/// The state after `op`.
pub open spec fn apply_op(s: MonitorState, op: MonitorOp) -> MonitorState {
    match op {
        MonitorOp::ReplaceConfig(config) => replace_config_step(s, config),
        MonitorOp::Register(heartbeat) => register_step(s, heartbeat),
        MonitorOp::Failure(name) => failure_step(s, name),
        MonitorOp::Ingest(request, now) => ingest_step(s, request, now),
        MonitorOp::Release(id, request) => release_step(s, id, request),
    }
}

/// Every operation keeps one agent per name and one transaction per id.
pub proof fn lemma_operations_preserve_wf(s: MonitorState, op: MonitorOp)
    requires
        monitor_wf(s),
    ensures
        monitor_wf(apply_op(s, op)),
{
    match op {
        MonitorOp::Register(heartbeat) => {
            lemma_upsert(s.agents, fresh_agent(heartbeat.agent_name, heartbeat.role));
        },
        MonitorOp::Failure(name) => {
            if has_key(s.agents, name) {
                let i = key_index(s.agents, name);
                lemma_update_same_key(s.agents, i, failed_once(s.agents[i]));
            }
        },
        MonitorOp::Ingest(request, now) => {
            lemma_upsert(s.transactions, held_transaction(s, request, now));
        },
        MonitorOp::Release(id, request) => {
            if has_key(s.transactions, id) {
                let i = key_index(s.transactions, id);
                lemma_update_same_key(
                    s.transactions,
                    i,
                    released_transaction(s.transactions[i], request),
                );
            }
        },
        MonitorOp::ReplaceConfig(_) => {},
    }
}

/// The alert queue is append-only: no operation drops or changes a queued alert.
pub proof fn lemma_alert_queue_append_only(s: MonitorState, op: MonitorOp)
    ensures
        apply_op(s, op).alerts.len() >= s.alerts.len(),
        apply_op(s, op).alerts.subrange(0, s.alerts.len() as int) == s.alerts,
{
    assert(apply_op(s, op).alerts.subrange(0, s.alerts.len() as int) =~= s.alerts);
}

/// No operation forgets a transaction: an id once queued stays queued.
pub proof fn lemma_queue_keeps_transactions(s: MonitorState, op: MonitorOp, id: Seq<char>)
    requires
        monitor_wf(s),
        has_key(s.transactions, id),
    ensures
        has_key(apply_op(s, op).transactions, id),
{
    match op {
        MonitorOp::Ingest(request, now) => {
            lemma_upsert(s.transactions, held_transaction(s, request, now));
        },
        MonitorOp::Release(rid, request) => {
            if has_key(s.transactions, rid) {
                let i = key_index(s.transactions, rid);
                lemma_update_same_key(
                    s.transactions,
                    i,
                    released_transaction(s.transactions[i], request),
                );
            }
        },
        _ => {},
    }
}

/// Only an operator release takes a transaction out of the hold: every other
/// operation leaves a held transaction held.
pub proof fn lemma_only_release_releases(s: MonitorState, op: MonitorOp, id: Seq<char>)
    requires
        monitor_wf(s),
        has_key(s.transactions, id),
        s.transactions[key_index(s.transactions, id)].state == TransactionState::Held,
        !(op is Release),
    ensures
        has_key(apply_op(s, op).transactions, id),
        apply_op(s, op).transactions[key_index(apply_op(s, op).transactions, id)].state
            == TransactionState::Held,
{
    match op {
        MonitorOp::Ingest(request, now) => {
            let t = held_transaction(s, request, now);
            lemma_upsert(s.transactions, t);
            if id != t.transaction_id {
                lemma_upsert_other(s.transactions, t, id);
            }
        },
        _ => {},
    }
}

/// Restoring the snapshot of a well-formed state gives the same state back.
pub proof fn lemma_snapshot_round_trip(s: MonitorState)
    requires
        monitor_wf(s),
    ensures
        restore(s) == s,
{
    lemma_collect_keyed_identity(s.agents);
    lemma_collect_keyed_identity(s.transactions);
}

/// Any snapshot, even one that lists an agent or a transaction twice, restores
/// to a well-formed state.
pub proof fn lemma_restore_well_formed(snapshot: MonitorState)
    ensures
        monitor_wf(restore(snapshot)),
{
    lemma_collect_keyed_unique(snapshot.agents);
    lemma_collect_keyed_unique(snapshot.transactions);
}

/// An intake leaves the transfer queued under its id, held in the configured
/// safe wallet, with the requested asset, amount, source and destination.
pub proof fn lemma_intake_holds_in_safe_wallet(s: MonitorState, request: IntakeView, now: u128)
    requires
        monitor_wf(s),
    ensures
        ({
            let t = ingest_step(s, request, now);
            let id = intake_id(s, request);
            &&& has_key(t.transactions, id)
            &&& t.transactions[key_index(t.transactions, id)] == held_transaction(s, request, now)
            &&& t.transactions[key_index(t.transactions, id)].state == TransactionState::Held
            &&& t.transactions[key_index(t.transactions, id)].safe_wallet == s.config.safe_wallet
        }),
{
    lemma_upsert(s.transactions, held_transaction(s, request, now));
}

/// The alert an intake answers with names the transaction the intake stored:
/// the id the request gives, or else the source wallet without spaces, a
/// hyphen and the queue's size after the intake. The stored transaction under
/// that id is held in the safe wallet with the requested asset, amount and
/// wallets, and an alert that asks for review is the last one queued.
pub proof fn lemma_intake_alert_names_stored_transaction(s: MonitorState, request: IntakeView, now: u128)
    requires
        monitor_wf(s),
    ensures
        ({
            let alert = intake_alert(s, request, now);
            let t = ingest_step(s, request, now);
            let stored = t.transactions[key_index(t.transactions, alert.transaction_id)];
            &&& request.transaction_id matches Some(id) ==> alert.transaction_id == id
            &&& request.transaction_id is None ==> alert.transaction_id == without_char(
                request.source_wallet,
                ' ',
            ) + seq!['-'] + decimal(s.transactions.len() + 1)
            &&& has_key(t.transactions, alert.transaction_id)
            &&& stored.transaction_id == alert.transaction_id
            &&& stored.state == TransactionState::Held
            &&& stored.safe_wallet == s.config.safe_wallet
            &&& stored.asset == request.asset
            &&& stored.amount_cents == request.amount_cents
            &&& stored.source_wallet == request.source_wallet
            &&& stored.destination_wallet == request.destination_wallet
            &&& stored.created_at_epoch_ms == now
            &&& stored.released_by is None
            &&& alert.requires_operator_review <==> alert.findings.len() > 0
            &&& alert.requires_operator_review ==> t.alerts.len() == s.alerts.len() + 1
                && t.alerts.last() == alert
            &&& !alert.requires_operator_review ==> t.alerts == s.alerts
        }),
{
    lemma_upsert(s.transactions, held_transaction(s, request, now));
}

/// A release changes only the transaction with the given id: that one is
/// released by the operator with the operator's note and keeps everything
/// else; every other queued transaction is left exactly as it was, and the
/// queue keeps its size.
pub proof fn lemma_release_changes_only_that_transaction(
    s: MonitorState,
    id: Seq<char>,
    request: ReleaseView,
    other: Seq<char>,
)
    requires
        monitor_wf(s),
        has_key(s.transactions, id),
    ensures
        ({
            let t = release_step(s, id, request);
            let before = s.transactions[key_index(s.transactions, id)];
            let after = t.transactions[key_index(t.transactions, id)];
            &&& t.transactions.len() == s.transactions.len()
            &&& has_key(t.transactions, id)
            &&& after.state == TransactionState::Released
            &&& after.released_by == Some(request.operator_id)
            &&& after.release_note == request.note
            &&& after.transaction_id == id
            &&& after.asset == before.asset
            &&& after.amount_cents == before.amount_cents
            &&& after.source_wallet == before.source_wallet
            &&& after.destination_wallet == before.destination_wallet
            &&& after.safe_wallet == before.safe_wallet
            &&& after.hold_reason == before.hold_reason
            &&& after.created_at_epoch_ms == before.created_at_epoch_ms
            &&& t.last_release_operator == Some(request.operator_id)
            &&& t.agents == s.agents
            &&& t.alerts == s.alerts
            &&& (has_key(s.transactions, other) && other != id) ==> (has_key(t.transactions, other)
                && t.transactions[key_index(t.transactions, other)] == s.transactions[key_index(
                s.transactions,
                other,
            )])
        }),
{
    let i = key_index(s.transactions, id);
    let x = released_transaction(s.transactions[i], request);
    let u = s.transactions.update(i, x);
    lemma_update_same_key(s.transactions, i, x);
    lemma_key_index(u, i);
    if has_key(s.transactions, other) && other != id {
        let j = key_index(s.transactions, other);
        assert(u[j] == s.transactions[j]);
        lemma_key_index(u, j);
    }
}

/// A failure report applies one failure to the named agent and to no other:
/// its counter goes up by one (staying at the top once there), it stays active
/// only while the counter is under the threshold, and every other agent is
/// left as it was. Fewer than three reports on a fresh agent leave it healthy.
pub proof fn lemma_failure_counts_once(s: MonitorState, name: Seq<char>, other: Seq<char>)
    requires
        monitor_wf(s),
        has_key(s.agents, name),
    ensures
        ({
            let t = failure_step(s, name);
            let before = s.agents[key_index(s.agents, name)];
            let after = t.agents[key_index(t.agents, name)];
            &&& t.agents.len() == s.agents.len()
            &&& has_key(t.agents, name)
            &&& after.name == name
            &&& after.role == before.role
            &&& after.consecutive_failures == if before.consecutive_failures < u32::MAX {
                before.consecutive_failures + 1
            } else {
                before.consecutive_failures as int
            }
            &&& after.active == (before.active && after.consecutive_failures < 3)
            &&& (before.active && before.consecutive_failures < 2) ==> agent_healthy(after)
            &&& t.transactions == s.transactions
            &&& t.alerts == s.alerts
            &&& (has_key(s.agents, other) && other != name) ==> (has_key(t.agents, other)
                && t.agents[key_index(t.agents, other)] == s.agents[key_index(s.agents, other)])
        }),
{
    let i = key_index(s.agents, name);
    let x = failed_once(s.agents[i]);
    let u = s.agents.update(i, x);
    lemma_update_same_key(s.agents, i, x);
    lemma_key_index(u, i);
    if has_key(s.agents, other) && other != name {
        let j = key_index(s.agents, other);
        assert(u[j] == s.agents[j]);
        lemma_key_index(u, j);
    }
}

/// No more agents are healthy than are registered; all are healthy exactly
/// when the count is the number registered, and none when no agent is healthy.
pub proof fn lemma_count_healthy_bounds(agents: Seq<AgentView>)
    ensures
        count_healthy(agents) <= agents.len(),
        (forall|i: int| 0 <= i < agents.len() ==> !agent_healthy(#[trigger] agents[i]))
            ==> count_healthy(agents) == 0,
        (count_healthy(agents) == agents.len()) <==> (forall|i: int|
            0 <= i < agents.len() ==> agent_healthy(#[trigger] agents[i])),
    decreases agents.len(),
{
    if agents.len() > 0 {
        let init = agents.drop_last();
        lemma_count_healthy_bounds(init);
        assert forall|i: int| 0 <= i < init.len() implies init[i] == agents[i] by {}
        if (forall|i: int| 0 <= i < agents.len() ==> !agent_healthy(#[trigger] agents[i])) {
            assert(forall|i: int| 0 <= i < init.len() ==> !agent_healthy(#[trigger] init[i])) by {
                assert forall|i: int| 0 <= i < init.len() implies !agent_healthy(#[trigger] init[i]) by {
                    assert(init[i] == agents[i]);
                }
            }
            assert(!agent_healthy(agents[agents.len() - 1]));
        }
        if count_healthy(agents) == agents.len() {
            assert forall|i: int| 0 <= i < agents.len() implies agent_healthy(#[trigger] agents[i]) by {
                if i < init.len() {
                    assert(init[i] == agents[i]);
                }
            }
        }
        if (forall|i: int| 0 <= i < agents.len() ==> agent_healthy(#[trigger] agents[i])) {
            assert forall|i: int| 0 <= i < init.len() implies agent_healthy(#[trigger] init[i]) by {
                assert(init[i] == agents[i]);
            }
            assert(agent_healthy(agents[agents.len() - 1]));
        }
    }
}

/// The status reports the healthy-agent count that readiness uses: its
/// readiness is exactly "safe wallet configured and at least the minimum of
/// healthy agents", it never counts more agents than are registered, and an
/// agent out of rotation is not counted.
pub proof fn lemma_status_is_consistent(s: MonitorState)
    requires
        s.agents.len() <= usize::MAX,
        s.transactions.len() <= usize::MAX,
    ensures
        ({
            let st = status_of(s);
            &&& st.active_agents == count_healthy(s.agents)
            &&& st.active_agents <= s.agents.len()
            &&& st.ready == (st.safe_wallet_configured && st.active_agents >= st.minimum_active_agents)
            &&& st.ready == monitor_ready(s)
            &&& st.queued_transactions == s.transactions.len()
            &&& st.held_transactions + st.released_transactions == s.transactions.len()
            &&& (forall|i: int| 0 <= i < s.agents.len() ==> !agent_healthy(#[trigger] s.agents[i]))
                ==> st.active_agents == 0
        }),
{
    lemma_count_healthy_bounds(s.agents);
    lemma_held_released_partition(s.transactions);
}

/// Every transaction is either held or released.
pub proof fn lemma_held_released_partition(txs: Seq<TransactionView>)
    ensures
        count_in_state(txs, TransactionState::Held) + count_in_state(txs, TransactionState::Released)
            == txs.len(),
    decreases txs.len(),
{
    if txs.len() > 0 {
        lemma_held_released_partition(txs.drop_last());
    }
}

/// Every USDC intake asks for operator review, with the USDC finding first,
/// and its alert is queued.
pub proof fn lemma_usdc_intake_reviewed(s: MonitorState, request: IntakeView, now: u128)
    requires
        request.asset == crate::transaction::Stablecoin::Usdc,
    ensures
        intake_alert(s, request, now).requires_operator_review,
        intake_alert(s, request, now).findings[0] == crate::attack_security::usdc_finding(),
        ingest_step(s, request, now).alerts == s.alerts.push(intake_alert(s, request, now)),
{
}

/// Every intake to a destination off the allowlist asks for operator review,
/// and its alert is queued.
pub proof fn lemma_unapproved_intake_reviewed(s: MonitorState, request: IntakeView, now: u128)
    requires
        !s.config.approved_destinations.contains(request.destination_wallet),
    ensures
        intake_alert(s, request, now).requires_operator_review,
        intake_alert(s, request, now).findings.last()
            == crate::attack_security::destination_finding(),
        ingest_step(s, request, now).alerts == s.alerts.push(intake_alert(s, request, now)),
{
}

/// A release of a queued transaction marks it released by the operator and
/// records the operator; a release of an unknown id changes nothing.
pub proof fn lemma_release_records_operator(s: MonitorState, id: Seq<char>, request: ReleaseView)
    requires
        monitor_wf(s),
    ensures
        has_key(s.transactions, id) ==> ({
            let t = release_step(s, id, request);
            &&& has_key(t.transactions, id)
            &&& t.transactions[key_index(t.transactions, id)].state == TransactionState::Released
            &&& t.transactions[key_index(t.transactions, id)].released_by == Some(request.operator_id)
            &&& t.last_release_operator == Some(request.operator_id)
            &&& t.transactions.len() == s.transactions.len()
        }),
        !has_key(s.transactions, id) ==> release_step(s, id, request) == s,
{
    if has_key(s.transactions, id) {
        let i = key_index(s.transactions, id);
        let x = released_transaction(s.transactions[i], request);
        lemma_update_same_key(s.transactions, i, x);
        lemma_key_index(s.transactions.update(i, x), i);
    }
}

pub proof fn lemma_count_healthy_update(agents: Seq<AgentView>, i: int, a: AgentView)
    requires
        0 <= i < agents.len(),
    ensures
        count_healthy(agents.update(i, a)) + (if agent_healthy(agents[i]) { 1int } else { 0int })
            == count_healthy(agents) + (if agent_healthy(a) { 1int } else { 0int }),
    decreases agents.len(),
{
    let t = agents.update(i, a);
    if i == agents.len() - 1 {
        assert(t.drop_last() =~= agents.drop_last());
    } else {
        lemma_count_healthy_update(agents.drop_last(), i, a);
        assert(t.drop_last() =~= agents.drop_last().update(i, a));
    }
}

/// A failure report never raises the number of healthy agents, so it never
/// makes an unready control plane ready.
pub proof fn lemma_failure_never_raises_readiness(s: MonitorState, name: Seq<char>)
    ensures
        count_healthy(failure_step(s, name).agents) <= count_healthy(s.agents),
        monitor_ready(failure_step(s, name)) ==> monitor_ready(s),
{
    if has_key(s.agents, name) {
        let i = key_index(s.agents, name);
        lemma_count_healthy_update(s.agents, i, failed_once(s.agents[i]));
        crate::ai_agent::lemma_failure_never_heals(s.agents[i]);
    }
}

/// Three failure reports in a row take a registered agent out of rotation.
pub proof fn lemma_three_failures_remove_agent(s: MonitorState, name: Seq<char>)
    requires
        monitor_wf(s),
        has_key(s.agents, name),
    ensures
        ({
            let t = failure_step(failure_step(failure_step(s, name), name), name);
            &&& has_key(t.agents, name)
            &&& !agent_healthy(t.agents[key_index(t.agents, name)])
        }),
{
    let i = key_index(s.agents, name);
    let a = s.agents[i];
    let s1 = failure_step(s, name);
    lemma_update_same_key(s.agents, i, failed_once(a));
    lemma_key_index(s1.agents, i);
    let s2 = failure_step(s1, name);
    lemma_update_same_key(s1.agents, i, failed_once(failed_once(a)));
    lemma_key_index(s2.agents, i);
    let s3 = failure_step(s2, name);
    lemma_update_same_key(s2.agents, i, failed_once(failed_once(failed_once(a))));
    lemma_key_index(s3.agents, i);
    crate::ai_agent::lemma_three_failures_deactivate(a);
}

/// A heartbeat leaves exactly one agent under its name, freshly recovered and healthy.
pub proof fn lemma_heartbeat_restores_agent(s: MonitorState, heartbeat: HeartbeatView)
    requires
        monitor_wf(s),
    ensures
        ({
            let t = register_step(s, heartbeat);
            &&& has_key(t.agents, heartbeat.agent_name)
            &&& t.agents[key_index(t.agents, heartbeat.agent_name)] == fresh_agent(
                heartbeat.agent_name,
                heartbeat.role,
            )
            &&& agent_healthy(t.agents[key_index(t.agents, heartbeat.agent_name)])
            &&& unique_keys(t.agents)
        }),
{
    lemma_upsert(s.agents, fresh_agent(heartbeat.agent_name, heartbeat.role));
}

/// A heartbeat raises the number of healthy agents by one, unless an agent of
/// that name was already healthy, in which case the number stays.
pub proof fn lemma_heartbeat_healthy_count(s: MonitorState, heartbeat: HeartbeatView)
    requires
        monitor_wf(s),
    ensures
        count_healthy(register_step(s, heartbeat).agents) == count_healthy(s.agents) + if has_key(
            s.agents,
            heartbeat.agent_name,
        ) && agent_healthy(s.agents[key_index(s.agents, heartbeat.agent_name)]) {
            0int
        } else {
            1int
        },
        count_healthy(register_step(s, heartbeat).agents) >= count_healthy(s.agents),
{
    let a = fresh_agent(heartbeat.agent_name, heartbeat.role);
    if has_key(s.agents, heartbeat.agent_name) {
        let i = key_index(s.agents, heartbeat.agent_name);
        lemma_count_healthy_update(s.agents, i, a);
    } else {
        assert(s.agents.push(a).drop_last() =~= s.agents);
    }
}

/// Every queued alert asks for operator review and carries at least one finding.
pub open spec fn alerts_flagged(s: MonitorState) -> bool {
    forall|i: int|
        0 <= i < s.alerts.len() ==> (#[trigger] s.alerts[i]).requires_operator_review
            && s.alerts[i].findings.len() > 0
}

/// Only an intake changes the alert queue, and then only by appending the
/// alert it answers with, when that alert asks for review.
pub proof fn lemma_alert_queue_changes_only_on_intake(s: MonitorState, op: MonitorOp)
    ensures
        !(op is Ingest) ==> apply_op(s, op).alerts == s.alerts,
        op matches MonitorOp::Ingest(request, now) ==> apply_op(s, op).alerts == if intake_alert(
            s,
            request,
            now,
        ).requires_operator_review {
            s.alerts.push(intake_alert(s, request, now))
        } else {
            s.alerts
        },
{
    match op {
        MonitorOp::Release(id, request) => {
            if has_key(s.transactions, id) {
            }
        },
        MonitorOp::Failure(name) => {
            if has_key(s.agents, name) {
            }
        },
        _ => {},
    }
}

/// No operation queues an alert that does not ask for review.
pub proof fn lemma_operations_keep_alerts_flagged(s: MonitorState, op: MonitorOp)
    requires
        alerts_flagged(s),
    ensures
        alerts_flagged(apply_op(s, op)),
{
    lemma_alert_queue_changes_only_on_intake(s, op);
    let t = apply_op(s, op);
    assert forall|i: int| 0 <= i < t.alerts.len() implies (#[trigger] t.alerts[i]).requires_operator_review
        && t.alerts[i].findings.len() > 0 by {
        if i < s.alerts.len() {
            assert(t.alerts[i] == s.alerts[i]);
        }
    }
}

/// The state after the operations `ops`, in order.
pub open spec fn apply_ops(s: MonitorState, ops: Seq<MonitorOp>) -> MonitorState
    decreases ops.len(),
{
    if ops.len() == 0 {
        s
    } else {
        apply_op(apply_ops(s, ops.drop_last()), ops.last())
    }
}

/// Every state that a new service reaches through any sequence of operations
/// is well formed, and every alert it has queued asks for review.
pub proof fn lemma_reachable_states(config: ConfigView, ops: Seq<MonitorOp>)
    ensures
        monitor_wf(apply_ops(initial_state(config), ops)),
        alerts_flagged(apply_ops(initial_state(config), ops)),
    decreases ops.len(),
{
    if ops.len() > 0 {
        lemma_reachable_states(config, ops.drop_last());
        let s = apply_ops(initial_state(config), ops.drop_last());
        lemma_operations_preserve_wf(s, ops.last());
        lemma_operations_keep_alerts_flagged(s, ops.last());
    }
}

/// The held list holds only held transactions of the queue, each once: its
/// ids are distinct when the queue's are, and every queued held transaction is in it.
pub proof fn lemma_held_only(txs: Seq<TransactionView>)
    requires
        unique_keys(txs),
    ensures
        unique_keys(held_only(txs)),
        forall|i: int|
            0 <= i < held_only(txs).len() ==> (#[trigger] held_only(txs)[i]).state
                == TransactionState::Held && txs.contains(held_only(txs)[i]),
        forall|j: int|
            0 <= j < txs.len() && (#[trigger] txs[j]).state == TransactionState::Held
                ==> held_only(txs).contains(txs[j]),
    decreases txs.len(),
{
    if txs.len() > 0 {
        let init = txs.drop_last();
        assert(unique_keys(init)) by {
            assert forall|a: int, b: int|
                0 <= a < init.len() && 0 <= b < init.len() && a != b implies #[trigger] init[a].key()
                != #[trigger] init[b].key() by {
                assert(init[a] == txs[a]);
                assert(init[b] == txs[b]);
            }
        }
        lemma_held_only(init);
        let h = held_only(init);
        let x = txs.last();
        assert forall|i: int| 0 <= i < h.len() implies #[trigger] h[i].key() != x.key() by {
            let j = choose|j: int| 0 <= j < init.len() && init[j] == h[i];
            assert(txs[j] == h[i]);
        }
        if x.state == TransactionState::Held {
            let t = h.push(x);
            assert forall|a: int, b: int|
                0 <= a < t.len() && 0 <= b < t.len() && a != b implies #[trigger] t[a].key()
                != #[trigger] t[b].key() by {
                if a < h.len() && b < h.len() {
                } else if a < h.len() {
                    assert(t[b] == x);
                } else {
                    assert(t[a] == x);
                }
            }
            assert forall|i: int| 0 <= i < t.len() implies (#[trigger] t[i]).state
                == TransactionState::Held && txs.contains(t[i]) by {
                if i < h.len() {
                    let j = choose|j: int| 0 <= j < init.len() && init[j] == h[i];
                    assert(txs[j] == t[i]);
                } else {
                    assert(txs[txs.len() - 1] == t[i]);
                }
            }
            assert forall|j: int| 0 <= j < txs.len() && (#[trigger] txs[j]).state
                == TransactionState::Held implies t.contains(txs[j]) by {
                if j < init.len() {
                    assert(init[j] == txs[j]);
                    let k = choose|k: int| 0 <= k < h.len() && h[k] == init[j];
                    assert(t[k] == txs[j]);
                } else {
                    assert(t[h.len() as int] == txs[j]);
                }
            }
        } else {
            assert forall|i: int| 0 <= i < h.len() implies (#[trigger] h[i]).state
                == TransactionState::Held && txs.contains(h[i]) by {
                let j = choose|j: int| 0 <= j < init.len() && init[j] == h[i];
                assert(txs[j] == h[i]);
            }
            assert forall|j: int| 0 <= j < txs.len() && (#[trigger] txs[j]).state
                == TransactionState::Held implies h.contains(txs[j]) by {
                if j < init.len() {
                    assert(init[j] == txs[j]);
                }
            }
        }
    }
}

/// The held count that the status reports is the length of the held list.
pub proof fn lemma_held_count_is_held_list(txs: Seq<TransactionView>)
    ensures
        count_in_state(txs, TransactionState::Held) == held_only(txs).len(),
    decreases txs.len(),
{
    if txs.len() > 0 {
        lemma_held_count_is_held_list(txs.drop_last());
    }
}

/// The position of the agent named `name`, or nothing when there is none.
fn find_agent(agents: &Vec<AutonomousAgent>, name: &String) -> (found: Option<usize>)
    requires
        unique_keys(agents_view(agents@)),
    ensures
        match found {
            Some(i) => i < agents.len() && has_key(agents_view(agents@), name@) && i == key_index(
                agents_view(agents@),
                name@,
            ),
            None => !has_key(agents_view(agents@), name@),
        },
{
    let mut i: usize = 0;
    while i < agents.len()
        invariant
            i <= agents.len(),
            unique_keys(agents_view(agents@)),
            forall|j: int| 0 <= j < i ==> agents@[j]@.name != name@,
        decreases agents.len() - i,
    {
        if agents[i].name == *name {
            proof {
                crate::keyed::lemma_key_index(agents_view(agents@), i as int);
            }
            return Some(i);
        }
        i = i + 1;
    }
    proof {
        if has_key(agents_view(agents@), name@) {
            let j = choose|j: int|
                0 <= j < agents_view(agents@).len() && #[trigger] agents_view(agents@)[j].key()
                    == name@;
            assert(agents@[j]@.name == name@);
        }
    }
    None
}

/// The position of the transaction with id `id`, or nothing when there is none.
fn find_transaction(txs: &Vec<StablecoinTransaction>, id: &String) -> (found: Option<usize>)
    requires
        unique_keys(transactions_view(txs@)),
    ensures
        match found {
            Some(i) => i < txs.len() && has_key(transactions_view(txs@), id@) && i == key_index(
                transactions_view(txs@),
                id@,
            ),
            None => !has_key(transactions_view(txs@), id@),
        },
{
    let mut i: usize = 0;
    while i < txs.len()
        invariant
            i <= txs.len(),
            unique_keys(transactions_view(txs@)),
            forall|j: int| 0 <= j < i ==> txs@[j]@.transaction_id != id@,
        decreases txs.len() - i,
    {
        if txs[i].transaction_id == *id {
            proof {
                crate::keyed::lemma_key_index(transactions_view(txs@), i as int);
            }
            return Some(i);
        }
        i = i + 1;
    }
    proof {
        if has_key(transactions_view(txs@), id@) {
            let j = choose|j: int|
                0 <= j < transactions_view(txs@).len() && #[trigger] transactions_view(
                    txs@,
                )[j].key() == id@;
            assert(txs@[j]@.transaction_id == id@);
        }
    }
    None
}

fn upsert_agent(agents: &mut Vec<AutonomousAgent>, agent: AutonomousAgent)
    requires
        unique_keys(agents_view(old(agents)@)),
    ensures
        agents_view(final(agents)@) == upsert(agents_view(old(agents)@), agent@),
        unique_keys(agents_view(final(agents)@)),
{
    proof {
        crate::keyed::lemma_upsert(agents_view(agents@), agent@);
    }
    match find_agent(agents, &agent.name) {
        Some(i) => {
            let ghost a = agent@;
            agents.set(i, agent);
            assert(agents_view(agents@) =~= upsert(agents_view(old(agents)@), a));
        },
        None => {
            let ghost a = agent@;
            agents.push(agent);
            assert(agents_view(agents@) =~= upsert(agents_view(old(agents)@), a));
        },
    }
}

fn upsert_transaction(txs: &mut Vec<StablecoinTransaction>, tx: StablecoinTransaction)
    requires
        unique_keys(transactions_view(old(txs)@)),
    ensures
        transactions_view(final(txs)@) == upsert(transactions_view(old(txs)@), tx@),
        unique_keys(transactions_view(final(txs)@)),
{
    proof {
        crate::keyed::lemma_upsert(transactions_view(txs@), tx@);
    }
    match find_transaction(txs, &tx.transaction_id) {
        Some(i) => {
            let ghost t = tx@;
            txs.set(i, tx);
            assert(transactions_view(txs@) =~= upsert(transactions_view(old(txs)@), t));
        },
        None => {
            let ghost t = tx@;
            txs.push(tx);
            assert(transactions_view(txs@) =~= upsert(transactions_view(old(txs)@), t));
        },
    }
}


/// Counts the healthy agents.
fn healthy_count(agents: &Vec<AutonomousAgent>) -> (n: usize)
    ensures
        n == count_healthy(agents_view(agents@)),
{
    let mut n: usize = 0;
    let mut i: usize = 0;
    while i < agents.len()
        invariant
            i <= agents.len(),
            n <= i,
            n == count_healthy(agents_view(agents@).take(i as int)),
        decreases agents.len() - i,
    {
        assert(agents_view(agents@).take(i + 1).drop_last() =~= agents_view(agents@).take(i as int));
        if agents[i].is_healthy() {
            n = n + 1;
        }
        i = i + 1;
    }
    assert(agents_view(agents@).take(agents.len() as int) =~= agents_view(agents@));
    n
}

/// Counts the transactions in `state`.
fn state_count(txs: &Vec<StablecoinTransaction>, state: TransactionState) -> (n: usize)
    ensures
        n == count_in_state(transactions_view(txs@), state),
{
    let mut n: usize = 0;
    let mut i: usize = 0;
    while i < txs.len()
        invariant
            i <= txs.len(),
            n <= i,
            n == count_in_state(transactions_view(txs@).take(i as int), state),
        decreases txs.len() - i,
    {
        assert(transactions_view(txs@).take(i + 1).drop_last() =~= transactions_view(txs@).take(
            i as int,
        ));
        if txs[i].state == state {
            n = n + 1;
        }
        i = i + 1;
    }
    assert(transactions_view(txs@).take(txs.len() as int) =~= transactions_view(txs@));
    n
}

/// The id for a request that names none: the source wallet without spaces, a
/// hyphen, and `position` in decimal.
fn generated_id(source_wallet: &String, position: u128) -> (id: String)
    ensures
        id@ == generated_transaction_id(source_wallet@, position as nat),
{
    let mut id = String::new();
    push_without_char(&mut id, source_wallet.as_str(), ' ');
    id.push('-');
    let digits = decimal_chars(position);
    push_chars(&mut id, &digits);
    assert(id@ =~= generated_transaction_id(source_wallet@, position as nat));
    id
}

/// The transaction monitoring control plane: redundant monitor agents, the
/// queue of transfers held in the safe wallet, and the alerts that wait for
/// operator review.
#[derive(Debug)]
pub struct MonitorService {
    config: MonitorConfig,
    detector: KeyCompromiseDetector,
    agents: Vec<AutonomousAgent>,
    transactions: Vec<StablecoinTransaction>,
    alerts: Vec<TransactionAlert>,
    audit_events: Vec<AuditEvent>,
    last_release_operator: Option<String>,
}

impl View for MonitorService {
    type V = MonitorState;

    closed spec fn view(&self) -> MonitorState {
        MonitorState {
            config: self.config@,
            agents: agents_view(self.agents@),
            transactions: transactions_view(self.transactions@),
            alerts: alerts_view(self.alerts@),
            audit_events: audit_view(self.audit_events@),
            last_release_operator: crate::text::opt_text(self.last_release_operator),
        }
    }
}

impl Clone for MonitorService {
    fn clone(&self) -> (copy: Self)
        ensures
            copy@ == self@,
            self.wf() ==> copy.wf(),
    {
        let agents = self.agents.clone();
        assert(agents_view(agents@) =~= agents_view(self.agents@));
        let transactions = self.transactions.clone();
        assert(transactions_view(transactions@) =~= transactions_view(self.transactions@));
        let alerts = self.alerts.clone();
        assert(alerts_view(alerts@) =~= alerts_view(self.alerts@));
        let audit_events = self.audit_events.clone();
        assert(audit_view(audit_events@) =~= audit_view(self.audit_events@));
        let approved_destinations = self.detector.approved_destinations.clone();
        assert(texts(approved_destinations@) =~= texts(self.detector.approved_destinations@));
        MonitorService {
            config: self.config.clone(),
            detector: KeyCompromiseDetector::new(approved_destinations),
            agents,
            transactions,
            alerts,
            audit_events,
            last_release_operator: self.last_release_operator.clone(),
        }
    }
}

impl MonitorService {
    /// The service is well formed: its state is, and its detector checks
    /// against the configured allowlist.
    pub closed spec fn wf(&self) -> bool {
        &&& monitor_wf(self@)
        &&& texts(self.detector.approved_destinations@) == self.config@.approved_destinations
    }

    /// A well-formed service holds one agent per name and one transaction per id.
    pub proof fn lemma_wf_keys_unique(&self)
        requires
            self.wf(),
        ensures
            monitor_wf(self@),
            unique_keys(self@.agents),
            unique_keys(self@.transactions),
    {
    }

    /// Restoring a well-formed service's snapshot gives back the same state:
    /// `from_snapshot(s.snapshot())@ == s@`, as the two contracts combine.
    pub proof fn lemma_snapshot_round_trip_of_service(&self)
        requires
            self.wf(),
        ensures
            restore(self@) == self@,
    {
        lemma_snapshot_round_trip(self@);
    }

    pub fn new(config: MonitorConfig) -> (service: Self)
        ensures
            service.wf(),
            monitor_wf(service@),
            service@ == initial_state(config@),
    {
        let detector = KeyCompromiseDetector::new(config.approved_destinations.clone());
        let service = MonitorService {
            config,
            detector,
            agents: Vec::new(),
            transactions: Vec::new(),
            alerts: Vec::new(),
            audit_events: Vec::new(),
            last_release_operator: None,
        };
        assert(texts(service.detector.approved_destinations@) =~= service.config@.approved_destinations);
        assert(service@.agents =~= Seq::<AgentView>::empty());
        assert(service@.transactions =~= Seq::<TransactionView>::empty());
        assert(service@.alerts =~= Seq::<AlertView>::empty());
        assert(service@.audit_events =~= Seq::<crate::transaction::AuditEventView>::empty());
        service
    }

    pub fn replace_config(&mut self, config: MonitorConfig)
        requires
            old(self).wf(),
        ensures
            final(self).wf(),
            monitor_wf(final(self)@),
            final(self)@ == replace_config_step(old(self)@, config@),
    {
        self.detector = KeyCompromiseDetector::new(config.approved_destinations.clone());
        self.config = config;
        assert(texts(self.detector.approved_destinations@) =~= self.config@.approved_destinations);
    }

    pub fn register_or_update_agent(&mut self, heartbeat: AgentHeartbeat)
        requires
            old(self).wf(),
        ensures
            final(self).wf(),
            monitor_wf(final(self)@),
            final(self)@ == register_step(old(self)@, heartbeat@),
    {
        let AgentHeartbeat { agent_name, role } = heartbeat;
        let agent = AutonomousAgent::new(agent_name, role);
        upsert_agent(&mut self.agents, agent);
    }

    pub fn mark_agent_failure(&mut self, agent_name: &str) -> (found: bool)
        requires
            old(self).wf(),
        ensures
            final(self).wf(),
            monitor_wf(final(self)@),
            found == has_key(old(self)@.agents, agent_name@),
            final(self)@ == failure_step(old(self)@, agent_name@),
    {
        let name = agent_name.to_owned();
        match find_agent(&self.agents, &name) {
            Some(i) => {
                let mut agent = self.agents[i].clone();
                agent.mark_failure();
                proof {
                    crate::keyed::lemma_update_same_key(agents_view(self.agents@), i as int, agent@);
                }
                self.agents.set(i, agent);
                assert(agents_view(self.agents@) =~= old(self)@.agents.update(
                    i as int,
                    failed_once(old(self)@.agents[i as int]),
                ));
                true
            },
            None => false,
        }
    }

    pub fn active_agents(&self) -> (n: usize)
        ensures
            n == count_healthy(self@.agents),
    {
        healthy_count(&self.agents)
    }

    pub fn is_ready(&self) -> (ready: bool)
        ensures
            ready == monitor_ready(self@),
    {
        let wallet = chars_of(self.config.safe_wallet.as_str());
        let (start, end) = trim_bounds(&wallet);
        start < end && self.active_agents() >= self.config.minimum_active_agents
    }

    /// Takes a transfer into the safe wallet at `created_at_epoch_ms`: the
    /// transfer is held, inspected, and its alert queued when it asks for review.
    pub fn ingest_at(&mut self, request: TransactionIntakeRequest, created_at_epoch_ms: u128) -> (alert: TransactionAlert)
        requires
            old(self).wf(),
        ensures
            final(self).wf(),
            monitor_wf(final(self)@),
            final(self)@ == ingest_step(old(self)@, request@, created_at_epoch_ms),
            alert@ == intake_alert(old(self)@, request@, created_at_epoch_ms),
    {
        let ghost req = request@;
        let TransactionIntakeRequest {
            transaction_id,
            asset,
            amount_cents,
            source_wallet,
            destination_wallet,
        } = request;
        let transaction_id = match transaction_id {
            Some(id) => id,
            None => {
                let position: u128 = self.transactions.len() as u128 + 1;
                generated_id(&source_wallet, position)
            },
        };
        assert(transaction_id@ == intake_id(self@, req));
        let transaction = StablecoinTransaction {
            transaction_id: transaction_id.clone(),
            asset,
            amount_cents,
            source_wallet,
            destination_wallet,
            safe_wallet: self.config.safe_wallet.clone(),
            state: TransactionState::Held,
            hold_reason: "Automatic temporary hold pending operator-supervised release.".to_owned(),
            created_at_epoch_ms,
            released_by: None,
            release_note: None,
        };
        assert(transaction@ == held_transaction(old(self)@, req, created_at_epoch_ms));
        let findings = self.detector.inspect(&transaction);
        let requires_operator_review = findings.len() > 0;
        let alert = TransactionAlert { transaction_id, findings, requires_operator_review };
        if requires_operator_review {
            self.alerts.push(alert.clone());
            assert(alerts_view(self.alerts@) =~= alerts_view(old(self).alerts@).push(alert@));
        }
        upsert_transaction(&mut self.transactions, transaction);
        alert
    }

    /// Takes a transfer into the safe wallet, stamped with the system clock.
    pub fn ingest(&mut self, request: TransactionIntakeRequest) -> (alert: TransactionAlert)
        requires
            old(self).wf(),
        ensures
            final(self).wf(),
            monitor_wf(final(self)@),
            exists|now: u128|
                final(self)@ == ingest_step(old(self)@, request@, now) && alert@ == intake_alert(
                    old(self)@,
                    request@,
                    now,
                ),
    {
        let now = epoch_millis_now();
        self.ingest_at(request, now)
    }

    /// Records an operator-approved release of a held transfer.
    pub fn release(&mut self, transaction_id: &str, request: OperatorReleaseRequest) -> (released: Option<StablecoinTransaction>)
        requires
            old(self).wf(),
        ensures
            final(self).wf(),
            monitor_wf(final(self)@),
            final(self)@ == release_step(old(self)@, transaction_id@, request@),
            match released {
                Some(t) => release_result(old(self)@, transaction_id@, request@) == Some(t@),
                None => release_result(old(self)@, transaction_id@, request@) is None,
            },
    {
        let id = transaction_id.to_owned();
        match find_transaction(&self.transactions, &id) {
            Some(i) => {
                let ghost r = request@;
                let OperatorReleaseRequest { operator_id, note } = request;
                let mut transaction = self.transactions[i].clone();
                transaction.state = TransactionState::Released;
                transaction.released_by = Some(operator_id.clone());
                transaction.release_note = note;
                proof {
                    crate::keyed::lemma_update_same_key(
                        transactions_view(self.transactions@),
                        i as int,
                        transaction@,
                    );
                }
                let copy = transaction.clone();
                self.transactions.set(i, transaction);
                self.last_release_operator = Some(operator_id);
                assert(transactions_view(self.transactions@) =~= old(self)@.transactions.update(
                    i as int,
                    released_transaction(old(self)@.transactions[i as int], r),
                ));
                Some(copy)
            },
            None => None,
        }
    }

    pub fn held_transactions(&self) -> (held: Vec<StablecoinTransaction>)
        ensures
            transactions_view(held@) == held_only(self@.transactions),
    {
        let mut held: Vec<StablecoinTransaction> = Vec::new();
        let mut i: usize = 0;
        while i < self.transactions.len()
            invariant
                i <= self.transactions.len(),
                transactions_view(held@) == held_only(transactions_view(self.transactions@).take(i as int)),
            decreases self.transactions.len() - i,
        {
            assert(transactions_view(self.transactions@).take(i + 1).drop_last()
                =~= transactions_view(self.transactions@).take(i as int));
            if self.transactions[i].state == TransactionState::Held {
                let ghost before = transactions_view(held@);
                held.push(self.transactions[i].clone());
                assert(transactions_view(held@) =~= before.push(self.transactions@[i as int]@));
            }
            i = i + 1;
        }
        assert(transactions_view(self.transactions@).take(self.transactions.len() as int)
            =~= transactions_view(self.transactions@));
        held
    }

    pub fn status(&self) -> (status: MonitorStatus)
        ensures
            status@ == status_of(self@),
    {
        let wallet = chars_of(self.config.safe_wallet.as_str());
        let (start, end) = trim_bounds(&wallet);
        MonitorStatus {
            safe_wallet: self.config.safe_wallet.clone(),
            safe_wallet_configured: start < end,
            active_agents: self.active_agents(),
            minimum_active_agents: self.config.minimum_active_agents,
            ready: self.is_ready(),
            queued_transactions: self.transactions.len(),
            held_transactions: state_count(&self.transactions, TransactionState::Held),
            released_transactions: state_count(&self.transactions, TransactionState::Released),
            last_release_operator: self.last_release_operator.clone(),
        }
    }

    /// Everything the service holds, for saving.
    pub fn snapshot(&self) -> (snapshot: MonitorSnapshot)
        ensures
            snapshot@ == self@,
            self.wf() ==> monitor_wf(snapshot@),
    {
        let agents = self.agents.clone();
        assert(agents_view(agents@) =~= agents_view(self.agents@));
        let transactions = self.transactions.clone();
        assert(transactions_view(transactions@) =~= transactions_view(self.transactions@));
        let alerts = self.alerts.clone();
        assert(alerts_view(alerts@) =~= alerts_view(self.alerts@));
        let audit_events = self.audit_events.clone();
        assert(audit_view(audit_events@) =~= audit_view(self.audit_events@));
        MonitorSnapshot {
            config: self.config.clone(),
            agents,
            transactions,
            alerts,
            audit_events,
            last_release_operator: self.last_release_operator.clone(),
        }
    }

    /// A service that holds what the snapshot holds.
    pub fn from_snapshot(snapshot: MonitorSnapshot) -> (service: Self)
        ensures
            service.wf(),
            monitor_wf(service@),
            service@ == restore(snapshot@),
    {
        let ghost snap = snapshot@;
        let MonitorSnapshot {
            config,
            agents,
            transactions,
            alerts,
            audit_events,
            last_release_operator,
        } = snapshot;
        let mut service = MonitorService::new(config);
        let mut i: usize = 0;
        while i < agents.len()
            invariant
                i <= agents.len(),
                service.wf(),
            monitor_wf(service@),
                agents_view(agents@) == snap.agents,
                service@ == (MonitorState {
                    agents: collect_keyed(snap.agents.take(i as int)),
                    ..initial_state(snap.config)
                }),
            decreases agents.len() - i,
        {
            assert(snap.agents.take(i + 1).drop_last() =~= snap.agents.take(i as int));
            upsert_agent(&mut service.agents, agents[i].clone());
            i = i + 1;
        }
        assert(snap.agents.take(agents.len() as int) =~= snap.agents);
        let mut j: usize = 0;
        while j < transactions.len()
            invariant
                j <= transactions.len(),
                service.wf(),
            monitor_wf(service@),
                transactions_view(transactions@) == snap.transactions,
                service@ == (MonitorState {
                    agents: collect_keyed(snap.agents),
                    transactions: collect_keyed(snap.transactions.take(j as int)),
                    ..initial_state(snap.config)
                }),
            decreases transactions.len() - j,
        {
            assert(snap.transactions.take(j + 1).drop_last() =~= snap.transactions.take(j as int));
            upsert_transaction(&mut service.transactions, transactions[j].clone());
            j = j + 1;
        }
        assert(snap.transactions.take(transactions.len() as int) =~= snap.transactions);
        service.alerts = alerts;
        service.audit_events = audit_events;
        service.last_release_operator = last_release_operator;
        service
    }

    pub fn alerts(&self) -> (alerts: &[TransactionAlert])
        ensures
            alerts_view(alerts@) == self@.alerts,
    {
        self.alerts.as_slice()
    }
}

} // verus!
