use vstd::prelude::*;

verus! {

/// The duty a monitor agent performs in the control plane.
#[derive(Clone, Copy, Debug, PartialEq, Eq, Structural)]
pub enum AgentRole {
    Intake,
    RiskReview,
    ReleaseCoordinator,
}

/// The number of consecutive failures at which an agent is taken out of rotation.
pub const FAILURE_THRESHOLD: u32 = 3;

/// A redundant monitor agent and its health record.
#[derive(Debug, PartialEq, Eq)]
pub struct AutonomousAgent {
    pub name: String,
    pub role: AgentRole,
    pub active: bool,
    pub consecutive_failures: u32,
}

/// The mathematical value of an agent: its name as characters and its health record.
pub struct AgentView {
    pub name: Seq<char>,
    pub role: AgentRole,
    pub active: bool,
    pub consecutive_failures: u32,
}

impl View for AutonomousAgent {
    type V = AgentView;

    open spec fn view(&self) -> AgentView {
        AgentView {
            name: self.name@,
            role: self.role,
            active: self.active,
            consecutive_failures: self.consecutive_failures,
        }
    }
}

/// A freshly registered (or recovered) agent: active, with no failures on record.
pub open spec fn fresh_agent(name: Seq<char>, role: AgentRole) -> AgentView {
    AgentView { name, role, active: true, consecutive_failures: 0 }
}

/// One failure report: the counter saturates at `u32::MAX`, and the agent is
/// deactivated once the counter reaches the threshold.
pub open spec fn failed_once(a: AgentView) -> AgentView {
    let failures: u32 = if a.consecutive_failures == u32::MAX {
        u32::MAX
    } else {
        (a.consecutive_failures + 1) as u32
    };
    AgentView {
        consecutive_failures: failures,
        active: if failures >= FAILURE_THRESHOLD { false } else { a.active },
        ..a
    }
}

/// An agent takes part in readiness only while active and under the failure threshold.
pub open spec fn agent_healthy(a: AgentView) -> bool {
    a.active && a.consecutive_failures < FAILURE_THRESHOLD
}

/// The same agent after a recovery: active again, counter cleared.
pub open spec fn recovered(a: AgentView) -> AgentView {
    AgentView { active: true, consecutive_failures: 0, ..a }
}

impl Clone for AutonomousAgent {
    fn clone(&self) -> (copy: Self)
        ensures
            copy == *self,
    {
        AutonomousAgent {
            name: self.name.clone(),
            role: self.role,
            active: self.active,
            consecutive_failures: self.consecutive_failures,
        }
    }
}

impl AutonomousAgent {
    pub fn new(name: String, role: AgentRole) -> (agent: Self)
        ensures
            agent@ == fresh_agent(name@, role),
    {
        AutonomousAgent { name, role, active: true, consecutive_failures: 0 }
    }

    pub fn mark_failure(&mut self)
        ensures
            final(self)@ == failed_once(old(self)@),
    {
        self.consecutive_failures = self.consecutive_failures.saturating_add(1);
        if self.consecutive_failures >= FAILURE_THRESHOLD {
            self.active = false;
        }
    }

    pub fn recover(&mut self)
        ensures
            final(self)@ == recovered(old(self)@),
    {
        self.active = true;
        self.consecutive_failures = 0;
    }

    pub fn is_healthy(&self) -> (healthy: bool)
        ensures
            healthy == agent_healthy(self@),
    {
        self.active && self.consecutive_failures < FAILURE_THRESHOLD
    }
}

/// A recovered agent is healthy, whatever its record was before.
pub proof fn lemma_recover_restores_health(a: AgentView)
    ensures
        agent_healthy(recovered(a)),
{
}

/// Three failure reports in a row take any agent out of rotation.
pub proof fn lemma_three_failures_deactivate(a: AgentView)
    ensures
        !agent_healthy(failed_once(failed_once(failed_once(a)))),
        !failed_once(failed_once(failed_once(a))).active,
{
}

/// A failure report never makes an unhealthy agent healthy.
pub proof fn lemma_failure_never_heals(a: AgentView)
    ensures
        agent_healthy(failed_once(a)) ==> agent_healthy(a),
{
}

} // verus!
