//! Intent-based routing between a mandatory primary pool and an optional read
//! replica, with passive replica-health evaluation and a cool-down window.

use vstd::prelude::*;

verus! {

/// A caller-declared, per-statement hint: does the statement read or write?
#[derive(Clone, Copy, PartialEq, Eq, Structural, Debug)]
pub enum QueryIntent {
    Read,
    Write,
}

/// Which of the two configured pools a statement is routed to.
#[derive(Clone, Copy, PartialEq, Eq, Structural, Debug)]
pub enum PoolChoice {
    Primary,
    Replica,
}

/// Health of the replica as last observed. A fresh manager starts at
/// `Unknown`, which routes optimistically: the replica is tried until a
/// statement against it fails. `Unhealthy` records when the failure was
/// observed, so that the replica is left alone for a cool-down window.
#[derive(Clone, Copy, PartialEq, Eq, Structural, Debug)]
pub enum HealthStatus {
    Unknown,
    Healthy,
    Unhealthy { since_ms: u64 },
}

/// Outcome of one read statement that the caller executed against the pool
/// this manager chose. A statement timeout counts as `Failed`, exactly like a
/// query error.
#[derive(Clone, Copy, PartialEq, Eq, Structural, Debug)]
pub enum ReadOutcome {
    Succeeded,
    Failed,
}

/// Routing state over one primary pool and zero-or-one replica pool. The pool
/// handles themselves live with the caller; this type owns the routing policy
/// and the replica-health state machine.
pub struct PoolManager {
    /// Whether a replica pool was successfully established at startup.
    pub replica_configured: bool,
    /// Health of the replica, as last observed.
    pub replica_health: HealthStatus,
    /// How long a failed replica is left alone before reads try it again.
    pub cooldown_ms: u64,
}

impl PoolManager {
    /// The replica may serve a read at time `now_ms`: it is configured and is
    /// not inside the cool-down window that a failure opened.
    pub open spec fn spec_replica_usable(self, now_ms: u64) -> bool {
        self.replica_configured && match self.replica_health {
            HealthStatus::Unknown => true,
            HealthStatus::Healthy => true,
            HealthStatus::Unhealthy { since_ms } => since_ms + self.cooldown_ms <= now_ms,
        }
    }

    /// The routing policy: writes always go to the primary; a read goes to
    /// the replica exactly when one is configured and currently usable.
    pub open spec fn spec_route(self, intent: QueryIntent, now_ms: u64) -> PoolChoice {
        match intent {
            QueryIntent::Write => PoolChoice::Primary,
            QueryIntent::Read => if self.spec_replica_usable(now_ms) {
                PoolChoice::Replica
            } else {
                PoolChoice::Primary
            },
        }
    }

    /// Build the routing state. `replica_configured` says whether a replica
    /// pool could be established; replica absence is not an error. Health
    /// starts at `Unknown`, so a configured replica is tried optimistically.
    pub fn new(replica_configured: bool, cooldown_ms: u64) -> (m: Self)
        ensures
            m.replica_configured == replica_configured,
            m.replica_health == HealthStatus::Unknown,
            m.cooldown_ms == cooldown_ms,
    {
        PoolManager { replica_configured, replica_health: HealthStatus::Unknown, cooldown_ms }
    }

    /// Whether a replica is configured, for observability at startup.
    pub fn replica(&self) -> (r: bool)
        ensures
            r == self.replica_configured,
    {
        self.replica_configured
    }

    /// Choose the pool for one statement, per call, with no session
    /// stickiness. Writes never see the replica; reads fall back to the
    /// primary whenever the replica is absent or unhealthy.
    pub fn get_pool(&self, intent: QueryIntent, now_ms: u64) -> (c: PoolChoice)
        ensures
            c == self.spec_route(intent, now_ms),
            intent == QueryIntent::Write ==> c == PoolChoice::Primary,
            !self.replica_configured ==> c == PoolChoice::Primary,
    {
        match intent {
            QueryIntent::Write => PoolChoice::Primary,
            QueryIntent::Read => {
                if self.replica_usable(now_ms) {
                    PoolChoice::Replica
                } else {
                    PoolChoice::Primary
                }
            },
        }
    }

    /// Executable form of `spec_replica_usable`.
    pub fn replica_usable(&self, now_ms: u64) -> (r: bool)
        ensures
            r == self.spec_replica_usable(now_ms),
    {
        self.replica_configured && match self.replica_health {
            HealthStatus::Unknown => true,
            HealthStatus::Healthy => true,
            HealthStatus::Unhealthy { since_ms } => {
                now_ms >= since_ms && now_ms - since_ms >= self.cooldown_ms
            },
        }
    }

    /// Record a failed statement against the replica: the replica becomes
    /// `Unhealthy` and reads avoid it until the cool-down elapses.
    pub fn record_replica_failure(&mut self, now_ms: u64)
        ensures
            final(self).replica_health == (HealthStatus::Unhealthy { since_ms: now_ms }),
            final(self).replica_configured == old(self).replica_configured,
            final(self).cooldown_ms == old(self).cooldown_ms,
    {
        self.replica_health = HealthStatus::Unhealthy { since_ms: now_ms };
    }

    /// Record a successful statement against the replica: health is restored.
    pub fn record_replica_success(&mut self)
        ensures
            final(self).replica_health == HealthStatus::Healthy,
            final(self).replica_configured == old(self).replica_configured,
            final(self).cooldown_ms == old(self).cooldown_ms,
    {
        self.replica_health = HealthStatus::Healthy;
    }

    /// Digest the outcome of one read statement. A read that failed on the
    /// replica flags the replica unhealthy and is retried exactly once, on
    /// the primary; a read that succeeded on the replica restores its health;
    /// a primary outcome changes nothing and is never retried here — the
    /// error, if any, is surfaced to the caller.
    pub fn on_read_result(
        &mut self,
        served_by: PoolChoice,
        outcome: ReadOutcome,
        now_ms: u64,
    ) -> (retry_on: Option<PoolChoice>)
        ensures
            final(self).replica_configured == old(self).replica_configured,
            final(self).cooldown_ms == old(self).cooldown_ms,
            served_by == PoolChoice::Primary ==> *final(self) == *old(self) && retry_on.is_none(),
            served_by == PoolChoice::Replica && outcome == ReadOutcome::Failed ==> {
                &&& final(self).replica_health == (HealthStatus::Unhealthy { since_ms: now_ms })
                &&& retry_on == Some(PoolChoice::Primary)
            },
            served_by == PoolChoice::Replica && outcome == ReadOutcome::Succeeded ==> {
                &&& final(self).replica_health == HealthStatus::Healthy
                &&& retry_on.is_none()
            },
    {
        match (served_by, outcome) {
            (PoolChoice::Replica, ReadOutcome::Failed) => {
                self.record_replica_failure(now_ms);
                Some(PoolChoice::Primary)
            },
            (PoolChoice::Replica, ReadOutcome::Succeeded) => {
                self.record_replica_success();
                None
            },
            (PoolChoice::Primary, _) => None,
        }
    }
}

/// Law: a Write-intent call is routed to the primary, whatever the replica
/// configuration or health.
pub proof fn lemma_write_routes_to_primary(m: PoolManager, now_ms: u64)
    ensures
        m.spec_route(QueryIntent::Write, now_ms) == PoolChoice::Primary,
{
}

/// Law: without a configured replica, every call — either intent — is routed
/// to the primary.
pub proof fn lemma_no_replica_routes_to_primary(m: PoolManager, intent: QueryIntent, now_ms: u64)
    requires
        !m.replica_configured,
    ensures
        m.spec_route(intent, now_ms) == PoolChoice::Primary,
{
}

/// Law: a configured, healthy replica serves reads.
pub proof fn lemma_healthy_replica_serves_reads(m: PoolManager, now_ms: u64)
    requires
        m.replica_configured,
        m.replica_health == HealthStatus::Healthy || m.replica_health == HealthStatus::Unknown,
    ensures
        m.spec_route(QueryIntent::Read, now_ms) == PoolChoice::Replica,
{
}

/// Law (failover with cool-down): after a replica failure at `since_ms`,
/// reads are routed to the primary until the cool-down has elapsed, and back
/// to the replica from then on.
pub proof fn lemma_replica_cooldown(m: PoolManager, since_ms: u64, now_ms: u64)
    requires
        m.replica_configured,
        m.replica_health == (HealthStatus::Unhealthy { since_ms }),
    ensures
        now_ms < since_ms + m.cooldown_ms ==> m.spec_route(QueryIntent::Read, now_ms)
            == PoolChoice::Primary,
        now_ms >= since_ms + m.cooldown_ms ==> m.spec_route(QueryIntent::Read, now_ms)
            == PoolChoice::Replica,
{
}

} // verus!
