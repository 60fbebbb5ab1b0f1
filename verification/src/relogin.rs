//! Restoring an expired login during a task: at most one new login per
//! task, shared by all the task's workers.
use vstd::prelude::*;

verus! {

/// What to do when an operation of a task met an expired login.
#[derive(Clone, Copy, Debug, PartialEq, Eq, Structural)]
pub enum ReloginDecision {
    /// Pass the expiry on: restoring is switched off.
    GiveUp,
    /// Another worker already logged in again: repeat the operation with
    /// the shared session, without a second login.
    Retry,
    /// Log in again, enter the batch again, then repeat the operation.
    LoginThenRetry,
}

/// The task's record of whether it may and did log in again.
#[derive(Clone, Copy, Debug)]
pub struct ReloginAllowance {
    pub enabled: bool,
    pub used: bool,
}

/// The allowance after one expired login, with the resulting decision.
pub open spec fn after_expiry(g: ReloginAllowance) -> (ReloginAllowance, ReloginDecision) {
    if !g.enabled {
        (g, ReloginDecision::GiveUp)
    } else if g.used {
        (g, ReloginDecision::Retry)
    } else {
        (ReloginAllowance { used: true, ..g }, ReloginDecision::LoginThenRetry)
    }
}

/// How many new logins `n` successive expiries decide.
pub open spec fn logins_after(g: ReloginAllowance, n: nat) -> nat
    decreases n,
{
    if n == 0 {
        0
    } else {
        let (h, d) = after_expiry(g);
        (if d == ReloginDecision::LoginThenRetry { 1nat } else { 0nat }) + logins_after(h, (n - 1) as nat)
    }
}

impl ReloginAllowance {
    /// An allowance for a new task.
    pub fn new(enabled: bool) -> (r: ReloginAllowance)
        ensures
            r.enabled == enabled,
            !r.used,
    {
        ReloginAllowance { enabled, used: false }
    }

    /// The decision on an expired login: give up where restoring is off;
    /// repeat with the shared session where the allowance is spent;
    /// otherwise log in again and spend the allowance.
    pub fn on_expired(&mut self) -> (r: ReloginDecision)
        ensures
            (*final(self), r) == after_expiry(*old(self)),
    {
        if !self.enabled {
            return ReloginDecision::GiveUp;
        }
        if self.used {
            return ReloginDecision::Retry;
        }
        self.used = true;
        ReloginDecision::LoginThenRetry
    }
}

/// However many expired logins are met, the allowance orders at most one
/// new login; a spent allowance orders none.
pub proof fn lemma_one_login(g: ReloginAllowance, n: nat)
    ensures
        logins_after(g, n) <= 1,
        g.used ==> logins_after(g, n) == 0,
    decreases n,
{
    if n > 0 {
        let (h, d) = after_expiry(g);
        lemma_one_login(h, (n - 1) as nat);
    }
}

} // verus!
