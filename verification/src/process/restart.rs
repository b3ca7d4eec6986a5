//! Restart policy and crash counter management.

use vstd::prelude::*;

verus! {

/// Maximum number of retries before giving up.
pub const MAX_RETRIES: u8 = 5;

/// Tracks crash count and determines whether a process should be restarted.
#[derive(Debug)]
pub struct RestartPolicy {
    crash_count: u8,
    max_retries: u8,
}

impl RestartPolicy {
    /// Crashes recorded so far.
    pub closed spec fn crashes(&self) -> nat {
        self.crash_count as nat
    }

    /// Every policy retries up to `MAX_RETRIES` crashes.
    #[verifier::type_invariant]
    spec fn retries_fixed(&self) -> bool {
        self.max_retries == MAX_RETRIES
    }

    pub fn new() -> (p: Self)
        ensures
            p.crashes() == 0,
    {
        Self { crash_count: 0, max_retries: MAX_RETRIES }
    }

    /// Record a crash. Returns `true` if the process should be retried,
    /// `false` if the maximum retry count has been reached.
    pub fn record_crash(&mut self) -> (retry: bool)
        requires
            old(self).crashes() < 255,
        ensures
            final(self).crashes() == old(self).crashes() + 1,
            retry == (final(self).crashes() <= MAX_RETRIES),
    {
        proof {
            use_type_invariant(&*self);
        }
        self.crash_count += 1;
        self.crash_count <= self.max_retries
    }

    /// Reset the crash counter (e.g. after a successful manual stop/start).
    pub fn reset(&mut self)
        ensures
            final(self).crashes() == 0,
    {
        proof {
            use_type_invariant(&*self);
        }
        self.crash_count = 0;
    }

    /// Current number of crashes recorded.
    pub fn crash_count(&self) -> (n: u8)
        ensures
            n == self.crashes(),
    {
        self.crash_count
    }

    /// Whether the policy has exhausted all retries.
    pub fn is_exhausted(&self) -> (b: bool)
        ensures
            b == (self.crashes() >= MAX_RETRIES),
    {
        proof {
            use_type_invariant(self);
        }
        self.crash_count >= self.max_retries
    }

    /// `Default`: the same policy as `new`.
    pub fn default() -> (p: Self)
        ensures
            p.crashes() == 0,
    {
        Self::new()
    }
}

} // verus!
