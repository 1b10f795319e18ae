use vstd::prelude::*;

verus! {

/// The counter after one more message: it saturates at `u16::MAX`, a value
/// that no limit of type `u16` exceeds.
pub open spec fn bump(n: u16) -> u16 {
    if n == u16::MAX {
        n
    } else {
        (n + 1) as u16
    }
}

/// The counter after `k` more messages.
pub open spec fn bumped(n: u16, k: nat) -> u16
    decreases k,
{
    if k == 0 {
        n
    } else {
        bump(bumped(n, (k - 1) as nat))
    }
}

/// Per-connection message quota: how many messages were seen in the current
/// minute, and how many are allowed.
pub struct Counter {
    count: u16,
    limit: u16,
}

impl Counter {
    pub closed spec fn count(&self) -> u16 {
        self.count
    }

    pub closed spec fn limit(&self) -> u16 {
        self.limit
    }

    /// A fresh counter at zero.
    pub fn new(limit: u16) -> (r: Counter)
        ensures
            r.count() == 0,
            r.limit() == limit,
    {
        Counter { count: 0, limit }
    }

    /// Charges one message to the quota.
    pub fn add(&mut self)
        ensures
            final(self).count() == bump(old(self).count()),
            final(self).limit() == old(self).limit(),
    {
        if self.count < u16::MAX {
            self.count = self.count + 1;
        }
    }

    /// Whether another message is still within the quota.
    pub fn check(&self) -> (r: bool)
        ensures
            r == (self.count() < self.limit()),
    {
        self.count < self.limit
    }

    /// Starts a new minute: the count drops to zero.
    pub fn reset(&mut self)
        ensures
            final(self).count() == 0,
            final(self).limit() == old(self).limit(),
    {
        self.count = 0;
    }
}

/// After `k` messages from zero the count is `k`, or `u16::MAX` once `k`
/// reaches it.
pub proof fn lemma_bumped_from_zero(k: nat)
    ensures
        bumped(0, k) == if k < u16::MAX { k } else { u16::MAX as nat },
    decreases k,
{
    if k > 0 {
        lemma_bumped_from_zero((k - 1) as nat);
    }
}

/// Within one minute, starting from a reset, the quota admits exactly the
/// first `limit` messages: after `k` charges `check` holds iff `k < limit`.
pub proof fn lemma_quota_admits_first_limit(limit: u16, k: nat)
    ensures
        (bumped(0, k) < limit) <==> (k < limit),
{
    lemma_bumped_from_zero(k);
}

} // verus!
