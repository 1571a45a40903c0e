//! Which authenticated client owns the server's tunnel: a new client
//! replaces the previous one, and a finished connection only clears the
//! slot if it still owns it.
use vstd::prelude::*;

verus! {

/// The server's single client slot, holding the owner's id and connection.
pub struct ClientSlot<C> {
    active: Option<(u64, C)>,
    next_id: u64,
}

impl<C> ClientSlot<C> {
    /// The id and connection of the client that owns the tunnel, if any.
    pub closed spec fn owner(&self) -> Option<(u64, C)> {
        self.active
    }

    /// The id the next admitted client receives.
    pub closed spec fn next(&self) -> u64 {
        self.next_id
    }

    /// An empty slot whose first client gets id 1.
    pub fn new() -> (s: Self)
        ensures
            s.owner() is None,
            s.next() == 1,
    {
        ClientSlot { active: None, next_id: 1 }
    }

    /// Gives the tunnel to a newly authenticated client; returns its id and
    /// the client it replaces, whose connection is to be closed.
    pub fn take_over(&mut self, connection: C) -> (r: (u64, Option<(u64, C)>))
        ensures
            r.0 == old(self).next(),
            r.1 == old(self).owner(),
            final(self).owner() == Some((r.0, connection)),
            final(self).next() == next_id_after(old(self).next()),
    {
        let id = self.next_id;
        self.next_id = if self.next_id == u64::MAX {
            0
        } else {
            self.next_id + 1
        };
        let previous = self.active.take();
        self.active = Some((id, connection));
        (id, previous)
    }

    /// Called when client `id`'s connection ends: clears the slot only if
    /// that client still owns it. Returns whether it did.
    pub fn release(&mut self, id: u64) -> (cleared: bool)
        ensures
            cleared == (old(self).owner() matches Some((owner, _)) && owner == id),
            cleared ==> final(self).owner() is None,
            !cleared ==> final(self).owner() == old(self).owner(),
            final(self).next() == old(self).next(),
    {
        let owns = match &self.active {
            Some((owner, _)) => *owner == id,
            None => false,
        };
        if owns {
            self.active = None;
        }
        owns
    }

    /// The id of the client that owns the tunnel, if any.
    pub fn owner_id(&self) -> (r: Option<u64>)
        ensures
            r == (match self.owner() {
                Some((id, _)) => Some(id),
                None => None,
            }),
    {
        match &self.active {
            Some((id, _)) => Some(*id),
            None => None,
        }
    }
}

/// The id handed out after `n`.
pub open spec fn next_id_after(n: u64) -> u64 {
    if n == u64::MAX {
        0
    } else {
        (n + 1) as u64
    }
}

/// The id handed out `k` takeovers after the one that handed out `n`.
pub open spec fn id_after(n: u64, k: nat) -> u64
    decreases k,
{
    if k == 0 {
        n
    } else {
        next_id_after(id_after(n, (k - 1) as nat))
    }
}

/// Each takeover hands out the id one more than the last, wrapping to 0
/// after `u64::MAX`: `k` takeovers later the id is `n + k` modulo 2^64.
pub proof fn lemma_id_after_counts(n: u64, k: nat)
    ensures
        id_after(n, k) == (n + k) % 0x1_0000_0000_0000_0000,
    decreases k,
{
    if k > 0 {
        lemma_id_after_counts(n, (k - 1) as nat);
        let m = id_after(n, (k - 1) as nat);
        let total: int = n + k - 1;
        assert(m == total % 0x1_0000_0000_0000_0000);
        assert(total >= 0);
        let q = total / 0x1_0000_0000_0000_0000;
        assert(total == q * 0x1_0000_0000_0000_0000 + m);
        if m == u64::MAX {
            assert(total + 1 == (q + 1) * 0x1_0000_0000_0000_0000);
            assert((total + 1) % 0x1_0000_0000_0000_0000 == 0) by (nonlinear_arith)
                requires
                    total + 1 == (q + 1) * 0x1_0000_0000_0000_0000,
                    q >= 0,
            ;
        } else {
            assert(total + 1 == q * 0x1_0000_0000_0000_0000 + (m + 1));
            assert((total + 1) % 0x1_0000_0000_0000_0000 == m + 1) by (nonlinear_arith)
                requires
                    total + 1 == q * 0x1_0000_0000_0000_0000 + (m + 1),
                    0 <= m + 1 < 0x1_0000_0000_0000_0000,
                    q >= 0,
            ;
        }
    }
}

/// Within 2^64 takeovers no id is handed out twice.
pub proof fn lemma_ids_distinct(n: u64, i: nat, j: nat)
    requires
        i < j < 0x1_0000_0000_0000_0000,
    ensures
        id_after(n, i) != id_after(n, j),
{
    lemma_id_after_counts(n, i);
    lemma_id_after_counts(n, j);
    let a: int = n + i;
    let b: int = n + j;
    assert(0 < b - a < 0x1_0000_0000_0000_0000);
    if a % 0x1_0000_0000_0000_0000 == b % 0x1_0000_0000_0000_0000 {
        assert(false) by (nonlinear_arith)
            requires
                a % 0x1_0000_0000_0000_0000 == b % 0x1_0000_0000_0000_0000,
                0 < b - a < 0x1_0000_0000_0000_0000,
                a >= 0,
        ;
    }
}

/// A client admitted `k` takeovers (1 to 2^64 - 1 of them) before the one
/// that owns the tunnel cannot clear the slot when its connection ends.
pub proof fn lemma_earlier_client_cannot_evict<C>(first_id: u64, k: nat, slot: ClientSlot<C>, c: C)
    requires
        1 <= k < 0x1_0000_0000_0000_0000,
        slot.owner() == Some((id_after(first_id, k), c)),
    ensures
        !(slot.owner() matches Some((owner, _)) && owner == first_id),
{
    lemma_ids_distinct(first_id, 0, k);
}

/// Two clients admitted one after the other get different ids, so when
/// the first one's connection ends after the second took over, the second
/// keeps the tunnel.
pub proof fn lemma_replaced_client_cannot_evict<C>(first_id: u64, slot: ClientSlot<C>, c: C)
    requires
        slot.owner() == Some((next_id_after(first_id), c)),
    ensures
        next_id_after(first_id) != first_id,
        !(slot.owner() matches Some((owner, _)) && owner == first_id),
{
}

} // verus!
