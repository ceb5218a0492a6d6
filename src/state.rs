use vstd::prelude::*;

verus! {

/// Whether `t` is the ticket of some registration in `ws`.
pub open spec fn has_ticket<W>(ws: Seq<(u64, W)>, t: u64) -> bool {
    exists|i: int| 0 <= i < ws.len() && (#[trigger] ws[i]).0 == t
}

/// No two registrations in `ws` share a ticket.
pub open spec fn tickets_distinct<W>(ws: Seq<(u64, W)>) -> bool {
    forall|i: int, j: int|
        0 <= i < ws.len() && 0 <= j < ws.len() && i != j ==> (#[trigger] ws[i]).0 != (#[trigger] ws[j]).0
}

/// The tokens of `ws`, in registration order.
pub open spec fn tokens_of<W>(ws: Seq<(u64, W)>) -> Seq<W> {
    ws.map_values(|p: (u64, W)| p.1)
}

/// `after` is `before` once the waiter holding `ticket` has registered
/// `token`: its earlier registration is replaced in place, or the new one is
/// appended when it had none.
pub open spec fn registered<W>(before: Seq<(u64, W)>, after: Seq<(u64, W)>, ticket: u64, token: W) -> bool {
    if has_ticket(before, ticket) {
        exists|i: int|
            0 <= i < before.len() && (#[trigger] before[i]).0 == ticket && after == before.update(i, (ticket, token))
    } else {
        after == before.push((ticket, token))
    }
}

/// A per-key wakeup cell: a monotonic "is set" flag and a registry of
/// interested waiters, each identified by a ticket.
///
/// Registering again under a ticket replaces that ticket's token only, so a
/// transition to "set" hands back every distinct waiter, never just the last.
pub struct EntryState<W> {
    is_set: bool,
    waiters: Vec<(u64, W)>,
}

impl<W> EntryState<W> {
    #[verifier::type_invariant]
    spec fn inv(self) -> bool {
        tickets_distinct(self.waiters@)
    }

    /// Whether the key's value has been published.
    pub closed spec fn flag(self) -> bool {
        self.is_set
    }

    /// The registrations currently held, oldest first.
    pub closed spec fn waiters(self) -> Seq<(u64, W)> {
        self.waiters@
    }

    pub fn new() -> (r: Self)
        ensures
            !r.flag(),
            r.waiters() == Seq::<(u64, W)>::empty(),
    {
        EntryState { is_set: false, waiters: Vec::new() }
    }

    pub fn is_set(&self) -> (r: bool)
        ensures
            r == self.flag(),
    {
        self.is_set
    }

    /// Records that the waiter holding `ticket` wants to be woken through
    /// `token` on the next transition, or on the one that already occurred:
    /// the next `wake` hands it back either way. A registration under the
    /// same ticket is replaced in place; other registrations are kept.
    pub fn register(&mut self, ticket: u64, token: W)
        ensures
            final(self).flag() == old(self).flag(),
            registered(old(self).waiters(), final(self).waiters(), ticket, token),
    {
        proof {
            use_type_invariant(&*self);
        }
        let n = self.waiters.len();
        let mut i: usize = 0;
        while i < n
            invariant
                n == self.waiters@.len(),
                0 <= i <= n,
                self.waiters@ == old(self).waiters@,
                self.is_set == old(self).is_set,
                tickets_distinct(self.waiters@),
                forall|k: int| 0 <= k < i ==> (#[trigger] self.waiters@[k]).0 != ticket,
            decreases n - i,
        {
            if self.waiters[i].0 == ticket {
                let mut ws = Vec::new();
                std::mem::swap(&mut ws, &mut self.waiters);
                let ghost before = ws@;
                ws.set(i, (ticket, token));
                assert(ws@ == before.update(i as int, (ticket, token)));
                assert(tickets_distinct(ws@));
                self.waiters = ws;
                return ;
            }
            i = i + 1;
        }
        let mut ws = Vec::new();
        std::mem::swap(&mut ws, &mut self.waiters);
        ws.push((ticket, token));
        assert(tickets_distinct(ws@));
        self.waiters = ws;
    }

    /// Sets the flag (idempotent) and hands back the tokens of every waiter
    /// registered so far, in registration order, leaving none behind.
    pub fn wake(&mut self) -> (r: Vec<W>)
        ensures
            final(self).flag(),
            final(self).waiters() == Seq::<(u64, W)>::empty(),
            r@ == tokens_of(old(self).waiters()),
    {
        proof {
            use_type_invariant(&*self);
        }
        let mut ws = Vec::new();
        std::mem::swap(&mut ws, &mut self.waiters);
        self.is_set = true;
        let mut r: Vec<W> = Vec::new();
        let ghost old_ws = ws@;
        while ws.len() > 0
            invariant
                r@ + tokens_of(ws@) == tokens_of(old_ws),
            decreases ws.len(),
        {
            let (_, token) = ws.remove(0);
            r.push(token);
        }
        r
    }
}

} // verus!
