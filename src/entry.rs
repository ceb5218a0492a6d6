use vstd::prelude::*;

use crate::state::{registered, tokens_of, EntryState};

verus! {

/// Why an insert was refused.
#[derive(Debug, Clone, Copy, PartialEq, Eq, Structural)]
pub enum InsertError {
    /// The key already holds a value, which is left as it was.
    AlreadySet,
}

/// The next ticket after `t`; the counter stops at the largest `u64`.
pub open spec fn ticket_after(t: u64) -> u64 {
    if t < u64::MAX {
        (t + 1) as u64
    } else {
        t
    }
}

/// One key's storage: the value, written at most once, the key's
/// notification state, and the counter that tells its subscribers apart.
pub struct Entry<V, W> {
    value: Option<V>,
    state: EntryState<W>,
    next_ticket: u64,
}

impl<V, W> Entry<V, W> {
    /// The flag is set exactly when the value is present.
    #[verifier::type_invariant]
    spec fn inv(self) -> bool {
        &&& self.value.is_some() == self.state.flag()
        &&& self.state.flag() ==> self.state.waiters().len() == 0
    }

    /// The stored value, if any.
    pub closed spec fn value(self) -> Option<V> {
        self.value
    }

    /// The waiters registered for the key and not yet woken.
    pub closed spec fn waiters(self) -> Seq<(u64, W)> {
        self.state.waiters()
    }

    /// The ticket that the next subscriber receives.
    pub closed spec fn next_ticket(self) -> u64 {
        self.next_ticket
    }

    /// A slot with no value, no waiters and no ticket issued.
    pub open spec fn is_fresh(self) -> bool {
        &&& self.value() is None
        &&& self.waiters() == Seq::<(u64, W)>::empty()
        &&& self.next_ticket() == 0
    }

    pub fn new() -> (r: Self)
        ensures
            r.is_fresh(),
    {
        Entry { value: None, state: EntryState::new(), next_ticket: 0 }
    }

    /// The slot found in a map, or a fresh one where there was none.
    pub fn found_or_new(found: Option<Self>) -> (r: Self)
        ensures
            found is Some ==> r == found.unwrap(),
            found is None ==> r.is_fresh(),
    {
        match found {
            Some(s) => s,
            None => Entry::new(),
        }
    }

    pub fn is_set(&self) -> (r: bool)
        ensures
            r == self.value().is_some(),
    {
        proof {
            use_type_invariant(self);
        }
        self.state.is_set()
    }

    /// Hands out a ticket for a new subscriber.
    pub fn issue_ticket(&mut self) -> (t: u64)
        ensures
            t == old(self).next_ticket(),
            final(self).next_ticket() == ticket_after(old(self).next_ticket()),
            final(self).value() == old(self).value(),
            final(self).waiters() == old(self).waiters(),
    {
        proof {
            use_type_invariant(&*self);
        }
        let t = self.next_ticket;
        if t < u64::MAX {
            self.next_ticket = t + 1;
        }
        t
    }

    /// Registers `token` for the subscriber holding `ticket`. Where the
    /// value is already present, nothing is recorded and `token` is handed
    /// straight back, to be woken now.
    pub fn register(&mut self, ticket: u64, token: W) -> (r: Option<W>)
        ensures
            final(self).value() == old(self).value(),
            final(self).next_ticket() == old(self).next_ticket(),
            old(self).value() is Some ==> r == Some(token) && final(self).waiters() == old(self).waiters(),
            old(self).value() is None ==> r is None && registered(
                old(self).waiters(),
                final(self).waiters(),
                ticket,
                token,
            ),
    {
        proof {
            use_type_invariant(&*self);
        }
        if self.value.is_some() {
            return Some(token);
        }
        let mut state = EntryState::new();
        std::mem::swap(&mut state, &mut self.state);
        state.register(ticket, token);
        self.state = state;
        None
    }

    /// Stores `v` if the slot has no value yet, and hands back the tokens of
    /// every registered waiter, to be woken. A slot that already holds a
    /// value is left unchanged.
    pub fn fill(&mut self, v: V) -> (r: Result<Vec<W>, InsertError>)
        ensures
            old(self).value() is Some ==> r == Err::<Vec<W>, InsertError>(InsertError::AlreadySet)
                && *final(self) == *old(self),
            old(self).value() is None ==> r is Ok && r.unwrap()@ == tokens_of(old(self).waiters())
                && final(self).value() == Some(v) && final(self).waiters() == Seq::<(u64, W)>::empty()
                && final(self).next_ticket() == old(self).next_ticket(),
    {
        proof {
            use_type_invariant(&*self);
        }
        if self.value.is_some() {
            return Err(InsertError::AlreadySet);
        }
        let mut state = EntryState::new();
        std::mem::swap(&mut state, &mut self.state);
        let woken = state.wake();
        *self = Entry { value: Some(v), state, next_ticket: self.next_ticket };
        Ok(woken)
    }
}

/// The value that a map held under a key, given what it held there
/// (`None` where it held nothing).
pub open spec fn found_value<V, W>(found: Option<Entry<V, W>>) -> Option<V> {
    match found {
        Some(s) => s.value(),
        None => None,
    }
}

/// The waiters registered under a key, given what a map held there.
pub open spec fn found_waiters<V, W>(found: Option<Entry<V, W>>) -> Seq<(u64, W)> {
    match found {
        Some(s) => s.waiters(),
        None => Seq::empty(),
    }
}

/// The next ticket of a key, given what a map held there.
pub open spec fn found_next_ticket<V, W>(found: Option<Entry<V, W>>) -> u64 {
    match found {
        Some(s) => s.next_ticket(),
        None => 0,
    }
}

/// `r` is the slot and the ticket after subscribing, on `found`: the ticket
/// is the slot's next one, and the counter moves on.
pub open spec fn subscribed<V, W>(found: Option<Entry<V, W>>, r: (Entry<V, W>, u64)) -> bool {
    &&& r.1 == found_next_ticket(found)
    &&& r.0.next_ticket() == ticket_after(found_next_ticket(found))
    &&& r.0.value() == found_value(found)
    &&& r.0.waiters() == found_waiters(found)
}

/// `r` is the slot and the outcome after inserting `v`, on `found`: an
/// empty slot takes `v` and hands back the token of every waiter, in
/// registration order; an occupied one refuses and keeps its value.
pub open spec fn inserted<V, W>(
    found: Option<Entry<V, W>>,
    v: V,
    r: (Entry<V, W>, Result<Vec<W>, InsertError>),
) -> bool {
    &&& r.0.next_ticket() == found_next_ticket(found)
    &&& found_value(found) is Some ==> {
        &&& r.1 == Err::<Vec<W>, InsertError>(InsertError::AlreadySet)
        &&& r.0.value() == found_value(found)
        &&& r.0.waiters() == found_waiters(found)
    }
    &&& found_value(found) is None ==> {
        &&& r.1 is Ok
        &&& r.1.unwrap()@ == tokens_of(found_waiters(found))
        &&& r.0.value() == Some(v)
        &&& r.0.waiters() == Seq::<(u64, W)>::empty()
    }
}

/// `r` is the slot and the outcome after the subscriber holding `ticket`
/// registers `token` and then re-reads, on `found`: where the value is
/// present it gets a copy and nothing is recorded; otherwise it gets nothing
/// and its registration is recorded.
pub open spec fn polled<V: Clone, W>(
    found: Option<Entry<V, W>>,
    ticket: u64,
    token: W,
    r: (Entry<V, W>, Option<V>),
) -> bool {
    &&& r.0.next_ticket() == found_next_ticket(found)
    &&& r.0.value() == found_value(found)
    &&& r.1 is Some == found_value(found) is Some
    &&& r.1 is Some ==> cloned(found_value(found).unwrap(), r.1.unwrap())
    &&& found_value(found) is Some ==> r.0.waiters() == found_waiters(found)
    &&& found_value(found) is None ==> registered(found_waiters(found), r.0.waiters(), ticket, token)
}

/// `r` is the slot, unchanged, and what a read of `found` hands back: a
/// copy of the value where there is one, and nothing otherwise.
pub open spec fn read_from<V: Clone, W>(found: Option<Entry<V, W>>, r: (Entry<V, W>, Option<V>)) -> bool {
    &&& r.0.next_ticket() == found_next_ticket(found)
    &&& r.0.value() == found_value(found)
    &&& r.0.waiters() == found_waiters(found)
    &&& r.1 is Some == found_value(found) is Some
    &&& r.1 is Some ==> cloned(found_value(found).unwrap(), r.1.unwrap())
}

impl<V, W> Entry<V, W> {
    /// Subscribing, on what a map held under the key: the slot is created
    /// where absent and the subscriber gets the next ticket from it.
    pub fn subscribe_step(found: Option<Self>) -> (r: (Self, u64))
        ensures
            subscribed(found, r),
    {
        let mut s = Entry::found_or_new(found);
        let t = s.issue_ticket();
        (s, t)
    }

    /// Inserting `v`, on what a map held under the key: the slot is created
    /// where absent, then filled; an occupied slot is kept as it was.
    pub fn insert_step(found: Option<Self>, v: V) -> (r: (Self, Result<Vec<W>, InsertError>))
        ensures
            inserted(found, v, r),
    {
        let mut s = Entry::found_or_new(found);
        let r = s.fill(v);
        (s, r)
    }
}

impl<V: Clone, W> Entry<V, W> {
    /// A copy of the value, if the slot holds one.
    pub fn read(&self) -> (r: Option<V>)
        ensures
            r is Some == self.value() is Some,
            r is Some ==> cloned(self.value().unwrap(), r.unwrap()),
    {
        match &self.value {
            Some(v) => Some(v.clone()),
            None => None,
        }
    }

    /// Registering `token` for the subscriber holding `ticket`, then
    /// reading again, on what a map held under the key. The re-read catches
    /// a value stored before the registration, whose waking went to the
    /// waiters registered then.
    pub fn poll_step(found: Option<Self>, ticket: u64, token: W) -> (r: (Self, Option<V>))
        ensures
            polled(found, ticket, token, r),
    {
        let mut s = Entry::found_or_new(found);
        // A token handed back means the value is already here: the re-read
        // returns it, so there is nobody to wake.
        let _ = s.register(ticket, token);
        let v = s.read();
        (s, v)
    }

    /// Reading the value, on what a map held under the key.
    pub fn read_step(found: Option<Self>) -> (r: (Self, Option<V>))
        ensures
            read_from(found, r),
    {
        let s = Entry::found_or_new(found);
        let v = s.read();
        (s, v)
    }
}

} // verus!
