//! What holds of a key across several steps on its slot. Every step on a key
//! runs while the map holds that key's lock, so these sequences are exactly
//! what concurrent callers of one key can produce.
use vstd::prelude::*;

use crate::state::{registered, tokens_of};
use crate::entry::{
    found_next_ticket, found_value, found_waiters, inserted, polled, read_from, subscribed,
    InsertError, Entry,
};

verus! {

/// The token of every registration held is among the tokens handed back
/// for waking.
proof fn lemma_token_listed<W>(ws: Seq<(u64, W)>, p: (u64, W))
    requires
        ws.contains(p),
    ensures
        tokens_of(ws).contains(p.1),
{
    let i = choose|i: int| 0 <= i < ws.len() && ws[i] == p;
    assert(tokens_of(ws)[i] == p.1);
}

/// After a registration, it is held.
proof fn lemma_registration_held<W>(before: Seq<(u64, W)>, after: Seq<(u64, W)>, ticket: u64, token: W)
    requires
        registered(before, after, ticket, token),
    ensures
        after.contains((ticket, token)),
{
    if crate::state::has_ticket(before, ticket) {
        let i = choose|i: int|
            0 <= i < before.len() && (#[trigger] before[i]).0 == ticket && after == before.update(
                i,
                (ticket, token),
            );
        assert(after[i] == (ticket, token));
    } else {
        assert(after[before.len() as int] == (ticket, token));
    }
}

/// Registering under one ticket keeps every registration held under
/// another: a new waiter never pushes out an earlier one.
pub proof fn lemma_registration_kept<W>(
    before: Seq<(u64, W)>,
    after: Seq<(u64, W)>,
    ticket: u64,
    token: W,
    other: (u64, W),
)
    requires
        registered(before, after, ticket, token),
        before.contains(other),
        other.0 != ticket,
    ensures
        after.contains(other),
{
    let j = choose|j: int| 0 <= j < before.len() && before[j] == other;
    if crate::state::has_ticket(before, ticket) {
        let i = choose|i: int|
            0 <= i < before.len() && (#[trigger] before[i]).0 == ticket && after == before.update(
                i,
                (ticket, token),
            );
        assert(after[j] == other);
    } else {
        assert(after[j] == other);
    }
}

/// A key that was never inserted stays pending: a subscriber's poll and a
/// read of it find nothing, and subscribing, polling and reading all leave
/// it without a value.
pub proof fn lemma_pending_until_inserted<V: Clone, W>(
    found: Option<Entry<V, W>>,
    sub: (Entry<V, W>, u64),
    ticket: u64,
    token: W,
    pol: (Entry<V, W>, Option<V>),
    rd: (Entry<V, W>, Option<V>),
)
    requires
        found_value(found) is None,
        subscribed(found, sub),
        polled(found, ticket, token, pol),
        read_from(found, rd),
    ensures
        pol.1 is None,
        rd.1 is None,
        sub.0.value() is None,
        pol.0.value() is None,
        rd.0.value() is None,
{
}

/// A value inserted under a key is what a later subscriber reads at once, as
/// a copy of it.
pub proof fn lemma_insert_then_subscribe<V: Clone, W>(
    found: Option<Entry<V, W>>,
    v: V,
    ins: (Entry<V, W>, Result<Vec<W>, InsertError>),
    sub: (Entry<V, W>, u64),
    rd: (Entry<V, W>, Option<V>),
)
    requires
        found_value(found) is None,
        inserted(found, v, ins),
        subscribed(Some(ins.0), sub),
        read_from(Some(sub.0), rd),
    ensures
        ins.1 is Ok,
        rd.1 is Some,
        cloned(v, rd.1.unwrap()),
{
}

/// A subscriber whose registration comes after the insert finds the value
/// on the re-read that follows its registration.
pub proof fn lemma_late_poll_finds_value<V: Clone, W>(
    found: Option<Entry<V, W>>,
    v: V,
    ins: (Entry<V, W>, Result<Vec<W>, InsertError>),
    ticket: u64,
    token: W,
    pol: (Entry<V, W>, Option<V>),
)
    requires
        found_value(found) is None,
        inserted(found, v, ins),
        polled(Some(ins.0), ticket, token, pol),
    ensures
        pol.1 is Some,
        cloned(v, pol.1.unwrap()),
{
}

/// A subscriber whose poll came before the insert is among those the insert
/// wakes, and its next read hands back the value.
pub proof fn lemma_pending_poll_woken<V: Clone, W>(
    found: Option<Entry<V, W>>,
    ticket: u64,
    token: W,
    pol: (Entry<V, W>, Option<V>),
    v: V,
    ins: (Entry<V, W>, Result<Vec<W>, InsertError>),
    rd: (Entry<V, W>, Option<V>),
)
    requires
        found_value(found) is None,
        polled(found, ticket, token, pol),
        inserted(Some(pol.0), v, ins),
        read_from(Some(ins.0), rd),
    ensures
        pol.1 is None,
        ins.1 is Ok,
        ins.1.unwrap()@.contains(token),
        rd.1 is Some,
        cloned(v, rd.1.unwrap()),
{
    lemma_registration_held(found_waiters(found), pol.0.waiters(), ticket, token);
    lemma_token_listed(pol.0.waiters(), (ticket, token));
}

/// A second insert under a key is refused with `AlreadySet`, and the first
/// value stays the one that readers get.
pub proof fn lemma_second_insert_refused<V: Clone, W>(
    found: Option<Entry<V, W>>,
    v1: V,
    first: (Entry<V, W>, Result<Vec<W>, InsertError>),
    v2: V,
    second: (Entry<V, W>, Result<Vec<W>, InsertError>),
    rd: (Entry<V, W>, Option<V>),
)
    requires
        found_value(found) is None,
        inserted(found, v1, first),
        inserted(Some(first.0), v2, second),
        read_from(Some(second.0), rd),
    ensures
        first.1 is Ok,
        second.1 == Err::<Vec<W>, InsertError>(InsertError::AlreadySet),
        second.0.value() == Some(v1),
        rd.1 is Some,
        cloned(v1, rd.1.unwrap()),
{
}

/// The insert wakes every waiter registered for the key, not only the
/// latest, and every read after it hands back the value.
pub proof fn lemma_insert_wakes_all<V: Clone, W>(
    found: Option<Entry<V, W>>,
    v: V,
    ins: (Entry<V, W>, Result<Vec<W>, InsertError>),
    rd: (Entry<V, W>, Option<V>),
)
    requires
        found_value(found) is None,
        inserted(found, v, ins),
        read_from(Some(ins.0), rd),
    ensures
        ins.1 is Ok,
        forall|p: (u64, W)| found_waiters(found).contains(p) ==> ins.1.unwrap()@.contains(p.1),
        rd.1 is Some,
        cloned(v, rd.1.unwrap()),
{
    assert forall|p: (u64, W)| found_waiters(found).contains(p) implies ins.1.unwrap()@.contains(p.1) by {
        lemma_token_listed(found_waiters(found), p);
    }
}

/// `states` runs through subscriptions to one key: step `i` subscribes on
/// `states[i]`, leaves `states[i + 1]` and hands out `tickets[i]`.
pub open spec fn subscribe_run<V, W>(states: Seq<Entry<V, W>>, tickets: Seq<u64>) -> bool {
    &&& states.len() == tickets.len() + 1
    &&& forall|i: int|
        #![trigger tickets[i]]
        0 <= i < tickets.len() ==> subscribed(Some(states[i]), (states[i + 1], tickets[i]))
}

/// `states` runs through polls of one key: step `i` is the poll of the
/// subscriber holding `tickets[i]` with `tokens[i]`, on `states[i]`; it
/// leaves `states[i + 1]` and returns `results[i]`.
pub open spec fn poll_run<V: Clone, W>(
    states: Seq<Entry<V, W>>,
    tickets: Seq<u64>,
    tokens: Seq<W>,
    results: Seq<Option<V>>,
) -> bool {
    &&& states.len() == tickets.len() + 1
    &&& tokens.len() == tickets.len()
    &&& results.len() == tickets.len()
    &&& forall|i: int|
        #![trigger tickets[i]]
        0 <= i < tickets.len() ==> polled(Some(states[i]), tickets[i], tokens[i], (states[i + 1], results[i]))
}

/// Successive subscriptions to a key get successive tickets, so no two of
/// them share one while the counter has not reached the largest `u64`.
pub proof fn lemma_subscribers_get_distinct_tickets<V, W>(states: Seq<Entry<V, W>>, tickets: Seq<u64>)
    requires
        subscribe_run(states, tickets),
        states[0].next_ticket() + tickets.len() <= u64::MAX,
    ensures
        forall|i: int| 0 <= i < tickets.len() ==> tickets[i] == states[0].next_ticket() + i,
        forall|i: int, j: int|
            0 <= i < tickets.len() && 0 <= j < tickets.len() && i != j ==> tickets[i] != tickets[j],
{
    lemma_subscribe_run_counts(states, tickets, tickets.len() as int);
}

proof fn lemma_subscribe_run_counts<V, W>(states: Seq<Entry<V, W>>, tickets: Seq<u64>, k: int)
    requires
        subscribe_run(states, tickets),
        states[0].next_ticket() + tickets.len() <= u64::MAX,
        0 <= k <= tickets.len(),
    ensures
        states[k].next_ticket() == states[0].next_ticket() + k,
        forall|i: int| 0 <= i < k ==> tickets[i] == states[0].next_ticket() + i,
    decreases k,
{
    if k > 0 {
        lemma_subscribe_run_counts(states, tickets, k - 1);
        assert(subscribed(Some(states[k - 1]), (states[k], tickets[k - 1])));
    }
}

/// After pending polls under distinct tickets, each poll's registration is
/// still held and the key still has no value.
proof fn lemma_poll_run_holds<V: Clone, W>(
    states: Seq<Entry<V, W>>,
    tickets: Seq<u64>,
    tokens: Seq<W>,
    results: Seq<Option<V>>,
    k: int,
)
    requires
        poll_run(states, tickets, tokens, results),
        states[0].value() is None,
        forall|i: int, j: int|
            0 <= i < tickets.len() && 0 <= j < tickets.len() && i != j ==> tickets[i] != tickets[j],
        0 <= k <= tickets.len(),
    ensures
        states[k].value() is None,
        forall|i: int| 0 <= i < k ==> results[i] is None,
        forall|i: int| 0 <= i < k ==> states[k].waiters().contains((tickets[i], tokens[i])),
    decreases k,
{
    if k > 0 {
        let j = k - 1;
        lemma_poll_run_holds(states, tickets, tokens, results, j);
        assert(polled(Some(states[j]), tickets[j], tokens[j], (states[k], results[j])));
        lemma_registration_held(states[j].waiters(), states[k].waiters(), tickets[j], tokens[j]);
        assert forall|i: int| 0 <= i < k implies states[k].waiters().contains((tickets[i], tokens[i])) by {
            if i < j {
                lemma_registration_kept(
                    states[j].waiters(),
                    states[k].waiters(),
                    tickets[j],
                    tokens[j],
                    (tickets[i], tokens[i]),
                );
            }
        }
    }
}

/// Any number of subscribers of one key that poll before the insert, each
/// under a ticket of its own, are all woken by the insert, whatever the
/// order of their polls, and every read after it hands back the value.
pub proof fn lemma_all_pending_polls_woken<V: Clone, W>(
    states: Seq<Entry<V, W>>,
    tickets: Seq<u64>,
    tokens: Seq<W>,
    results: Seq<Option<V>>,
    v: V,
    ins: (Entry<V, W>, Result<Vec<W>, InsertError>),
    rd: (Entry<V, W>, Option<V>),
)
    requires
        poll_run(states, tickets, tokens, results),
        states[0].value() is None,
        forall|i: int, j: int|
            0 <= i < tickets.len() && 0 <= j < tickets.len() && i != j ==> tickets[i] != tickets[j],
        inserted(Some(states.last()), v, ins),
        read_from(Some(ins.0), rd),
    ensures
        forall|i: int| 0 <= i < results.len() ==> results[i] is None,
        ins.1 is Ok,
        forall|i: int| 0 <= i < tokens.len() ==> ins.1.unwrap()@.contains(#[trigger] tokens[i]),
        rd.1 is Some,
        cloned(v, rd.1.unwrap()),
{
    let n = tickets.len() as int;
    lemma_poll_run_holds(states, tickets, tokens, results, n);
    assert forall|i: int| 0 <= i < tokens.len() implies ins.1.unwrap()@.contains(#[trigger] tokens[i]) by {
        lemma_token_listed(states[n].waiters(), (tickets[i], tokens[i]));
    }
}

/// Subscribers that all subscribe to one key and then poll, in the order
/// they subscribed, before the insert, are all woken by it.
pub proof fn lemma_every_subscriber_woken<V: Clone, W>(
    subs: Seq<Entry<V, W>>,
    tickets: Seq<u64>,
    polls: Seq<Entry<V, W>>,
    tokens: Seq<W>,
    results: Seq<Option<V>>,
    v: V,
    ins: (Entry<V, W>, Result<Vec<W>, InsertError>),
    rd: (Entry<V, W>, Option<V>),
)
    requires
        subs[0].value() is None,
        subs[0].next_ticket() + tickets.len() <= u64::MAX,
        subscribe_run(subs, tickets),
        polls[0] == subs.last(),
        poll_run(polls, tickets, tokens, results),
        inserted(Some(polls.last()), v, ins),
        read_from(Some(ins.0), rd),
    ensures
        ins.1 is Ok,
        forall|i: int| 0 <= i < tokens.len() ==> ins.1.unwrap()@.contains(#[trigger] tokens[i]),
        rd.1 is Some,
        cloned(v, rd.1.unwrap()),
{
    lemma_subscribers_get_distinct_tickets(subs, tickets);
    lemma_subscribe_run_value(subs, tickets, tickets.len() as int);
    lemma_all_pending_polls_woken(polls, tickets, tokens, results, v, ins, rd);
}

proof fn lemma_subscribe_run_value<V, W>(states: Seq<Entry<V, W>>, tickets: Seq<u64>, k: int)
    requires
        subscribe_run(states, tickets),
        0 <= k <= tickets.len(),
    ensures
        states[k].value() == states[0].value(),
    decreases k,
{
    if k > 0 {
        lemma_subscribe_run_value(states, tickets, k - 1);
        assert(subscribed(Some(states[k - 1]), (states[k], tickets[k - 1])));
    }
}

/// Keys are independent: for any number of keys, each inserted once with
/// its own value, whatever was done on the others and in whatever order,
/// every key's later read hands back its own value.
pub proof fn lemma_each_key_resolves<V: Clone, W>(
    founds: Seq<Option<Entry<V, W>>>,
    vs: Seq<V>,
    inss: Seq<(Entry<V, W>, Result<Vec<W>, InsertError>)>,
    rds: Seq<(Entry<V, W>, Option<V>)>,
)
    requires
        vs.len() == founds.len(),
        inss.len() == founds.len(),
        rds.len() == founds.len(),
        forall|i: int| 0 <= i < founds.len() ==> found_value(#[trigger] founds[i]) is None,
        forall|i: int| 0 <= i < founds.len() ==> inserted(founds[i], vs[i], #[trigger] inss[i]),
        forall|i: int| 0 <= i < founds.len() ==> read_from(Some(inss[i].0), #[trigger] rds[i]),
    ensures
        forall|i: int| 0 <= i < founds.len() ==> (#[trigger] inss[i]).1 is Ok,
        forall|i: int|
            0 <= i < founds.len() ==> (#[trigger] rds[i]).1 is Some && cloned(vs[i], rds[i].1.unwrap()),
{
}

} // verus!
