use std::hash::Hash;
use std::sync::Arc;
use std::task::Waker;

use dashmap::DashMap;
use vstd::prelude::*;

use crate::entry::{found_value, inserted, polled, read_from, subscribed, Entry, InsertError};

verus! {

#[verifier::external_type_specification]
#[verifier::external_body]
#[verifier::reject_recursive_types(K)]
#[verifier::reject_recursive_types(V)]
#[verifier::reject_recursive_types(S)]
pub struct ExDashMap<K, V, S>(DashMap<K, V, S>);

#[verifier::external_type_specification]
#[verifier::external_body]
pub struct ExWaker(Waker);

/// Relies on `DashMap::new`: a map with no entries.
#[verifier::external_body]
fn new_slots<K: Eq + Hash, V>() -> DashMap<K, Option<Entry<V, Waker>>> {
    DashMap::new()
}

/// Relies on `DashMap::entry`, `Entry::or_default` and `RefMut::value_mut`:
/// the shard that holds `key` stays write-locked while `step` runs once, on
/// what the map held under `key` (`None` where it held nothing), and the
/// slot that `step` hands back is stored under `key` before the lock is
/// released. So steps on one key never interleave.
#[verifier::external_body]
fn with_slot<K: Eq + Hash, V, R, F: FnOnce(Option<Entry<V, Waker>>) -> (Entry<V, Waker>, R)>(
    map: &DashMap<K, Option<Entry<V, Waker>>>,
    key: K,
    step: F,
) -> (r: R)
    requires
        forall|found: Option<Entry<V, Waker>>| step.requires((found,)),
    ensures
        exists|found: Option<Entry<V, Waker>>, kept: Entry<V, Waker>| step.ensures((found,), (kept, r)),
{
    let mut entry = map.entry(key).or_default();
    let (kept, r) = step(entry.value_mut().take());
    *entry.value_mut() = Some(kept);
    r
}

/// Relies on `Waker::wake`: the task behind `w` is scheduled to be polled
/// again.
#[verifier::external_body]
fn wake(w: Waker) {
    w.wake()
}

/// A concurrent map from keys to write-once values that can be subscribed to
/// before they exist.
///
/// Values are handed out by `V::clone`, which runs while the key's entry is
/// taken out of the map: a `clone` that panics leaves that key empty.
#[verifier::reject_recursive_types(K)]
#[verifier::reject_recursive_types(V)]
pub struct SubscriberMap<K, V> {
    inner: Arc<DashMap<K, Option<Entry<V, Waker>>>>,
}

/// A handle on one key's future value, bound to a ticket of its own.
#[verifier::reject_recursive_types(K)]
#[verifier::reject_recursive_types(V)]
pub struct Subscription<K, V> {
    key: K,
    ticket: u64,
    map: Arc<DashMap<K, Option<Entry<V, Waker>>>>,
}

impl<K, V> Subscription<K, V> {
    /// The key subscribed to.
    pub closed spec fn key(self) -> K {
        self.key
    }

    /// The ticket that tells this subscription apart from the key's others.
    pub closed spec fn ticket(self) -> u64 {
        self.ticket
    }
}

impl<K: Eq + Hash + Clone, V: Clone> SubscriberMap<K, V> {
    /// An empty map.
    pub fn new() -> Self {
        SubscriberMap { inner: Arc::new(new_slots()) }
    }

    /// A subscription to `key`, whose slot is created where absent. Never
    /// fails, also where the value is already present.
    pub fn subscribe(&self, key: K) -> (r: Subscription<K, V>)
        ensures
            r.key() == key,
            exists|found: Option<Entry<V, Waker>>, kept: Entry<V, Waker>| subscribed(found, (kept, r.ticket())),
    {
        let step = |found: Option<Entry<V, Waker>>| -> (r: (Entry<V, Waker>, u64))
            ensures
                subscribed(found, r),
        {
            Entry::subscribe_step(found)
        };
        let ticket = with_slot(&*self.inner, key.clone(), step);
        let ghost (found, kept) = choose|found: Option<Entry<V, Waker>>, kept: Entry<V, Waker>|
            subscribed(found, (kept, ticket));
        let r = Subscription { key, ticket, map: self.inner.clone() };
        assert(subscribed(found, (kept, r.ticket())));
        r
    }

    /// Stores `value` under `key` and wakes every waiter registered for it.
    /// Where `key` already holds a value, fails with `AlreadySet` and leaves
    /// that value as it was.
    ///
    /// Which of the two comes back is decided by the slot found under `key`,
    /// as `Entry::insert_step` states.
    pub fn insert(&self, key: K, value: V) -> (r: Result<(), InsertError>)
        ensures
            exists|found: Option<Entry<V, Waker>>|
                {
                    &&& found_value(found) is Some ==> r == Err::<(), InsertError>(InsertError::AlreadySet)
                    &&& found_value(found) is None ==> r is Ok
                },
    {
        let ghost v = value;
        let step = move |found: Option<Entry<V, Waker>>| -> (r: (Entry<V, Waker>, Result<Vec<Waker>, InsertError>))
            ensures
                inserted(found, v, r),
        {
            Entry::insert_step(found, value)
        };
        let filled = with_slot(&*self.inner, key, step);
        proof {
            let (found, kept) = choose|found: Option<Entry<V, Waker>>, kept: Entry<V, Waker>|
                inserted(found, v, (kept, filled));
            assert(found_value(found) is Some ==> filled == Err::<Vec<Waker>, InsertError>(InsertError::AlreadySet));
        }
        match filled {
            Ok(woken) => {
                let mut woken = woken;
                while woken.len() > 0
                    decreases woken.len(),
                {
                    match woken.pop() {
                        Some(w) => wake(w),
                        None => {},
                    }
                }
                Ok(())
            },
            Err(e) => Err(e),
        }
    }
}

impl<K: Eq + Hash + Clone, V: Clone> Default for SubscriberMap<K, V> {
    fn default() -> Self {
        SubscriberMap::new()
    }
}

impl<K: Eq + Hash + Clone, V: Clone> Subscription<K, V> {
    /// Checks for the value and, where it is not there yet, registers `waker`
    /// to be woken when it is stored: read, then register and read again in
    /// one step. The second read catches a value stored between the first
    /// read and the registration, which would otherwise wake nobody.
    ///
    /// `None` means the value is not there yet and `waker` will be woken once
    /// it is.
    pub fn poll(&self, waker: Waker) -> (r: Option<V>)
        ensures
            r is Some ==> exists|found: Option<Entry<V, Waker>>|
                found_value(found) is Some && cloned(found_value(found).unwrap(), r.unwrap()),
    {
        let first = with_slot(&*self.map, self.key.clone(), Entry::read_step);
        if first.is_some() {
            proof {
                let (found, kept) = choose|found: Option<Entry<V, Waker>>, kept: Entry<V, Waker>|
                    read_from(found, (kept, first));
            }
            return first;
        }
        let ticket = self.ticket;
        let ghost token = waker;
        let step = move |found: Option<Entry<V, Waker>>| -> (r: (Entry<V, Waker>, Option<V>))
            ensures
                polled(found, ticket, token, r),
        {
            Entry::poll_step(found, ticket, waker)
        };
        let second = with_slot(&*self.map, self.key.clone(), step);
        proof {
            let (found, kept) = choose|found: Option<Entry<V, Waker>>, kept: Entry<V, Waker>|
                polled(found, ticket, token, (kept, second));
        }
        second
    }
}

} // verus!
