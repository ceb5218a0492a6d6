use std::future::Future;
use std::pin::Pin;
use std::sync::atomic::{AtomicUsize, Ordering};
use std::sync::Arc;
use std::task::{Context, Poll, Wake, Waker};

use subscriber_map::{InsertError, SubscriberMap, Subscription};

struct Counter {
    wakes: AtomicUsize,
}

impl Wake for Counter {
    fn wake(self: Arc<Self>) {
        self.wakes.fetch_add(1, Ordering::SeqCst);
    }
}

fn counting_waker() -> (Arc<Counter>, Waker) {
    let c = Arc::new(Counter { wakes: AtomicUsize::new(0) });
    let w = Waker::from(c.clone());
    (c, w)
}

fn wakes(c: &Arc<Counter>) -> usize {
    c.wakes.load(Ordering::SeqCst)
}

struct Waiting<K, V>(Subscription<K, V>);

impl<K: Eq + std::hash::Hash + Clone, V: Clone> Future for Waiting<K, V> {
    type Output = V;

    fn poll(self: Pin<&mut Self>, cx: &mut Context<'_>) -> Poll<V> {
        match self.0.poll(cx.waker().clone()) {
            Some(v) => Poll::Ready(v),
            None => Poll::Pending,
        }
    }
}

#[test]
fn basic_test() {
    let map = SubscriberMap::default();
    println!("Subscribing to 'hello'");
    let s1 = map.subscribe("hello".to_string());
    println!("writing to map at 'hello'");
    assert_eq!(map.insert("hello".to_string(), 5), Ok(()));
    let got = futures::executor::block_on(Waiting(s1));
    println!("got my message");
    assert_eq!(got, 5);
}

#[test]
fn never_inserted_stays_pending() {
    let map: SubscriberMap<String, i32> = SubscriberMap::new();
    let s = map.subscribe("nobody".to_string());
    let (c, w) = counting_waker();
    for _ in 0..5 {
        assert_eq!(s.poll(w.clone()), None);
    }
    map.insert("other".to_string(), 1).unwrap();
    assert_eq!(s.poll(w.clone()), None);
    assert_eq!(wakes(&c), 0);
}

#[test]
fn insert_then_subscribe_resolves_at_once() {
    let map = SubscriberMap::new();
    assert_eq!(map.insert("k".to_string(), vec![1u8, 2, 3]), Ok(()));
    let s = map.subscribe("k".to_string());
    let (c, w) = counting_waker();
    assert_eq!(s.poll(w), Some(vec![1u8, 2, 3]));
    assert_eq!(wakes(&c), 0);
}

#[test]
fn subscribe_before_insert_is_woken() {
    let map = SubscriberMap::new();
    let s = map.subscribe(7u64);
    let (c, w) = counting_waker();
    assert_eq!(s.poll(w), None);
    assert_eq!(wakes(&c), 0);
    map.insert(7u64, "seven".to_string()).unwrap();
    assert_eq!(wakes(&c), 1);
    assert_eq!(s.poll(futures::task::noop_waker()), Some("seven".to_string()));
}

#[test]
fn subscribe_before_insert_resolves_under_executor() {
    let map = Arc::new(SubscriberMap::new());
    let s = map.subscribe("late".to_string());
    let mut fut = Box::pin(Waiting(s));
    let (c, w) = counting_waker();
    let mut cx = Context::from_waker(&w);
    assert!(fut.as_mut().poll(&mut cx).is_pending());
    map.insert("late".to_string(), 42).unwrap();
    assert_eq!(wakes(&c), 1);
    assert_eq!(fut.as_mut().poll(&mut cx), Poll::Ready(42));
}

#[test]
fn second_insert_is_refused() {
    let map = SubscriberMap::new();
    assert_eq!(map.insert("k".to_string(), 1), Ok(()));
    assert_eq!(map.insert("k".to_string(), 2), Err(InsertError::AlreadySet));
    let s = map.subscribe("k".to_string());
    assert_eq!(s.poll(futures::task::noop_waker()), Some(1));
}

#[test]
fn every_subscriber_is_woken() {
    let map = SubscriberMap::new();
    let subs: Vec<_> = (0..3).map(|_| map.subscribe("k".to_string())).collect();
    let counters: Vec<_> = subs
        .iter()
        .map(|s| {
            let (c, w) = counting_waker();
            assert_eq!(s.poll(w), None);
            c
        })
        .collect();
    map.insert("k".to_string(), 9).unwrap();
    for c in &counters {
        assert_eq!(wakes(c), 1);
    }
    for s in &subs {
        assert_eq!(s.poll(futures::task::noop_waker()), Some(9));
    }
}

#[test]
fn repoll_replaces_only_its_own_registration() {
    let map = SubscriberMap::new();
    let a = map.subscribe(1u32);
    let b = map.subscribe(1u32);
    let (ca1, wa1) = counting_waker();
    let (ca2, wa2) = counting_waker();
    let (cb, wb) = counting_waker();
    assert_eq!(a.poll(wa1), None);
    assert_eq!(b.poll(wb), None);
    assert_eq!(a.poll(wa2), None);
    map.insert(1u32, 'x').unwrap();
    assert_eq!(wakes(&ca1), 0);
    assert_eq!(wakes(&ca2), 1);
    assert_eq!(wakes(&cb), 1);
}

#[test]
fn two_keys_resolve_independently() {
    let map = SubscriberMap::new();
    let first = map.subscribe("a".to_string());
    let second = map.subscribe("b".to_string());
    map.insert("b".to_string(), 2).unwrap();
    map.insert("a".to_string(), 1).unwrap();
    assert_eq!(futures::executor::block_on(Waiting(first)), 1);
    assert_eq!(futures::executor::block_on(Waiting(second)), 2);
}
