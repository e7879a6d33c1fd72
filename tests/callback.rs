use fx_callback::{
    fallback_step, plan_dispatch, Callback, Dispatch, MultiThreadedCallback, SingleThreadedCallback,
    SubscriberTable, Subscription,
};
use std::sync::Arc;
use std::time::{Duration, Instant};
use tokio::runtime::Runtime;

#[derive(Debug, Clone, PartialEq)]
pub enum Event {
    Foo,
}

/// Waits up to `millis` for the next value of `receiver`.
fn receive_within<T>(receiver: &mut Subscription<T>, millis: u64) -> Option<Arc<T>> {
    let deadline = Instant::now() + Duration::from_millis(millis);
    loop {
        if let Ok(value) = receiver.try_recv() {
            return Some(value);
        }
        if Instant::now() >= deadline {
            return None;
        }
        std::hint::spin_loop();
    }
}

#[test]
fn test_multi_threaded_invoke() {
    let expected_result = Event::Foo;
    let runtime = Runtime::new().unwrap();
    let callback = MultiThreadedCallback::<Event>::new();

    let mut receiver = callback.subscribe();
    {
        let _ambient = runtime.enter();
        callback.invoke(expected_result.clone());
    }
    let result = match receive_within(&mut receiver, 150) {
        Some(result) => result,
        None => panic!("Callback invocation receiver timed out"),
    };

    assert_eq!(expected_result, *result);
}

#[test]
fn test_multi_threaded_invoke_without_runtime() {
    let expected_result = Event::Foo;
    let callback = MultiThreadedCallback::<Event>::new();

    let mut receiver = callback.subscribe();
    callback.invoke(expected_result.clone());
    let result = receive_within(&mut receiver, 50).unwrap();

    assert_eq!(expected_result, *result);
}

#[test]
fn test_invoke_dropped_receiver() {
    let expected_result = Event::Foo;
    let runtime = Runtime::new().unwrap();
    let callback = MultiThreadedCallback::<Event>::new();

    let _ = callback.subscribe();
    let mut receiver = callback.subscribe();
    {
        let _ambient = runtime.enter();
        callback.invoke(expected_result.clone());
    }
    let result = match receive_within(&mut receiver, 150) {
        Some(result) => result,
        None => panic!("Callback invocation receiver timed out"),
    };

    assert_eq!(expected_result, *result);
}

#[test]
fn test_single_threaded_invoke() {
    let expected_result = Event::Foo;
    let callback = SingleThreadedCallback::new();

    let mut receiver = callback.subscribe();
    callback.invoke(expected_result.clone());
    let result = receive_within(&mut receiver, 50).unwrap();

    assert_eq!(expected_result, *result);
}

#[test]
fn dropped_subscriber_is_removed_on_next_invoke() {
    let callback = SingleThreadedCallback::<String>::new();
    let mut a = callback.subscribe();
    let mut b = callback.subscribe();

    callback.invoke("x".to_string());
    assert_eq!("x", a.try_recv().unwrap().as_str());
    assert_eq!("x", b.try_recv().unwrap().as_str());

    drop(b);
    assert_eq!(2, callback.len());
    callback.invoke("y".to_string());
    assert_eq!("y", a.try_recv().unwrap().as_str());
    assert!(a.try_recv().is_err());
    assert_eq!(1, callback.len());
}

#[test]
fn every_live_subscriber_gets_the_same_instance() {
    let callback = SingleThreadedCallback::<u32>::new();
    let mut receivers: Vec<Subscription<u32>> = (0..5).map(|_| callback.subscribe()).collect();

    callback.invoke(7);

    let first = receivers[0].try_recv().unwrap();
    assert_eq!(7, *first);
    for receiver in receivers.iter_mut().skip(1) {
        let value = receiver.try_recv().unwrap();
        assert!(Arc::ptr_eq(&first, &value));
        assert!(receiver.try_recv().is_err());
    }
    assert_eq!(5, callback.len());
}

#[test]
fn external_sender_receives_in_broadcast_order() {
    let callback = SingleThreadedCallback::<u32>::new();
    let (sender, mut shared) = tokio::sync::mpsc::unbounded_channel();
    callback.subscribe_with(sender);
    let mut own = callback.subscribe();

    callback.invoke(1);
    callback.invoke(2);

    assert_eq!(1, *shared.try_recv().unwrap());
    assert_eq!(2, *shared.try_recv().unwrap());
    assert_eq!(1, *own.try_recv().unwrap());
    assert_eq!(2, *own.try_recv().unwrap());
}

#[test]
fn one_sender_registered_twice_receives_twice() {
    let callback = SingleThreadedCallback::<u32>::new();
    let (sender, mut shared) = tokio::sync::mpsc::unbounded_channel();
    callback.subscribe_with(sender.clone());
    callback.subscribe_with(sender);

    callback.invoke(3);

    assert_eq!(3, *shared.try_recv().unwrap());
    assert_eq!(3, *shared.try_recv().unwrap());
    assert!(shared.try_recv().is_err());
    assert_eq!(2, callback.len());
}

#[test]
fn fan_in_from_two_holders() {
    let first = SingleThreadedCallback::<u32>::new();
    let second = SingleThreadedCallback::<u32>::new();
    let (sender, mut shared) = tokio::sync::mpsc::unbounded_channel();
    first.subscribe_with(sender.clone());
    second.subscribe_with(sender);

    first.invoke(1);
    second.invoke(2);

    assert_eq!(1, *shared.try_recv().unwrap());
    assert_eq!(2, *shared.try_recv().unwrap());
}

#[test]
fn offloaded_invoke_returns_before_anyone_reads() {
    let callback = MultiThreadedCallback::<u32>::new();
    let mut receivers: Vec<Subscription<u32>> = (0..100).map(|_| callback.subscribe()).collect();

    callback.invoke(9);

    for receiver in receivers.iter_mut() {
        assert_eq!(9, *receive_within(receiver, 1000).unwrap());
    }
}

#[test]
fn offloaded_invoke_without_runtime_repeats() {
    let callback = MultiThreadedCallback::<u32>::new();
    let mut receiver = callback.subscribe();

    for i in 0..10u32 {
        callback.invoke(i);
    }

    let mut seen: Vec<u32> = Vec::new();
    for _ in 0..10 {
        seen.push(*receive_within(&mut receiver, 1000).unwrap());
    }
    seen.sort();
    assert_eq!((0..10).collect::<Vec<u32>>(), seen);
}

#[test]
fn fallback_is_built_once() {
    let mut slot: Option<Runtime> = None;
    assert_eq!(Dispatch::Construct, fallback_step(&mut slot, false));
    assert!(slot.is_some());
    assert_eq!(Dispatch::Cached, fallback_step(&mut slot, false));
    assert!(slot.is_some());
    assert_eq!(Dispatch::Ambient, fallback_step(&mut slot, true));
    assert!(slot.is_some());
}

#[test]
fn ambient_step_leaves_empty_slot_alone() {
    let mut slot: Option<Runtime> = None;
    assert_eq!(Dispatch::Ambient, fallback_step(&mut slot, true));
    assert!(slot.is_none());
}

#[test]
fn settle_keeps_exactly_the_taken_ones() {
    let mut table = SubscriberTable::<u32>::new();
    let (a, _a_rx) = tokio::sync::mpsc::unbounded_channel();
    let (b, _b_rx) = tokio::sync::mpsc::unbounded_channel();
    let (c, _c_rx) = tokio::sync::mpsc::unbounded_channel();
    table.insert(10, a);
    table.insert(20, b);
    table.insert(30, c);

    let mut delivery = table.settle(&vec![true, false, true]);
    delivery.delivered.sort();
    assert_eq!(vec![10, 30], delivery.delivered);
    assert_eq!(vec![20], delivery.dropped);
    assert_eq!(2, table.len());

    let again = table.settle(&vec![false, false]);
    assert!(again.delivered.is_empty());
    assert_eq!(2, again.dropped.len());
    assert_eq!(0, table.len());
}

#[test]
fn dispatch_follows_ambient_then_cache() {
    assert_eq!(Dispatch::Ambient, plan_dispatch(true, false));
    assert_eq!(Dispatch::Ambient, plan_dispatch(true, true));
    assert_eq!(Dispatch::Cached, plan_dispatch(false, true));
    assert_eq!(Dispatch::Construct, plan_dispatch(false, false));
}

#[test]
fn table_insert_replaces_same_handle() {
    let mut table = SubscriberTable::<u32>::new();
    let (first, mut first_rx) = tokio::sync::mpsc::unbounded_channel();
    let (second, mut second_rx) = tokio::sync::mpsc::unbounded_channel();
    table.insert(4, first);
    table.insert(4, second);
    assert_eq!(1, table.len());

    let delivery = table.broadcast(&Arc::new(5));
    assert_eq!(vec![4], delivery.delivered);
    assert!(delivery.dropped.is_empty());
    assert_eq!(5, *second_rx.try_recv().unwrap());
    assert!(first_rx.try_recv().is_err());
}

#[test]
fn table_broadcast_reports_dropped_handles() {
    let mut table = SubscriberTable::<u32>::new();
    let (live, mut live_rx) = tokio::sync::mpsc::unbounded_channel();
    let (gone, gone_rx) = tokio::sync::mpsc::unbounded_channel();
    table.insert(1, live);
    table.insert(2, gone);
    drop(gone_rx);

    let delivery = table.broadcast(&Arc::new(6));
    assert_eq!(vec![1], delivery.delivered);
    assert_eq!(vec![2], delivery.dropped);
    assert_eq!(1, table.len());
    assert_eq!(6, *live_rx.try_recv().unwrap());

    let again = table.broadcast(&Arc::new(7));
    assert_eq!(vec![1], again.delivered);
    assert!(again.dropped.is_empty());
}

#[test]
fn table_broadcast_on_empty_table() {
    let mut table = SubscriberTable::<u32>::new();
    let delivery = table.broadcast(&Arc::new(1));
    assert!(delivery.delivered.is_empty());
    assert!(delivery.dropped.is_empty());
    assert_eq!(0, table.len());
}
