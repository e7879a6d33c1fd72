use crate::bindings::{current_scheduler, new_handle_value, new_runtime, open_channel, spawn_in, spawn_on};
use crate::dispatch::{cached_after, dispatch_of, fallback_built, plan_dispatch, Dispatch};
use crate::table::SubscriberTable;
use std::sync::Arc;
use tokio::runtime::Runtime;
use tokio::sync::mpsc::{UnboundedReceiver, UnboundedSender};
use vstd::prelude::*;
use vstd::rwlock::{RwLock, RwLockPredicate};

verus! {

/// The receiving end of a subscription. Drop it to unsubscribe.
pub type Subscription<T> = UnboundedReceiver<Arc<T>>;

/// A sending end that a holder delivers to; one receiver may collect the
/// events of several holders.
pub type Subscriber<T> = UnboundedSender<Arc<T>>;

/// What the lock around a subscriber table keeps true: its handles are unique.
pub struct TableInv {}

impl<T> RwLockPredicate<SubscriberTable<T>> for TableInv {
    open spec fn inv(self, table: SubscriberTable<T>) -> bool {
        table.wf()
    }
}

/// The lock around the fallback scheduler keeps nothing beyond the value.
pub struct FallbackInv {}

impl RwLockPredicate<Option<Runtime>> for FallbackInv {
    open spec fn inv(self, slot: Option<Runtime>) -> bool {
        true
    }
}

/// The shared registry behind both holders: a subscriber table under one lock.
#[verifier::reject_recursive_types(T)]
pub struct BaseCallback<T> {
    callbacks: RwLock<SubscriberTable<T>, TableInv>,
}

impl<T> BaseCallback<T> {
    pub fn new() -> (r: Self) {
        BaseCallback { callbacks: RwLock::new(SubscriberTable::new(), Ghost(TableInv {})) }
    }

    /// Registers a new queue under a fresh handle and returns its receiving end.
    pub fn subscribe(&self) -> (r: Subscription<T>) {
        let (mut table, guard) = self.callbacks.acquire_write();
        let (sender, receiver) = open_channel::<T>();
        let handle = new_handle_value();
        table.insert(handle, sender);
        guard.release_write(table);
        receiver
    }

    /// Registers `subscriber` under a fresh handle. The same sender may be
    /// registered more than once.
    pub fn subscribe_with(&self, subscriber: Subscriber<T>) {
        let (mut table, guard) = self.callbacks.acquire_write();
        let handle = new_handle_value();
        table.insert(handle, subscriber);
        guard.release_write(table);
    }

    /// Sends one shared instance of `value` to every subscriber, and removes
    /// those whose receiving end is gone.
    pub fn invoke(&self, value: T) {
        let (mut table, guard) = self.callbacks.acquire_write();
        let shared = Arc::new(value);
        let _delivery = table.broadcast(&shared);
        guard.release_write(table);
    }

    /// The number of registered subscribers at the time of the call.
    pub fn len(&self) -> (r: usize) {
        let (table, guard) = self.callbacks.acquire_write();
        let n = table.len();
        guard.release_write(table);
        n
    }
}

/// Lets observers subscribe to the events of a holder.
pub trait Callback<T> {
    /// Subscribes to the events; each one arrives as a shared instance.
    fn subscribe(&self) -> Subscription<T>;

    /// Subscribes the given sender to the events. Duplicates are not detected.
    fn subscribe_with(&self, subscriber: Subscriber<T>);
}

/// One invocation's step on the fallback slot: decides where the broadcast
/// goes, given whether the caller runs on a scheduler, and builds a fallback
/// scheduler only where that decision says so. Returns the decision.
pub fn fallback_step(slot: &mut Option<Runtime>, ambient: bool) -> (d: Dispatch)
    ensures
        d == dispatch_of(ambient, old(slot).is_some()),
        d != Dispatch::Construct ==> *final(slot) == *old(slot),
{
    let d = plan_dispatch(ambient, slot.is_some());
    match d {
        Dispatch::Construct => {
            *slot = new_runtime();
        },
        _ => {},
    }
    d
}

/// One `fallback_step` is one event of the model in `dispatch`: the slot holds
/// a scheduler afterwards exactly when `cached_after` says, and the step built
/// one exactly when `fallback_built` says, `ok` being whether the slot holds
/// a scheduler afterwards.
pub proof fn lemma_step_follows_model(before: Option<Runtime>, after: Option<Runtime>, ambient: bool, d: Dispatch)
    requires
        d == dispatch_of(ambient, before.is_some()),
        d != Dispatch::Construct ==> after == before,
    ensures
        after.is_some() == cached_after(ambient, before.is_some(), after.is_some()),
        (d == Dispatch::Construct && after.is_some()) == fallback_built(ambient, before.is_some(), after.is_some()),
{
}

/// A holder that broadcasts on a separate task, so that the caller of
/// `invoke` never waits for the subscribers.
#[derive(Clone)]
#[verifier::reject_recursive_types(T)]
pub struct MultiThreadedCallback<T> {
    base: Arc<BaseCallback<T>>,
    runtime: Arc<RwLock<Option<Runtime>, FallbackInv>>,
}

impl<T: Send + Sync + 'static> MultiThreadedCallback<T> {
    pub fn new() -> (r: Self) {
        MultiThreadedCallback {
            base: Arc::new(BaseCallback::new()),
            runtime: Arc::new(RwLock::new(None, Ghost(FallbackInv {}))),
        }
    }

    /// Schedules the broadcast of `value` and returns before it runs: on the
    /// caller's own scheduler where there is one, else on a fallback scheduler
    /// that the first such call builds and later ones reuse.
    pub fn invoke(&self, value: T) {
        let inner = self.base.clone();
        let ambient = current_scheduler();
        let (mut slot, guard) = self.runtime.acquire_write();
        let d = fallback_step(&mut slot, ambient.is_some());
        match d {
            Dispatch::Ambient => match &ambient {
                Some(scheduler) => spawn_on(scheduler, inner, value),
                None => {},
            },
            _ => match &slot {
                Some(runtime) => spawn_in(runtime, inner, value),
                None => {},
            },
        }
        guard.release_write(slot);
    }

    /// The number of registered subscribers at the time of the call.
    pub fn len(&self) -> (r: usize) {
        self.base.len()
    }
}

impl<T: Send + Sync + 'static> Callback<T> for MultiThreadedCallback<T> {
    fn subscribe(&self) -> Subscription<T> {
        self.base.subscribe()
    }

    fn subscribe_with(&self, subscriber: Subscriber<T>) {
        self.base.subscribe_with(subscriber)
    }
}

/// A holder that broadcasts on the caller's thread: `invoke` returns once
/// every subscriber has been tried.
#[derive(Clone)]
#[verifier::reject_recursive_types(T)]
pub struct SingleThreadedCallback<T> {
    base: Arc<BaseCallback<T>>,
}

impl<T> SingleThreadedCallback<T> {
    pub fn new() -> (r: Self) {
        SingleThreadedCallback { base: Arc::new(BaseCallback::new()) }
    }

    /// Broadcasts `value` to every subscriber before returning.
    pub fn invoke(&self, value: T) {
        self.base.invoke(value)
    }

    /// The number of registered subscribers at the time of the call.
    pub fn len(&self) -> (r: usize) {
        self.base.len()
    }
}

impl<T> Callback<T> for SingleThreadedCallback<T> {
    fn subscribe(&self) -> Subscription<T> {
        self.base.subscribe()
    }

    fn subscribe_with(&self, subscriber: Subscriber<T>) {
        self.base.subscribe_with(subscriber)
    }
}

} // verus!
