use crate::callback::BaseCallback;
use std::sync::Arc;
use tokio::runtime::{Handle, Runtime};
use tokio::sync::mpsc::{UnboundedReceiver, UnboundedSender};
use vstd::prelude::*;

verus! {

#[verifier::external_type_specification]
#[verifier::external_body]
#[verifier::reject_recursive_types(T)]
pub struct ExUnboundedSender<T>(UnboundedSender<T>);

#[verifier::external_type_specification]
#[verifier::external_body]
#[verifier::reject_recursive_types(T)]
pub struct ExUnboundedReceiver<T>(UnboundedReceiver<T>);

/// Relies on `fx_handle::Handle::new` and `Handle::value`: a fresh identifier
/// drawn from the clock and a random number. Nothing is promised of its value.
/// `Handle::new` panics only where the system clock reads before 1970.
#[verifier::external_body]
pub(crate) fn new_handle_value() -> (r: i64) {
    fx_handle::Handle::new().value()
}

/// Relies on `tokio::sync::mpsc::unbounded_channel`: the two ends of one new
/// unbounded queue.
#[verifier::external_body]
pub(crate) fn open_channel<T>() -> (r: (UnboundedSender<Arc<T>>, UnboundedReceiver<Arc<T>>)) {
    tokio::sync::mpsc::unbounded_channel()
}

/// Relies on `UnboundedSender::send`: a non-blocking attempt that fails only
/// once the receiving end is gone. Whether it succeeds depends on that end.
#[verifier::external_body]
pub(crate) fn try_send<T>(sender: &UnboundedSender<Arc<T>>, value: Arc<T>) -> (delivered: bool) {
    sender.send(value).is_ok()
}

#[verifier::external_type_specification]
#[verifier::external_body]
pub struct ExRuntime(Runtime);

#[verifier::external_type_specification]
#[verifier::external_body]
pub struct ExHandle(Handle);

/// Relies on `tokio::runtime::Handle::try_current`: the scheduler that the
/// caller runs on, if any. It never panics.
#[verifier::external_body]
pub(crate) fn current_scheduler() -> (r: Option<Handle>) {
    Handle::try_current().ok()
}

/// Relies on `tokio::runtime::Runtime::new`: a new multi-threaded scheduler,
/// or nothing where the system refused to build one.
#[verifier::external_body]
pub(crate) fn new_runtime() -> (r: Option<Runtime>) {
    Runtime::new().ok()
}

/// Relies on `tokio::runtime::Handle::spawn_blocking`: runs the broadcast of
/// `value` as a new task of that scheduler and returns without waiting for it.
#[verifier::external_body]
pub(crate) fn spawn_on<T: Send + Sync + 'static>(scheduler: &Handle, base: Arc<BaseCallback<T>>, value: T) {
    scheduler.spawn_blocking(move || base.invoke(value));
}

/// Relies on `tokio::runtime::Runtime::spawn_blocking`: runs the broadcast of
/// `value` as a new task of that scheduler and returns without waiting for it.
#[verifier::external_body]
pub(crate) fn spawn_in<T: Send + Sync + 'static>(runtime: &Runtime, base: Arc<BaseCallback<T>>, value: T) {
    runtime.spawn_blocking(move || base.invoke(value));
}

} // verus!
