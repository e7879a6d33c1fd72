//! A subscription based callback holder: any number of subscribers receive a
//! shared instance of each value that the holder invokes.

mod bindings;
pub mod callback;
pub mod dispatch;
pub mod table;

pub use callback::{
    fallback_step, BaseCallback, Callback, MultiThreadedCallback, SingleThreadedCallback, Subscriber,
    Subscription,
};
pub use dispatch::{plan_dispatch, Dispatch};
pub use table::{Delivery, SubscriberTable};
