//! A keyed, write-once value broadcaster: subscribe to a key before its value
//! exists and be woken when some other caller inserts it.

pub mod laws;
mod map;
pub mod state;
pub mod entry;

pub use map::{SubscriberMap, Subscription};
pub use state::EntryState;
pub use entry::{InsertError, Entry};
