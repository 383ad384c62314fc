//! The privileged daemon's side: requests against the connection store.

pub mod add;
pub mod change;
pub mod control;
pub mod dispatch;
pub mod laws;
pub mod mtu;
pub mod query;
pub mod store;
pub mod tunnel;
