//! Exchange netflow monitor: decodes token-transfer logs, classifies them
//! against the addresses of one exchange, and keeps a cumulative netflow.

pub mod amount;
pub mod netflow;
pub mod registry;
pub mod transfer;
pub mod store;
pub mod subscriber;
