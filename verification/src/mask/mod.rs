//! API masks: header-injecting reverse proxies and their request logs.

pub mod headers;
pub mod log;
pub mod proxy;
