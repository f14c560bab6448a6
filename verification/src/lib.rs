//! Database access and maintenance subsystem: intent-based query routing with
//! replica failover, time-partition maintenance planning, and a cached
//! feature-flag store.

pub mod api;
pub mod flags;
pub mod partition;
pub mod pool_manager;
