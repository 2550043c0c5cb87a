//! Host-side core of a promise bridge between an embedded script engine and
//! its host process: a registry of outstanding promise resolvers, the
//! host-side contract of the native bridge function, the module-loading
//! policy, and the driver's bulk-invocation and polling protocol.

pub mod bridge;
pub mod driver;
pub mod loader;
pub mod registry;
pub mod state;
