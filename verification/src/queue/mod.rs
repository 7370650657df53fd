//! The durable agent queue.
pub mod changes;
pub mod delivery_laws;
pub mod error;
pub mod laws;
pub mod model;
pub mod opening;
pub mod row;
pub mod row_laws;
pub mod runtime;
pub mod scope_laws;
pub mod store;
