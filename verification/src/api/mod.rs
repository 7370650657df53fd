//! The agent API: its records and its request handlers.
pub mod agents;
pub mod app;
pub mod host;
pub mod laws;
pub mod queue_laws;
pub mod request_laws;
pub mod response;
pub mod schema;
pub mod state;
pub mod step_laws;
