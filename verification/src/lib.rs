//! The durable agent queue and the agent API on top of it.
pub mod api;
pub mod clock;
pub mod detect;
pub mod ident;
pub mod pty;
pub mod queue;
pub mod text;
