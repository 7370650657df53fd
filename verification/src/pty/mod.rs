//! What goes into an agent's terminal.
pub mod input;
pub mod laws;
