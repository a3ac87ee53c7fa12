//! The IRC side: wire format, server state, negotiation and output queues.

pub mod caps;
pub mod connection;
pub mod line_laws;
pub mod message;
pub mod message_laws;
pub mod mode_queue;
pub mod parser;
pub mod queue_laws;
pub mod rate_limit;
pub mod sasl;
pub mod session;
pub mod session_laws;
pub mod state;
pub mod state_laws;
