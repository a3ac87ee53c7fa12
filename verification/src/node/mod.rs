//! What a node and its operator tools decide.

pub mod backup;
pub mod calendar;
pub mod cert_names;
pub mod config;
pub mod daemon;
pub mod observer_laws;
pub mod op_observer;
pub mod pem_laws;
pub mod pem_text;
pub mod pki;
pub mod pki_laws;
pub mod shadectl;
pub mod tool_laws;
pub mod url;
