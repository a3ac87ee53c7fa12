//! The admin API: what each request is answered, written, recorded and
//! broadcast.

pub mod admin;
pub mod auth;
pub mod caller_laws;
pub mod channels;
pub mod error;
pub mod login;
pub mod masks;
pub mod record;
pub mod request_laws;
pub mod users;
