//! The domain model: users, channels, masks, roles, flags, tokens, cookies and
//! audit records.

pub mod flag_laws;
pub mod flags;
pub mod role;
pub mod role_assignment;
pub mod ids;
pub mod auth_token;
pub mod password;
pub mod time;
pub mod cookies;
pub mod audit;
pub mod channel;
pub mod mask;
pub mod user;
pub mod laws;
