//! What the store decides: which rows are written, merged and matched.

pub mod channels;
pub mod glob;
pub mod gossip;
pub mod gossip_laws;
pub mod masks;
pub mod row_laws;
pub mod rows;
pub mod users;
pub mod write_laws;
