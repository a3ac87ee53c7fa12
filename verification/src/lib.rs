//! Shade: the verified core of an IRC channel-management mesh.

pub mod api;
pub mod bytes;
pub mod char_set;
pub mod crypto;
pub mod encoding;
pub mod ircd;
pub mod mesh;
pub mod model;
pub mod node;
pub mod order;
pub mod proto;
pub mod store;
pub mod text;
pub mod text_laws;
pub mod text_map;
pub mod text_set;
pub mod views;
