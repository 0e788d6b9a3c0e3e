//! Named DNS-server profiles and the per-platform rules for applying them
//! to the active network adapter.
pub mod addr;
pub mod commands;
pub mod dns;
pub mod interface;
pub mod profiles;
pub mod text;
