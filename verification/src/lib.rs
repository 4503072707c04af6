//! A small virtual private network: clients register with a rendezvous server,
//! get a virtual IPv4 address from it, and exchange IP packets through it or,
//! where a hole can be punched, with each other directly.

pub mod addr;
pub mod basic_server;
pub mod cache;
pub mod client;
pub mod client_effects;
pub mod client_laws;
pub mod clock;
pub mod config;
pub mod mesh_client;
pub mod protocol;
pub mod server;
pub mod server_effects;
pub mod server_laws;
pub mod static_assets;
pub mod table;
pub mod text;
pub mod tunnel;
pub mod webui;
