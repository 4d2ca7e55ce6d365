//! A transparent Wayland proxy that puts the name of its socket into every `app_id`.
//!
//! The library holds everything but input and output: [`wire`] reads and writes messages,
//! [`tracker`] knows the objects of a client, [`connection`] decides what is sent where, and
//! [`socket_path`] finds the sockets and names their prefixes. The modules whose names end
//! in `_laws` state what holds between these.

pub mod byte_order;
pub mod connection;
pub mod connection_laws;
pub mod object_ids;
pub mod opcodes;
pub mod poll_laws;
pub mod request_laws;
pub mod socket_path;
pub mod socket_path_laws;
pub mod text;
pub mod text_laws;
pub mod tracker;
pub mod tracker_laws;
pub mod wire;
pub mod wire_laws;
