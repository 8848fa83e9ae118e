//! # beacon
//!
//! The protocol engine of a Minecraft Java Edition server: the wire codecs,
//! the per-connection protocol state machine, the packet registry and the
//! tick-driven dispatcher that answers the Server List Ping.

pub mod codec;
pub mod conn;
pub mod data;
pub mod error;
pub mod frame;
pub mod legacy;
pub mod number;
pub mod packets;
pub mod registry;
pub mod state;
pub mod status;
pub mod string;
pub mod varint;
pub mod world;
