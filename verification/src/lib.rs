//! A client engine for the Source RCON protocol.
//!
//! The crate holds the parts of an RCON client that can go wrong in subtle
//! ways: the binary frame layout, the authentication handshake and the
//! collection of multi-packet responses. It performs no I/O. A driver owns
//! the socket, carries out the [`Action`]s that a session asks for and
//! reports back what happened as [`Event`]s.

pub mod buffer;
pub mod config;
pub mod packet;
pub mod session;
pub mod shell;
pub mod text;

pub use packet::{Packet, PacketError, PacketType};
pub use session::{Action, Event, Rcon, RconError};
pub use shell::Args;
