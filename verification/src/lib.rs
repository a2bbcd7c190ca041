//! A lightweight publish/subscribe core for multicast UDP group
//! communication.
//!
//! Several logical channels share one multicast group address. Producer
//! threads hand commands to a single I/O event loop through a command
//! channel; the loop owns the subscriber registry and the socket, frames
//! outbound messages, and delivers inbound payloads to every registered
//! callback. The verified part of the engine is here: the wire framing,
//! the address-class check performed before any socket is created, the
//! subscriber registry, and the command-application step of the event
//! loop. The socket, poller and wake plumbing live outside the library.

pub mod addr;
pub mod engine;
pub mod frame;
pub mod message;
pub mod registry;
