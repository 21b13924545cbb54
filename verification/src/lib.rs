//! Driver core for an ESP8266 WiFi co-processor that is spoken to over a
//! serial link with AT commands.
//!
//! The crate holds the protocol engine and leaves the serial link to its
//! caller. Bytes that arrive are handed to [`ingress::Ingress`], which
//! collects them in a [`buffer::Buffer`], frames them into responses and
//! routes each to one of two bounded queues. The foreground side,
//! [`adapter::Adapter`], says which command to put on the wire and what the
//! reply to it means for the socket table.
//!
//! - [`protocol`]: the commands, their text on the wire, and the responses.
//! - [`grammar`]: what the device says, as a specification.
//! - [`parser`]: the parser that meets it.
//! - [`framing`]: what the grammar promises of a window that grows.
//! - [`buffer`]: the accumulation buffer.
//! - [`queue`]: the two queues between the sides.
//! - [`ingress`]: the interrupt side.
//! - [`adapter`]: the foreground side and the socket table.
//! - [`bringup`]: the start of the board.
//! - [`network`]: socket handles for a network stack.
//! - [`num`]: decimal numbers as text.

pub mod adapter;
pub mod bringup;
pub mod buffer;
pub mod framing;
pub mod grammar;
pub mod ingress;
pub mod network;
pub mod num;
pub mod parser;
pub mod protocol;
pub mod queue;
