//! Screen state and wire protocol of a virtual terminal host.
//!
//! Clients draw on a grid of cells by sending messages over a local stream
//! socket; the host keeps the grid and sends keys back. This crate holds the
//! parts with rules to keep:
//! - `cell`, `region`: the values that drawing messages carry, and clamping
//!   a region to the screen;
//! - `bytes`, `msg`: the little-endian wire format, with decoding that waits
//!   for whole messages;
//! - `console`: the grid that drawing messages are applied to;
//! - `session`: the reader's backlog, the writer's choice of connection, and
//!   the event loop's reaction to each message;
//! - `screen_buffer`: a character grid driven by a character stream and
//!   erase requests.

use vstd::prelude::*;

pub mod bytes;
pub mod cell;
pub mod console;
pub mod msg;
pub mod region;
pub mod screen_buffer;
pub mod session;

verus! {

} // verus!
