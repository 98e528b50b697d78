//! Client runtime core for a browser-hosted task list with a chat feed and an
//! animated canvas background.
//!
//! The library is the message-driven heart of the client: a dispatcher that
//! serializes user input, network events and animation ticks into one stream
//! of deterministic state transitions, together with the connection state
//! machine, the render scheduling model and the persistence codec that the
//! dispatcher drives.  All I/O (DOM, sockets, GPU, storage) is performed by
//! the host around the library; the dispatcher only emits commands.

use vstd::prelude::*;

pub mod conn;
pub mod dispatch;
pub mod laws;
pub mod msg;
pub mod render;
pub mod state;
pub mod store;

verus! {

} // verus!
