//! A read-only terminal text viewer: the cursor state machine, the viewport
//! renderer and the terminal output port, with their contracts.
//!
//! Nothing here touches a device. Commands are appended to an in-memory sink
//! ([`io_provider::FakeOut`]) and become visible to its reader on a flush; a
//! driver forwards what was flushed to the terminal, reads the viewport size
//! and the input events, and hands both to the functions of this crate.

pub mod buffer;
pub mod editor;
pub mod error;
pub mod event;
pub mod io_provider;
pub mod terminal;
pub mod viewer;
