//! The verified core of a real-time state-synchronization server: clients connect, send
//! movement commands, and receive at a fixed cadence a JSON snapshot of every entity.
//!
//! `World` holds the shared state (id allocator, entity store, connection registry) and
//! decides what each event does to it; the transport, the timer and the tasks live
//! outside this library and hand it plain values.

pub mod command;
pub mod entity;
pub mod ids;
pub mod registry;
mod removal;
pub mod store;
pub mod text;
pub mod world;

pub use command::{Command, Message};
pub use entity::{encode_snapshot, Entity};
pub use world::{Broadcast, World};
