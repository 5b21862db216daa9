//! A terminal-resident task list editor, verified with Verus.
//!
//! The library holds everything with state or sequencing logic: the ordered
//! task list and its mutations, the selection cursor, the single-line entry
//! buffer, the modal input state machine, the pure render projection, and the
//! codec for the durable on-disk representation.  Terminal painting and the
//! blocking event source live outside the library and only hand plain values
//! in and out.

pub mod app;
pub mod buffer;
pub mod codec;
pub mod render;
pub mod selection;
mod strutil;
pub mod task;
