//! An interactive terminal todo-list manager, verified.
//!
//! The library holds everything the program decides and computes: the modal
//! input-handling state machine ([`tui`]), the frame renderer ([`render`]),
//! the binary persistence codec ([`codec`]) and the text helpers they share
//! ([`text`]).  Terminal size queries, raw key reading, file access and
//! signal handling stay outside: the control loop hands the library decoded
//! keys and file contents and carries out the actions it returns.

pub mod codec;
pub mod render;
pub mod text;
pub mod tui;
