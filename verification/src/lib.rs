//! A bridge from a chat room to a small monochrome display.
//!
//! Inbound room events are normalised into [`message::Message`] records,
//! carried through a bounded first-in first-out channel, and turned into a
//! fixed sequence of drawing operations: clear, header, wrapped body, flush.

pub mod message;
pub mod adapter;
pub mod channel;
pub mod layout;
pub mod render;
