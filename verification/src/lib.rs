//! The protocol core of a Phoenix channels client: how requests are numbered
//! and written to the socket, how replies, heartbeats and events find their
//! way back, and when the connection sends, closes and ends.
//!
//! The core performs no network work. It is told what the socket, the timer and
//! the queues answered, and says what to do next.

pub mod calls;
pub mod channel;
pub mod client;
pub mod connection;
pub mod json;
pub mod laws;
pub mod message;
pub mod offers;
pub mod reference;
pub mod steps;
pub mod subscriber;
pub mod table;
pub mod texts;
