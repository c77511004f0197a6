//! Wire layer of a display-server protocol client: the little-endian word
//! codec, fixed-point numbers, length-prefixed strings and arrays, the message
//! header, and the decisions that keep a shared connection coherent.

pub mod connection;
pub mod fixed;
pub mod header;
pub mod message;
pub mod queue;
pub mod request;
pub mod string;
pub mod word;
