//! A kernel for an interactive notebook protocol: message framing and
//! signing, logical messages, and the decisions of the channel loops and of
//! the execution coordinator. Sockets, threads and the query engine live
//! outside this library and drive it with plain values.
pub mod error;
pub mod signing;
pub mod wire;
pub mod json;
pub mod message;
pub mod connection_file;
pub mod content;
pub mod kernel;
pub mod variables;
pub mod util;
pub mod html;
