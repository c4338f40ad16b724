//! The opening handshake of a WebSocket server, as a verified core.
//!
//! The server accepts connections, takes the upgrade request of each from a
//! tokenizer that is fed the bytes as they arrive, and answers a request
//! that asks for the upgrade and carries a client key with the response that
//! the protocol fixes. Sockets and the event loop stay outside: whoever
//! owns them hands over what each read, write and accept gave and is told
//! what to do next.
//!
//! - [`handshake`]: the accept token and the response.
//! - [`headers`]: the mapping of header names to values.
//! - [`parser`]: the handler that collects the headers from the tokenizer.
//! - [`client`]: one connection and the states of its handshake.
//! - [`server`]: the registry of connections and the dispatch of events.

pub mod client;
pub mod handshake;
pub mod headers;
pub mod parser;
pub mod server;
