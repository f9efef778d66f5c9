//! Live preview broadcasting: a hub that fans rendered content out to any
//! number of viewers, and the per-connection protocol logic around it.
//!
//! One producer publishes successive versions of a rendered document; any
//! number of viewers join and leave; every viewer sees the latest version
//! when it joins and every later version as it is published.
//!
//! - [`hub`] holds the registry of viewers, the latest content, and one
//!   outbound conduit per viewer.
//! - [`history`] states what the hub guarantees over whole histories of
//!   operations: catch-up on joining, exactly-once and ordered fan-out,
//!   isolation of removals, and draining on shutdown.
//! - [`frame`] is the frame codec, over the parser and the writer of the
//!   websocket crate.
//! - [`inbox`] turns the bytes that a viewer sends into frames.
//! - [`connection`] is the handler of one connection: the handshake, the
//!   inbound and the outbound path, and the removal from the hub.
//! - [`page`] holds the defaults of the page that shows the preview.
//!
//! Nothing here touches a socket or a thread. The functions take what was
//! read and say what is to be written; whoever owns the transport does
//! both, with the hub behind one lock.

pub mod connection;
pub mod frame;
pub mod history;
pub mod hub;
pub mod inbox;
pub mod page;
