//! A text chat relay: message types, length-prefixed framing, the shared
//! directory of connections, bounded history, and the routing rules.

pub mod codec;
pub mod directory;
pub mod history;
pub mod keyed;
pub mod laws;
pub mod message;
pub mod router;
pub mod session;
