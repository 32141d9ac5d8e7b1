//! An adaptation layer that lets a blocking-flavored secure-transport engine
//! run over a non-blocking transport.
//!
//! The engine speaks to the world through two synchronous operations that may
//! report "would block"; the adapter absorbs every such report by performing
//! exactly one asynchronous transport step (a buffer fill or a buffer flush)
//! and retrying, so that callers only ever see completed operations or
//! terminal failures.  The modules here hold the verified core: the buffering
//! bridge between the two worlds, the handshake driver, the post-handshake
//! stream operations, the error taxonomy, and the session-cache and
//! certificate-compression helpers that ride along with the engine.

pub mod bridge;
pub mod cert_compression;
pub mod errors;
pub mod extensions;
pub mod handshake;
pub mod session_cache;
pub mod stream;
pub mod transport;
