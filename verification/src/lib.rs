//! Attachment storage engine for a local desktop assistant.
//!
//! The library keeps user-supplied binary attachments under per-project and
//! per-chat scopes.  Untrusted identifiers are confined to a sandbox root by a
//! lexical path guard, payloads above a size threshold are stored compressed,
//! and a catalog keeps one record per stored blob.  Alongside the engine live
//! the server-registry configuration manager, the session authentication
//! service and the API-key cache that the surrounding application uses.

pub mod auth;
pub mod clock;
pub mod codec;
pub mod errors;
pub mod path_guard;
pub mod ids;
pub mod mcp;
pub mod store;
pub mod anthropic;
pub mod project;
