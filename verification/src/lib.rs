//! A Noise-based secure-session engine for a mesh router: wire framing,
//! handshake additional data, the authentication table, the session registry
//! and the ingress dispatcher.

pub mod additional;
pub mod auth;
pub mod bytes;
pub mod codec;
pub mod dispatch;
pub mod error;
pub mod keys;
pub mod logging;
pub mod registry;
pub mod session;
pub mod tunnel;
