//! Host-side engine for sandboxed plugin modules.
//!
//! The engine compiles a plugin binary into a reusable
//! [`engine::PluginModule`], creates one fresh, isolated
//! [`engine::PluginInstance`] per invocation, marshals
//! byte-string artifacts across the trust boundary through a length-prefixed
//! wire format, invokes a named exported transformation, and maps every guest
//! fault to a typed error.

pub mod artifact;
pub mod engine;
pub mod error;
pub mod sandbox;
pub mod wire;
