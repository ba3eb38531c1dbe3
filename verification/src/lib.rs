//! Verified core of the Agent Identity, Agent Profile, Agent Delegation and
//! Agent Discourse protocols: identifiers, nonces, signed event envelopes,
//! delegation authority, room permissions and the pure parts of the local
//! connector.

pub mod codec;
pub mod crypto;
pub mod delegation;
pub mod discourse;
pub mod error;
pub mod http_client;
pub mod identity;
pub mod json_text;
pub mod local_connector;
pub mod mcp;
pub mod profile;
pub mod schema;
pub mod text;
