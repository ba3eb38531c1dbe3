//! MCP service interface discovery metadata.

use vstd::prelude::*;

verus! {

#[derive(Clone, Copy, Debug, PartialEq, Eq, Structural)]
pub enum McpAuthorizationMode {
    /// Written `none` on the wire.
    Open,
    AgentJwt,
}

pub struct McpAuthorizationMetadata {
    pub mode: McpAuthorizationMode,
    pub agent_jwt_audience: Option<String>,
}

pub struct McpServiceInterfaceDiscovery {
    pub spec_version: String,
    pub endpoint: String,
    pub transport: String,
    pub authorization: Option<McpAuthorizationMetadata>,
    pub tools: Vec<String>,
    pub resources: Vec<String>,
    pub prompts: Vec<String>,
    /// Further members as `(name, JSON text)` pairs.
    pub extra: Vec<(String, String)>,
}

} // verus!
