//! Who a request is made for.

use vstd::prelude::*;

verus! {

/// The agent that an empty or missing agent id stands for.
pub const DEFAULT_AGENT_ID: &'static str = "default";

/// An agent id as the store keys it: the id itself, or `"default"` for the
/// empty id.
pub open spec fn resolved_agent(agent_id: Seq<char>) -> Seq<char> {
    if agent_id.len() == 0 {
        "default"@
    } else {
        agent_id
    }
}

/// Returns the agent id as the store keys it.
pub fn agent_or_default(agent_id: &str) -> (resolved: &str)
    ensures
        resolved@ == resolved_agent(agent_id@),
{
    if agent_id.is_empty() {
        "default"
    } else {
        agent_id
    }
}

/// Tenant and agent of a request.
#[derive(Debug, Clone)]
pub struct TenantContext {
    /// Unique tenant identifier.
    pub tenant_id: String,
    /// Optional correlation id for request tracing.
    pub correlation_id: Option<String>,
    /// Agent instance id; `None` or empty stands for the default agent.
    pub agent_id: Option<String>,
}

impl TenantContext {
    /// The agent of this request as a specification value.
    pub open spec fn spec_resolved_agent_id(&self) -> Seq<char> {
        match self.agent_id {
            Some(id) => resolved_agent(id@),
            None => "default"@,
        }
    }

    /// Returns the agent of this request, never empty.
    pub fn resolved_agent_id(&self) -> (resolved: &str)
        ensures
            resolved@ == self.spec_resolved_agent_id(),
            resolved@.len() > 0,
    {
        proof {
            reveal_strlit("default");
        }
        match &self.agent_id {
            Some(id) => agent_or_default(id.as_str()),
            None => "default",
        }
    }
}

} // verus!
