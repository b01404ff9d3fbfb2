//! Named assistants and the prompts they send.

use vstd::prelude::*;
use crate::text::push_str;

verus! {

/// The built-in assistants.
pub enum Agent {
    /// General-purpose conversational assistant.
    Chat,
    /// Expert Rust/code assistant.
    Code,
    /// Project-search oriented agent.
    Search,
}

impl Agent {
    pub open spec fn label_spec(&self) -> Seq<char> {
        match self {
            Agent::Chat => "chat"@,
            Agent::Code => "code"@,
            Agent::Search => "search"@,
        }
    }

    pub open spec fn prefix_spec(&self) -> Seq<char> {
        match self {
            Agent::Chat => ""@,
            Agent::Code => "You are an expert Rust engineer with deep knowledge of systems programming, async Rust, and the Esprit codebase.\n\n"@,
            Agent::Search => "Find everything in the project related to:\n"@,
        }
    }

    /// Human-readable label for this agent.
    pub fn label(&self) -> (l: &'static str)
        ensures
            l@ == self.label_spec(),
    {
        match self {
            Agent::Chat => "chat",
            Agent::Code => "code",
            Agent::Search => "search",
        }
    }

    /// The instructions put in front of the user's prompt.
    pub fn system_prefix(&self) -> (p: &'static str)
        ensures
            p@ == self.prefix_spec(),
    {
        match self {
            Agent::Chat => "",
            Agent::Code => "You are an expert Rust engineer with deep knowledge of systems programming, async Rust, and the Esprit codebase.\n\n",
            Agent::Search => "Find everything in the project related to:\n",
        }
    }
}

/// The agent's name for a command-line word: `chat`, `code` or `search`.
pub fn parse_agent(name: &str) -> (a: Option<Agent>)
    ensures
        match a {
            Some(ag) => ag.label_spec() == name@,
            None => name@ != "chat"@ && name@ != "code"@ && name@ != "search"@,
        },
{
    if crate::text::str_eq(name, "chat") {
        Some(Agent::Chat)
    } else if crate::text::str_eq(name, "code") {
        Some(Agent::Code)
    } else if crate::text::str_eq(name, "search") {
        Some(Agent::Search)
    } else {
        None
    }
}

/// The full prompt an agent sends: its instructions, then the user's prompt.
pub fn agent_prompt(agent: &Agent, prompt: &str) -> (p: String)
    ensures
        p@ == agent.prefix_spec() + prompt@,
{
    let mut p = agent.system_prefix().to_string();
    push_str(&mut p, prompt);
    p
}

} // verus!
