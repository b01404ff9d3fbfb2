use esprit::agents::{agent_prompt, parse_agent, Agent};

#[test]
fn agents_are_named_on_the_command_line() {
    assert_eq!(parse_agent("code").map(|a| a.label()), Some("code"));
    assert_eq!(parse_agent("chat").map(|a| a.label()), Some("chat"));
    assert_eq!(parse_agent("search").map(|a| a.label()), Some("search"));
    assert!(parse_agent("Code").is_none());
}

#[test]
fn agent_prompts_start_with_their_instructions() {
    assert_eq!(agent_prompt(&Agent::Chat, "hi"), "hi");
    assert_eq!(agent_prompt(&Agent::Search, "auth"), "Find everything in the project related to:\nauth");
    assert!(agent_prompt(&Agent::Code, "fix it").starts_with("You are an expert Rust engineer"));
    assert!(agent_prompt(&Agent::Code, "fix it").ends_with("\n\nfix it"));
}
