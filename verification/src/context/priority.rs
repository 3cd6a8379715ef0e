//! Sending priority of a file from its role.

use vstd::prelude::*;
use crate::text::{chars_of, owned, str_same};

verus! {

/// Priority and reason for a file of role `role`.
pub open spec fn priority_for_role(role: Seq<char>) -> (Seq<char>, Seq<char>) {
    if role == "Brain"@ {
        ("MustSend"@, "Core logic file - essential for understanding project behavior"@)
    } else if role == "Entry"@ {
        ("MustSend"@, "Entry point - execution starts here"@)
    } else if role == "Interface"@ {
        ("ShouldSend"@, "API/routes interface - important for understanding external interactions"@)
    } else if role == "Connector"@ {
        ("ShouldSend"@, "Integration layer - shows external dependencies"@)
    } else if role == "Config"@ {
        ("SendIfNeeded"@, "Configuration - reference when needed for context"@)
    } else if role == "Output"@ {
        ("SendIfNeeded"@, "Output/rendering - useful for understanding data flow"@)
    } else if role == "Utility"@ {
        ("IgnoreFirst"@, "Helper function - read only if specific functionality is needed"@)
    } else if role == "Dangerous"@ {
        ("NeverSend"@, "Security-sensitive - do not send to LLM without explicit approval"@)
    } else {
        ("IgnoreFirst"@, "Unclassified - low priority for initial analysis"@)
    }
}

/// The sending priority of a role, with the reason for it.
pub fn get_priority_for_role(role: &str) -> (r: (String, String))
    ensures
        (r.0@, r.1@) == priority_for_role(role@),
{
    let c = chars_of(role);
    let c = c.as_slice();
    if str_same(c, "Brain") {
        (owned("MustSend"), owned("Core logic file - essential for understanding project behavior"))
    } else if str_same(c, "Entry") {
        (owned("MustSend"), owned("Entry point - execution starts here"))
    } else if str_same(c, "Interface") {
        (
            owned("ShouldSend"),
            owned("API/routes interface - important for understanding external interactions"),
        )
    } else if str_same(c, "Connector") {
        (owned("ShouldSend"), owned("Integration layer - shows external dependencies"))
    } else if str_same(c, "Config") {
        (owned("SendIfNeeded"), owned("Configuration - reference when needed for context"))
    } else if str_same(c, "Output") {
        (owned("SendIfNeeded"), owned("Output/rendering - useful for understanding data flow"))
    } else if str_same(c, "Utility") {
        (owned("IgnoreFirst"), owned("Helper function - read only if specific functionality is needed"))
    } else if str_same(c, "Dangerous") {
        (owned("NeverSend"), owned("Security-sensitive - do not send to LLM without explicit approval"))
    } else {
        (owned("IgnoreFirst"), owned("Unclassified - low priority for initial analysis"))
    }
}

/// The sending priority of each role: `Brain` and `Entry` must be sent,
/// `Interface` and `Connector` should be, `Config` and `Output` when needed,
/// `Utility` and unknown roles last, and `Dangerous` never.
pub proof fn lemma_role_priorities(role: Seq<char>)
    ensures
        role == "Brain"@ || role == "Entry"@ ==> priority_for_role(role).0 == "MustSend"@,
        role == "Interface"@ || role == "Connector"@ ==> priority_for_role(role).0 == "ShouldSend"@,
        role == "Config"@ || role == "Output"@ ==> priority_for_role(role).0 == "SendIfNeeded"@,
        role == "Dangerous"@ ==> priority_for_role(role).0 == "NeverSend"@,
        role != "Brain"@ && role != "Entry"@ && role != "Interface"@ && role != "Connector"@ && role
            != "Config"@ && role != "Output"@ && role != "Dangerous"@ ==> priority_for_role(role).0
            == "IgnoreFirst"@,
{
    reveal_strlit("Brain");
    reveal_strlit("Entry");
    reveal_strlit("Interface");
    reveal_strlit("Connector");
    reveal_strlit("Config");
    reveal_strlit("Output");
    reveal_strlit("Utility");
    reveal_strlit("Dangerous");
    assert("Brain"@.len() == 5 && "Entry"@.len() == 5 && "Brain"@[0] != "Entry"@[0]);
    assert("Interface"@.len() == 9 && "Connector"@.len() == 9 && "Dangerous"@.len() == 9);
    assert("Interface"@[0] != "Connector"@[0] && "Interface"@[0] != "Dangerous"@[0] && "Connector"@[0]
        != "Dangerous"@[0]);
    assert("Config"@.len() == 6 && "Output"@.len() == 6 && "Config"@[0] != "Output"@[0]);
    assert("Utility"@.len() == 7);
}

} // verus!
