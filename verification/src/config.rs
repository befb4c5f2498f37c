//! The agents' prompts and the project's ignore patterns.
use vstd::prelude::*;
use crate::text::string_from;

verus! {

pub open spec fn architect_prompt_text() -> Seq<char> {
    "You are the Architect agent, a master systems designer. You only read the project and output an ULTRAPLAN detailing the exact execution steps and required files. Do not emit tool calls, just structural plans."@
}

pub open spec fn coder_prompt_text() -> Seq<char> {
    "You are the Coder agent. You strictly implement changes by outputting <tool_call name=\"edit_file\">{\"path\": \"...\", \"diff\": \"...\"}</tool_call>. YOU MAY NEVER USE run_shell."@
}

pub open spec fn reviewer_prompt_text() -> Seq<char> {
    "Adversarial self-critic looking for bugs in Coder's diffs."@
}

/// The configuration of a project.
pub struct AppConfig {
    pub architect_prompt: String,
    pub coder_prompt: String,
    pub reviewer_prompt: String,
    pub ignore_patterns: Vec<String>,
}

pub fn default_architect_prompt() -> (p: String)
    ensures
        p@ == architect_prompt_text(),
{
    string_from(
        "You are the Architect agent, a master systems designer. You only read the project and output an ULTRAPLAN detailing the exact execution steps and required files. Do not emit tool calls, just structural plans.",
    )
}

pub fn default_coder_prompt() -> (p: String)
    ensures
        p@ == coder_prompt_text(),
{
    string_from(
        "You are the Coder agent. You strictly implement changes by outputting <tool_call name=\"edit_file\">{\"path\": \"...\", \"diff\": \"...\"}</tool_call>. YOU MAY NEVER USE run_shell.",
    )
}

pub fn default_reviewer_prompt() -> (p: String)
    ensures
        p@ == reviewer_prompt_text(),
{
    string_from("Adversarial self-critic looking for bugs in Coder's diffs.")
}

impl Default for AppConfig {
    /// The standard prompts and no ignore patterns.
    fn default() -> (c: Self)
        ensures
            c.architect_prompt@ == architect_prompt_text(),
            c.coder_prompt@ == coder_prompt_text(),
            c.reviewer_prompt@ == reviewer_prompt_text(),
            c.ignore_patterns@.len() == 0,
    {
        AppConfig {
            architect_prompt: default_architect_prompt(),
            coder_prompt: default_coder_prompt(),
            reviewer_prompt: default_reviewer_prompt(),
            ignore_patterns: Vec::new(),
        }
    }
}

/// `c` holds the standard prompts and no ignore patterns.
pub open spec fn is_default_config(c: AppConfig) -> bool {
    &&& c.architect_prompt@ == architect_prompt_text()
    &&& c.coder_prompt@ == coder_prompt_text()
    &&& c.reviewer_prompt@ == reviewer_prompt_text()
    &&& c.ignore_patterns@.len() == 0
}

/// The configuration of a project from what its configuration files gave,
/// each as nothing where it could not be read, or else as what it parses to
/// (nothing where it does not parse): the project's own file when it could
/// be read, the user's file only when the project's could not, and the
/// defaults where the file chosen does not parse or neither could be read.
pub fn choose_config(project: Option<Option<AppConfig>>, user: Option<Option<AppConfig>>) -> (c: AppConfig)
    ensures
        (match project {
            Some(Some(p)) => c == p,
            Some(None) => is_default_config(c),
            None => match user {
                Some(Some(u)) => c == u,
                _ => is_default_config(c),
            },
        }),
{
    match project {
        Some(Some(p)) => p,
        Some(None) => AppConfig::default(),
        None => match user {
            Some(Some(u)) => u,
            _ => AppConfig::default(),
        },
    }
}

} // verus!
