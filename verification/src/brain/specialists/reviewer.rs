//! The reviewing agent: rejects edits whose new Rust source does not parse cleanly.
use vstd::prelude::*;
use crate::brain::agent::{AgentOutput, AgentState};
use crate::json::{json_member, json_member_text, json_string, json_string_content};
use crate::syntax::{rust_syntax, RustParser, SyntaxNode};
use crate::text::string_from;

verus! {

/// Whether the reviewing agent rejects `input`: it is a JSON object whose `content`
/// member is a string, and the Rust tree that tree-sitter builds from that
/// string holds a syntax error.
pub open spec fn review_rejects(input: Seq<char>) -> bool {
    match json_member_text(input, "content"@) {
        Some(member) => match json_string_content(member) {
            Some(code) => match rust_syntax(code) {
                Some(tree) => tree.has_error,
                None => false,
            },
            None => false,
        },
        None => false,
    }
}

/// Adversarial self-critic looking for bugs in Coder's diffs.
pub struct ReviewerAgent {}

impl ReviewerAgent {
    pub fn new() -> (a: Self) {
        ReviewerAgent {}
    }

    pub fn name(&self) -> (n: &'static str)
        ensures
            n@ == "Critic"@,
    {
        "Critic"
    }

    pub fn description(&self) -> (d: &'static str)
        ensures
            d@ == "Adversarial self-critic looking for bugs in Coder's diffs."@,
    {
        "Adversarial self-critic looking for bugs in Coder's diffs."
    }

    /// Reviews the parameters of one tool call: a rejection when the Rust
    /// source in its `content` holds a syntax error, a pass otherwise. The
    /// parser must have the Rust grammar.
    pub fn review(&self, input: &str, parser: &mut RustParser) -> (out: AgentOutput)
        requires
            old(parser).ready(),
        ensures
            final(parser).ready(),
            out.requested_tools@.len() == 0,
            review_rejects(input@) ==> out.status == AgentState::Failed
                && out.content@ == "Critic Auto-Rejected Diff: Tree-sitter AST ERROR nodes detected."@,
            !review_rejects(input@) ==> out.status == AgentState::Completed
                && out.content@ == "Critic completed. AST structural checks passed."@,
    {
        match json_member(input, "content") {
            Some(member) => match json_string(member.as_str()) {
                Some(code) => match parser.parse(code.as_str()) {
                    Some(tree) => {
                        if tree.has_error {
                            return AgentOutput {
                                content: string_from(
                                    "Critic Auto-Rejected Diff: Tree-sitter AST ERROR nodes detected.",
                                ),
                                status: AgentState::Failed,
                                requested_tools: Vec::new(),
                            };
                        }
                    },
                    None => {},
                },
                None => {},
            },
            None => {},
        }
        AgentOutput {
            content: string_from("Critic completed. AST structural checks passed."),
            status: AgentState::Completed,
            requested_tools: Vec::new(),
        }
    }
}

/// Law: an edit whose Rust does not parse cleanly is rejected. When the
/// input is a JSON object whose `content` member is a string, and the syntax
/// tree of that string reports an error at its root (an error anywhere in
/// the file), the verdict is a rejection.
pub proof fn law_broken_rust_is_rejected(
    input: Seq<char>,
    member: Seq<char>,
    code: Seq<char>,
    tree: SyntaxNode,
)
    requires
        json_member_text(input, "content"@) == Some(member),
        json_string_content(member) == Some(code),
        rust_syntax(code) == Some(tree),
        tree.has_error,
    ensures
        review_rejects(input),
{
}

/// Law: only a syntax error rejects an edit. An input whose `content` is a
/// string whose tree reports no error, or that has no such string at all,
/// passes.
pub proof fn law_clean_rust_passes(input: Seq<char>)
    requires
        forall|member: Seq<char>, code: Seq<char>, tree: SyntaxNode|
            json_member_text(input, "content"@) == Some(member) && json_string_content(member)
                == Some(code) && rust_syntax(code) == Some(tree) ==> !tree.has_error,
    ensures
        !review_rejects(input),
{
}

} // verus!
