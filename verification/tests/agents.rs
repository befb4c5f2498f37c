use faber_aeternus::brain::agent::{AgentOutput, AgentState};
use faber_aeternus::brain::coordinator::{AgentKind, Coordinator};
use faber_aeternus::brain::specialists::coder::CoderTranscript;
use faber_aeternus::brain::specialists::{ArchitectAgent, CoderAgent, ReviewerAgent};
use faber_aeternus::syntax::RustParser;
use faber_aeternus::tools::parser::ToolCall;

#[test]
fn agents_have_names() {
    assert_eq!(ArchitectAgent::new().name(), "Architect");
    assert_eq!(CoderAgent::new().name(), "Coder");
    assert_eq!(ReviewerAgent::new().name(), "Critic");
    assert_eq!(
        CoderAgent::new().description(),
        "Diff-only isolated editor. Strictly restricted to edit_file."
    );
}

#[test]
fn critic_rejects_broken_rust() {
    let critic = ReviewerAgent::new();
    let mut parser = RustParser::new();
    let out = critic.review("{\"path\":\"a.rs\",\"content\":\"fn main() {\"}", &mut parser);
    assert_eq!(out.status, AgentState::Failed);
    assert_eq!(out.content, "Critic Auto-Rejected Diff: Tree-sitter AST ERROR nodes detected.");
    assert!(out.requested_tools.is_empty());
}

#[test]
fn critic_passes_sound_rust_and_other_input() {
    let critic = ReviewerAgent::new();
    let mut parser = RustParser::new();
    for input in ["{\"content\":\"fn main() {}\"}", "not json", "{\"content\":3}", "[1,2]"] {
        let out = critic.review(input, &mut parser);
        assert_eq!(out.status, AgentState::Completed, "{}", input);
        assert_eq!(out.content, "Critic completed. AST structural checks passed.");
    }
}

#[test]
fn coder_keeps_only_edits() {
    let mut t = CoderTranscript::new();
    t.absorb("Editing <tool_call name=\"edit_file\">{\"path\":\"a\"}</tool_call>");
    t.absorb(" and <tool_call name=\"run_shell\">{\"command\":\"rm\"}</tool_call>");
    t.absorb(" done");
    let out = t.finish();
    assert_eq!(out.status, AgentState::AwaitingApproval);
    assert_eq!(out.requested_tools.len(), 1);
    assert_eq!(out.requested_tools[0].name, "edit_file");
    assert_eq!(
        out.content,
        "Editing  and \n[SECURITY] Blocked attempt to use illegal tool: run_shell done"
    );
}

#[test]
fn coder_without_edits_completes() {
    let mut t = CoderTranscript::new();
    t.absorb("nothing to do");
    let out = t.finish();
    assert_eq!(out.status, AgentState::Completed);
    assert_eq!(out.content, "nothing to do");
}

#[test]
fn architect_prompt_and_output() {
    let a = ArchitectAgent::new();
    let p = a.prompt_with_context("CTX");
    assert!(p.starts_with("You are the Architect agent"));
    assert!(p.ends_with("Do not emit tool calls, just structural plans.\n\nContext files:\nCTX"));
    let out = a.plan_output(&vec![Some("a".to_string()), None, Some("b".to_string())]);
    assert_eq!(out.content, "ab");
    assert_eq!(out.status, AgentState::Completed);
    assert!(out.requested_tools.is_empty());
}

#[test]
fn coordinator_pipeline() {
    let c = Coordinator::new();
    assert_eq!(c.graph.node_count(), 3);
    assert_eq!(c.graph.edge_count(), 2);
    assert_eq!(c.agent("Coder"), Some(AgentKind::Coder));
    assert_eq!(c.agent("Critic"), Some(AgentKind::Reviewer));
    assert_eq!(c.agent("Nobody"), None);
    assert!(c.reviews_required("Coder"));
    assert!(!c.reviews_required("Architect"));
}

fn coder_out() -> AgentOutput {
    AgentOutput {
        content: "edits".to_string(),
        status: AgentState::AwaitingApproval,
        requested_tools: vec![ToolCall { name: "edit_file".to_string(), params: "{\"path\": \"a\"}".to_string() }],
    }
}

#[test]
fn critic_inputs_are_compact_json() {
    let c = Coordinator::new();
    assert_eq!(c.review_inputs(&coder_out()), vec!["{\"path\":\"a\"}".to_string()]);
}

#[test]
fn rejection_wipes_tools() {
    let c = Coordinator::new();
    let verdicts = vec![
        Some(AgentOutput { content: "bad one".to_string(), status: AgentState::Failed, requested_tools: vec![] }),
        None,
        Some(AgentOutput { content: "fine".to_string(), status: AgentState::Completed, requested_tools: vec![] }),
    ];
    let out = c.apply_reviews(coder_out(), &verdicts);
    assert_eq!(out.status, AgentState::Failed);
    assert!(out.requested_tools.is_empty());
    assert_eq!(out.content, "edits\n\n❌ [COORDINATOR] Auto-rejection triggered.\nReason: bad one");
}

#[test]
fn approval_keeps_tools() {
    let c = Coordinator::new();
    let verdicts = vec![None, Some(AgentOutput { content: "ok".to_string(), status: AgentState::Completed, requested_tools: vec![] })];
    let out = c.apply_reviews(coder_out(), &verdicts);
    assert_eq!(out.status, AgentState::AwaitingApproval);
    assert_eq!(out.requested_tools.len(), 1);
    assert_eq!(out.content, "edits");
}

#[test]
fn reviewed_coder_step_holds_only_edits() {
    let c = Coordinator::new();
    let mut t = CoderTranscript::new();
    t.absorb("<tool_call name=\"run_shell\">{\"command\":\"ls\"}</tool_call>");
    t.absorb("<tool_call name=\"edit_file\">{\"path\":\"b\",\"content\":\"fn b() {}\"}</tool_call> x");
    let step = t.finish();
    let mut parser = RustParser::new();
    let critic = ReviewerAgent::new();
    let verdicts: Vec<Option<AgentOutput>> =
        c.review_inputs(&step).iter().map(|i| Some(critic.review(i, &mut parser))).collect();
    let out = c.apply_reviews(step, &verdicts);
    assert_eq!(out.status, AgentState::AwaitingApproval);
    assert_eq!(out.requested_tools.len(), 1);
    assert!(out.requested_tools.iter().all(|t| t.name == "edit_file"));
}
