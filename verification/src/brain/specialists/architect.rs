//! The Architect: long-horizon planning, read-only.
use vstd::prelude::*;
use crate::brain::agent::{AgentOutput, AgentState};
use crate::text::{push_str, string_from};

verus! {

/// The instructions that open every Architect prompt.
pub open spec fn architect_system_prompt() -> Seq<char> {
    "You are the Architect agent, a master systems designer. You only read the project and output an ULTRAPLAN detailing the exact execution steps and required files. Do not emit tool calls, just structural plans."@
}

/// The texts of the chunks that arrived intact, in order.
pub open spec fn received_text(chunks: Seq<Option<String>>) -> Seq<char>
    decreases chunks.len(),
{
    if chunks.len() == 0 {
        seq![]
    } else {
        received_text(chunks.drop_last()) + match chunks.last() {
            Some(t) => t@,
            None => Seq::<char>::empty(),
        }
    }
}

/// Long-horizon task decomposition and repository planning.
pub struct ArchitectAgent {}

impl ArchitectAgent {
    pub fn new() -> (a: Self) {
        ArchitectAgent {}
    }

    pub fn name(&self) -> (n: &'static str)
        ensures
            n@ == "Architect"@,
    {
        "Architect"
    }

    pub fn description(&self) -> (d: &'static str)
        ensures
            d@ == "Long-horizon task decomposition and repository planning. Read-only."@,
    {
        "Long-horizon task decomposition and repository planning. Read-only."
    }

    /// The prompt for one planning step: the instructions, then the folded
    /// context files.
    pub fn prompt_with_context(&self, origami_context: &str) -> (p: String)
        ensures
            p@ == architect_system_prompt() + "\n\nContext files:\n"@ + origami_context@,
    {
        let mut p = string_from(
            "You are the Architect agent, a master systems designer. You only read the project and output an ULTRAPLAN detailing the exact execution steps and required files. Do not emit tool calls, just structural plans.",
        );
        push_str(&mut p, "\n\nContext files:\n");
        push_str(&mut p, origami_context);
        p
    }

    /// The step's result from the streamed reply, where a chunk that failed
    /// to arrive is `None`: the text of the chunks that arrived, completed,
    /// with no tool calls.
    pub fn plan_output(&self, chunks: &Vec<Option<String>>) -> (out: AgentOutput)
        ensures
            out.content@ == received_text(chunks@),
            out.status == AgentState::Completed,
            out.requested_tools@.len() == 0,
    {
        let mut full = String::new();
        let mut i: usize = 0;
        assert(chunks@.take(0) =~= Seq::<Option<String>>::empty());
        while i < chunks.len()
            invariant
                i <= chunks.len(),
                full@ == received_text(chunks@.take(i as int)),
            decreases chunks.len() - i,
        {
            assert(chunks@.take(i + 1).drop_last() =~= chunks@.take(i as int));
            match &chunks[i] {
                Some(t) => push_str(&mut full, t.as_str()),
                None => {},
            }
            assert(full@ =~= received_text(chunks@.take(i + 1)));
            i = i + 1;
        }
        assert(chunks@.take(i as int) =~= chunks@);
        AgentOutput { content: full, status: AgentState::Completed, requested_tools: Vec::new() }
    }
}

} // verus!
