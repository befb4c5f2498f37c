//! The Coder: edits files, and may ask for no tool but `edit_file`.
use vstd::prelude::*;
use crate::brain::agent::{AgentOutput, AgentState};
use crate::brain::fold::str_eq;
use crate::text::{push_str, string_from};
use crate::tools::parser::{drain, tool_views, StreamingParser, ToolCall};

verus! {

/// The note that replaces a call of a tool other than `edit_file`.
pub open spec fn blocked_note(name: Seq<char>) -> Seq<char> {
    "\n[SECURITY] Blocked attempt to use illegal tool: "@ + name
}

/// The notes for the calls in `ts` that are not `edit_file`, in order.
pub open spec fn screen_notes(ts: Seq<(Seq<char>, Seq<char>)>) -> Seq<char>
    decreases ts.len(),
{
    if ts.len() == 0 {
        seq![]
    } else {
        screen_notes(ts.drop_last()) + if ts.last().0 == "edit_file"@ {
            Seq::<char>::empty()
        } else {
            blocked_note(ts.last().0)
        }
    }
}

/// The calls in `ts` that are `edit_file`, in order.
pub open spec fn screen_kept(ts: Seq<(Seq<char>, Seq<char>)>) -> Seq<(Seq<char>, Seq<char>)>
    decreases ts.len(),
{
    if ts.len() == 0 {
        seq![]
    } else if ts.last().0 == "edit_file"@ {
        screen_kept(ts.drop_last()).push(ts.last())
    } else {
        screen_kept(ts.drop_last())
    }
}

/// Every call in `ts` is `edit_file`.
pub open spec fn only_edits(ts: Seq<(Seq<char>, Seq<char>)>) -> bool {
    forall|i: int| 0 <= i < ts.len() ==> (#[trigger] ts[i]).0 == "edit_file"@
}

pub proof fn lemma_screen_kept_only_edits(ts: Seq<(Seq<char>, Seq<char>)>)
    ensures
        only_edits(screen_kept(ts)),
    decreases ts.len(),
{
    if ts.len() > 0 {
        lemma_screen_kept_only_edits(ts.drop_last());
    }
}

/// Diff-only isolated editor.
pub struct CoderAgent {}

/// The Coder's reading of one streamed reply so far.
pub struct CoderTranscript {
    parser: StreamingParser,
    full_text: String,
    tools: Vec<ToolCall>,
}

impl CoderTranscript {
    /// Every gathered call is `edit_file`.
    #[verifier::type_invariant]
    spec fn only_edit_calls(self) -> bool {
        only_edits(tool_views(self.tools@))
    }

    /// The text held back by the parser.
    pub closed spec fn pending(&self) -> Seq<char> {
        self.parser.pending()
    }

    /// The text gathered so far, notes included.
    pub closed spec fn text(&self) -> Seq<char> {
        self.full_text@
    }

    /// The `edit_file` calls gathered so far.
    pub closed spec fn calls(&self) -> Seq<(Seq<char>, Seq<char>)> {
        tool_views(self.tools@)
    }

    /// A transcript with nothing read yet.
    pub fn new() -> (t: Self)
        ensures
            t.pending() == Seq::<char>::empty(),
            t.text() == Seq::<char>::empty(),
            t.calls() == Seq::<(Seq<char>, Seq<char>)>::empty(),
    {
        let t = CoderTranscript { parser: StreamingParser::new(), full_text: String::new(), tools: Vec::new() };
        assert(t.calls() =~= Seq::<(Seq<char>, Seq<char>)>::empty());
        t
    }

    /// Reads one chunk of the reply: the released text is kept, `edit_file`
    /// calls are kept, and every other call is replaced by a security note.
    pub fn absorb(&mut self, chunk: &str)
        ensures
            only_edits(final(self).calls()),
            ({
                let d = drain(old(self).pending() + chunk@);
                &&& final(self).pending() == d.2
                &&& final(self).text() == old(self).text() + d.0 + screen_notes(d.1)
                &&& final(self).calls() == old(self).calls() + screen_kept(d.1)
            }),
    {
        proof {
            use_type_invariant(&*self);
        }
        let ghost before_self = *self;
        let mut taken = CoderTranscript::new();
        std::mem::swap(&mut taken, self);
        let CoderTranscript { mut parser, mut full_text, tools: mut kept } = taken;
        let (safe_text, tools) = parser.push(chunk);
        let ghost d1 = tool_views(tools@);
        push_str(&mut full_text, safe_text.as_str());
        let ghost text0 = full_text@;
        let ghost calls0 = tool_views(kept@);
        let n = tools.len();
        let mut done: usize = 0;
        assert(d1.take(0) =~= Seq::<(Seq<char>, Seq<char>)>::empty());
        assert(calls0 + screen_kept(d1.take(0)) =~= calls0);
        assert(text0 + screen_notes(d1.take(0)) =~= text0);
        while done < n
            invariant
                n == tools.len(),
                d1 == tool_views(tools@),
                done <= n,
                full_text@ == text0 + screen_notes(d1.take(done as int)),
                tool_views(kept@) == calls0 + screen_kept(d1.take(done as int)),
                only_edits(tool_views(kept@)),
            decreases n - done,
        {
            let t = tools[done].copy();
            assert(d1.take(done + 1).drop_last() =~= d1.take(done as int));
            assert(d1.take(done + 1).last() == t@);
            if str_eq(t.name.as_str(), "edit_file") {
                let ghost before = tool_views(kept@);
                kept.push(t);
                assert(tool_views(kept@) =~= before.push(t@));
                assert(tool_views(kept@) =~= calls0 + screen_kept(d1.take(done + 1)));
            } else {
                push_str(&mut full_text, "\n[SECURITY] Blocked attempt to use illegal tool: ");
                push_str(&mut full_text, t.name.as_str());
                assert(full_text@ =~= text0 + screen_notes(d1.take(done + 1)));
            }
            done = done + 1;
        }
        assert(d1.take(done as int) =~= d1);
        assert(full_text@ =~= before_self.text() + drain(before_self.pending() + chunk@).0
            + screen_notes(d1));
        *self = CoderTranscript { parser, full_text, tools: kept };
    }

    /// The step's result: the gathered text, and the `edit_file` calls, which
    /// await approval if there are any.
    pub fn finish(self) -> (out: AgentOutput)
        ensures
            out.content@ == self.text(),
            out.tools_view() == self.calls(),
            out.status == (if self.calls().len() == 0 {
                AgentState::Completed
            } else {
                AgentState::AwaitingApproval
            }),
            only_edits(out.tools_view()),
    {
        proof {
            use_type_invariant(&self);
        }
        let status = if self.tools.len() == 0 {
            AgentState::Completed
        } else {
            AgentState::AwaitingApproval
        };
        AgentOutput { content: self.full_text, status, requested_tools: self.tools }
    }
}

/// Law: the Coder never asks for a tool but `edit_file`. A transcript that
/// starts empty and reads any chunks holds only `edit_file` calls.
pub proof fn law_coder_keeps_only_edits(
    calls: Seq<(Seq<char>, Seq<char>)>,
    released: Seq<(Seq<char>, Seq<char>)>,
)
    requires
        only_edits(calls),
    ensures
        only_edits(calls + screen_kept(released)),
{
    lemma_screen_kept_only_edits(released);
    assert forall|i: int| 0 <= i < (calls + screen_kept(released)).len() implies (#[trigger] (calls
        + screen_kept(released))[i]).0 == "edit_file"@ by {
        if i >= calls.len() {
            assert((calls + screen_kept(released))[i] == screen_kept(released)[i - calls.len()]);
        }
    }
}

impl CoderAgent {
    pub fn new() -> (a: Self) {
        CoderAgent {}
    }

    pub fn name(&self) -> (n: &'static str)
        ensures
            n@ == "Coder"@,
    {
        "Coder"
    }

    pub fn description(&self) -> (d: &'static str)
        ensures
            d@ == "Diff-only isolated editor. Strictly restricted to edit_file."@,
    {
        "Diff-only isolated editor. Strictly restricted to edit_file."
    }

    /// The instructions of every Coder step.
    pub fn system_prompt(&self) -> (p: String)
        ensures
            p@ == "You are the Coder agent. You strictly implement changes by outputting <tool_call name=\"edit_file\">{\"path\": \"...\", \"content\": \"<full updated file text>\"}</tool_call>. YOU MAY NEVER USE run_shell."@,
    {
        string_from(
            "You are the Coder agent. You strictly implement changes by outputting <tool_call name=\"edit_file\">{\"path\": \"...\", \"content\": \"<full updated file text>\"}</tool_call>. YOU MAY NEVER USE run_shell.",
        )
    }
}

} // verus!
