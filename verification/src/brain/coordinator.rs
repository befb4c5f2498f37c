//! The coordinator: the pipeline of agents and the review of the Coder's
//! edits.
use vstd::prelude::*;
use crate::brain::agent::{AgentOutput, AgentState};
use crate::brain::fold::str_eq;
use crate::brain::specialists::coder::only_edits;
use crate::json::{json_compact, json_compact_text, json_parses};
use crate::text::{push_str, string_from};

verus! {

#[verifier::external_type_specification]
#[verifier::external_body]
#[verifier::reject_recursive_types(N)]
#[verifier::reject_recursive_types(E)]
#[verifier::reject_recursive_types(Ty)]
#[verifier::reject_recursive_types(Ix)]
pub struct ExGraph<N, E, Ty, Ix>(petgraph::graph::Graph<N, E, Ty, Ix>);

#[verifier::external_type_specification]
#[verifier::external_body]
pub struct ExDirected(petgraph::Directed);

/// A directed graph of agents, named by their names.
pub type AgentGraph = petgraph::graph::Graph<String, (), petgraph::Directed, u32>;

/// The names on the nodes of an agent graph, by node index.
pub uninterp spec fn graph_nodes(g: AgentGraph) -> Seq<Seq<char>>;

/// The edges of an agent graph, as pairs of node indices, by edge index.
pub uninterp spec fn graph_edges(g: AgentGraph) -> Seq<(nat, nat)>;

/// Calls `Graph::new`. Claimed: the graph has no nodes and no edges.
#[verifier::external_body]
fn new_agent_graph() -> (g: AgentGraph)
    ensures
        graph_nodes(g) == Seq::<Seq<char>>::empty(),
        graph_edges(g) == Seq::<(nat, nat)>::empty(),
{
    petgraph::graph::Graph::new()
}

/// Calls `Graph::add_node` and returns the index of the new node
/// (`NodeIndex::index`). Claimed: the name is appended to the nodes, its
/// index is the former node count, and the edges stay.
#[verifier::external_body]
fn graph_add_node(g: &mut AgentGraph, name: String) -> (i: usize)
    requires
        graph_nodes(*old(g)).len() < u32::MAX,
    ensures
        graph_nodes(*final(g)) == graph_nodes(*old(g)).push(name@),
        graph_edges(*final(g)) == graph_edges(*old(g)),
        i == graph_nodes(*old(g)).len(),
{
    g.add_node(name).index()
}

/// Calls `Graph::add_edge` from node `a` to node `b`, which panics unless
/// both exist. Claimed: the edge is appended and the nodes stay.
#[verifier::external_body]
fn graph_add_edge(g: &mut AgentGraph, a: usize, b: usize)
    requires
        a < graph_nodes(*old(g)).len(),
        b < graph_nodes(*old(g)).len(),
        graph_edges(*old(g)).len() < u32::MAX,
    ensures
        graph_nodes(*final(g)) == graph_nodes(*old(g)),
        graph_edges(*final(g)) == graph_edges(*old(g)).push((a as nat, b as nat)),
{
    g.add_edge(petgraph::graph::NodeIndex::new(a), petgraph::graph::NodeIndex::new(b), ());
}

/// The specialists that the coordinator drives.
#[derive(Debug, Clone, Copy, PartialEq, Eq, Structural)]
pub enum AgentKind {
    Architect,
    Coder,
    Reviewer,
}

/// An agent's name.
pub open spec fn kind_name(k: AgentKind) -> Seq<char> {
    match k {
        AgentKind::Architect => "Architect"@,
        AgentKind::Coder => "Coder"@,
        AgentKind::Reviewer => "Critic"@,
    }
}

impl AgentKind {
    /// The agent's name.
    pub fn name(&self) -> (n: &'static str)
        ensures
            n@ == kind_name(*self),
    {
        match self {
            AgentKind::Architect => "Architect",
            AgentKind::Coder => "Coder",
            AgentKind::Reviewer => "Critic",
        }
    }
}

/// The pipeline of agents: the graph of who hands work to whom, and the
/// agents by name.
pub struct Coordinator {
    pub graph: AgentGraph,
    pub agents: Vec<AgentKind>,
}

/// The agent registered under `name`, the latest registration winning.
pub open spec fn agent_named(agents: Seq<AgentKind>, name: Seq<char>) -> Option<AgentKind>
    decreases agents.len(),
{
    if agents.len() == 0 {
        None
    } else if kind_name(agents.last()) == name {
        Some(agents.last())
    } else {
        agent_named(agents.drop_last(), name)
    }
}

/// The text that the reviewing agent reads for a tool call: its parameters written
/// compactly, as serde_json writes them (the parameters themselves where they
/// are not JSON).
pub open spec fn review_input(params: Seq<char>) -> Seq<char> {
    if json_parses(params) {
        json_compact_text(params)
    } else {
        params
    }
}

/// The notes of the reviews that failed, in order.
pub open spec fn rejection_notes(reviews: Seq<Option<AgentOutput>>) -> Seq<char>
    decreases reviews.len(),
{
    if reviews.len() == 0 {
        seq![]
    } else {
        rejection_notes(reviews.drop_last()) + match reviews.last() {
            Some(r) => if r.status == AgentState::Failed {
                r.content@
            } else {
                Seq::<char>::empty()
            },
            None => Seq::<char>::empty(),
        }
    }
}

/// Whether one of the reviews failed (a review that could not be made does
/// not count).
pub open spec fn any_rejected(reviews: Seq<Option<AgentOutput>>) -> bool {
    exists|i: int| 0 <= i < reviews.len() && is_rejection(#[trigger] reviews[i])
}

/// Whether a verdict is a failure.
pub open spec fn is_rejection(review: Option<AgentOutput>) -> bool {
    match review {
        Some(r) => r.status == AgentState::Failed,
        None => false,
    }
}

/// The text appended to a rejected step.
pub open spec fn rejection_text(notes: Seq<char>) -> Seq<char> {
    "\n\n❌ [COORDINATOR] Auto-rejection triggered.\nReason: "@ + notes
}

/// What review makes of a step, given the verdicts: if any verdict is a
/// failure, the step fails, the notes of the failed verdicts are appended to
/// its text and its tool calls are dropped; otherwise it stays as it was.
pub open spec fn review_outcome(step: AgentOutput, reviews: Seq<Option<AgentOutput>>, out: AgentOutput) -> bool {
    if any_rejected(reviews) {
        &&& out.status == AgentState::Failed
        &&& out.requested_tools@.len() == 0
        &&& out.content@ == step.content@ + rejection_text(rejection_notes(reviews))
    } else {
        &&& out.status == step.status
        &&& out.tools_view() == step.tools_view()
        &&& out.content@ == step.content@
    }
}

/// Law: one failed verdict, wherever it stands among the verdicts, rejects
/// the whole step: it fails and carries no tool call.
pub proof fn law_any_failed_verdict_rejects(
    step: AgentOutput,
    reviews: Seq<Option<AgentOutput>>,
    out: AgentOutput,
    i: int,
)
    requires
        review_outcome(step, reviews, out),
        0 <= i < reviews.len(),
        reviews[i] matches Some(r) && r.status == AgentState::Failed,
    ensures
        out.status == AgentState::Failed,
        out.requested_tools@.len() == 0,
{
    assert(is_rejection(reviews[i]));
}

/// Law: where no verdict is a failure (a verdict that could not be had is
/// none), the step comes through review as it was.
pub proof fn law_passed_review_keeps_step(step: AgentOutput, reviews: Seq<Option<AgentOutput>>, out: AgentOutput)
    requires
        review_outcome(step, reviews, out),
        forall|i: int|
            0 <= i < reviews.len() ==> !(#[trigger] reviews[i] matches Some(r) && r.status
                == AgentState::Failed),
    ensures
        out.status == step.status,
        out.tools_view() == step.tools_view(),
        out.content@ == step.content@,
{
    if any_rejected(reviews) {
        let i = choose|i: int| 0 <= i < reviews.len() && is_rejection(#[trigger] reviews[i]);
        assert(!(reviews[i] matches Some(r) && r.status == AgentState::Failed));
    }
}

/// Law: review lets no call through that the step did not ask for. A Coder
/// step, which asks only for `edit_file`, still carries only `edit_file`
/// calls after review, whatever the verdicts.
pub proof fn law_review_keeps_only_edits(step: AgentOutput, reviews: Seq<Option<AgentOutput>>, out: AgentOutput)
    requires
        review_outcome(step, reviews, out),
        only_edits(step.tools_view()),
    ensures
        only_edits(out.tools_view()),
{
    if any_rejected(reviews) {
        assert(out.tools_view().len() == 0);
    }
}

impl Coordinator {
    /// A pipeline of the Architect, the Coder and the reviewing agent, each handing
    /// work to the next.
    pub fn new() -> (c: Self)
        ensures
            graph_nodes(c.graph) == seq!["Architect"@, "Coder"@, "Critic"@],
            graph_edges(c.graph) == seq![(0nat, 1nat), (1nat, 2nat)],
            c.agents@ == seq![AgentKind::Architect, AgentKind::Coder, AgentKind::Reviewer],
    {
        let mut coordinator = Coordinator { graph: new_agent_graph(), agents: Vec::new() };
        let a_idx = coordinator.register_agent(AgentKind::Architect);
        let c_idx = coordinator.register_agent(AgentKind::Coder);
        let r_idx = coordinator.register_agent(AgentKind::Reviewer);
        coordinator.connect(a_idx, c_idx);
        coordinator.connect(c_idx, r_idx);
        assert(graph_nodes(coordinator.graph) =~= seq!["Architect"@, "Coder"@, "Critic"@]);
        assert(graph_edges(coordinator.graph) =~= seq![(0nat, 1nat), (1nat, 2nat)]);
        assert(coordinator.agents@ =~= seq![AgentKind::Architect, AgentKind::Coder, AgentKind::Reviewer]);
        coordinator
    }

    /// Adds an agent: a node with its name, and an entry in the roster.
    fn register_agent(&mut self, agent: AgentKind) -> (i: usize)
        requires
            graph_nodes(old(self).graph).len() < u32::MAX,
        ensures
            graph_nodes(final(self).graph) == graph_nodes(old(self).graph).push(kind_name(agent)),
            graph_edges(final(self).graph) == graph_edges(old(self).graph),
            final(self).agents@ == old(self).agents@.push(agent),
            i == graph_nodes(old(self).graph).len(),
    {
        let name = string_from(agent.name());
        self.agents.push(agent);
        graph_add_node(&mut self.graph, name)
    }

    /// Lets `from` hand work to `to`.
    fn connect(&mut self, from: usize, to: usize)
        requires
            from < graph_nodes(old(self).graph).len(),
            to < graph_nodes(old(self).graph).len(),
            graph_edges(old(self).graph).len() < u32::MAX,
        ensures
            graph_nodes(final(self).graph) == graph_nodes(old(self).graph),
            graph_edges(final(self).graph) == graph_edges(old(self).graph).push((from as nat, to as nat)),
            final(self).agents@ == old(self).agents@,
    {
        graph_add_edge(&mut self.graph, from, to);
    }

    /// The agent registered under `name`; `None` stands for an unknown agent.
    pub fn agent(&self, name: &str) -> (r: Option<AgentKind>)
        ensures
            r == agent_named(self.agents@, name@),
    {
        let mut i = self.agents.len();
        assert(self.agents@.take(i as int) =~= self.agents@);
        while i > 0
            invariant
                i <= self.agents.len(),
                agent_named(self.agents@, name@) == agent_named(self.agents@.take(i as int), name@),
            decreases i,
        {
            let k = self.agents[i - 1];
            assert(self.agents@.take(i as int).drop_last() =~= self.agents@.take(i - 1));
            if str_eq(k.name(), name) {
                return Some(k);
            }
            i = i - 1;
        }
        None
    }

    /// Whether a step of `target` has its tool calls reviewed: only the
    /// Coder's are.
    pub fn reviews_required(&self, target: &str) -> (r: bool)
        ensures
            r == (target@ == "Coder"@),
    {
        str_eq(target, "Coder")
    }

    /// The texts that the reviewing agent reads, one for each requested tool call.
    pub fn review_inputs(&self, out: &AgentOutput) -> (inputs: Vec<String>)
        ensures
            inputs@.len() == out.requested_tools@.len(),
            forall|i: int|
                0 <= i < inputs@.len() ==> (#[trigger] inputs@[i])@ == review_input(
                    out.requested_tools@[i].params@,
                ),
    {
        let mut inputs: Vec<String> = Vec::new();
        let mut i: usize = 0;
        while i < out.requested_tools.len()
            invariant
                i <= out.requested_tools.len(),
                inputs@.len() == i,
                forall|j: int|
                    0 <= j < i ==> (#[trigger] inputs@[j])@ == review_input(
                        out.requested_tools@[j].params@,
                    ),
            decreases out.requested_tools.len() - i,
        {
            let params = out.requested_tools[i].params.as_str();
            match json_compact(params) {
                Some(c) => inputs.push(c),
                None => inputs.push(string_from(params)),
            }
            i = i + 1;
        }
        inputs
    }

    /// The Coder's step after review, where `reviews[i]` is the reviewing agent's
    /// verdict on the i-th requested call (`None` where no verdict could be
    /// had). If any verdict is a failure, the step fails: the notes of the
    /// failed verdicts are appended to its text and its tool calls are
    /// dropped, so none of them reaches the user. Otherwise the step is
    /// returned as it was.
    pub fn apply_reviews(&self, coder_out: AgentOutput, reviews: &Vec<Option<AgentOutput>>) -> (out:
        AgentOutput)
        ensures
            review_outcome(coder_out, reviews@, out),
    {
        let mut all_valid = true;
        let mut reject_notes = String::new();
        let mut i: usize = 0;
        assert(reviews@.take(0) =~= Seq::<Option<AgentOutput>>::empty());
        while i < reviews.len()
            invariant
                i <= reviews.len(),
                reject_notes@ == rejection_notes(reviews@.take(i as int)),
                all_valid == !any_rejected(reviews@.take(i as int)),
            decreases reviews.len() - i,
        {
            assert(reviews@.take(i + 1).drop_last() =~= reviews@.take(i as int));
            assert(reviews@.take(i + 1)[i as int] == reviews@[i as int]);
            match &reviews[i] {
                Some(r) => {
                    if r.status == AgentState::Failed {
                        all_valid = false;
                        push_str(&mut reject_notes, r.content.as_str());
                    }
                },
                None => {},
            }
            assert(reject_notes@ =~= rejection_notes(reviews@.take(i + 1)));
            assert(all_valid == !any_rejected(reviews@.take(i + 1))) by {
                if any_rejected(reviews@.take(i + 1)) && all_valid {
                    let j = choose|j: int|
                        0 <= j < i + 1 && is_rejection(#[trigger] reviews@.take(i + 1)[j]);
                    assert(reviews@.take(i as int)[j] == reviews@.take(i + 1)[j]);
                }
                if !all_valid && !any_rejected(reviews@.take(i as int)) {
                    assert(reviews@.take(i + 1)[i as int] == reviews@[i as int]);
                }
                if any_rejected(reviews@.take(i as int)) {
                    let j = choose|j: int|
                        0 <= j < i && is_rejection(#[trigger] reviews@.take(i as int)[j]);
                    assert(reviews@.take(i + 1)[j] == reviews@.take(i as int)[j]);
                }
            }
            i = i + 1;
        }
        assert(reviews@.take(i as int) =~= reviews@);
        let mut out = coder_out;
        if !all_valid {
            push_str(&mut out.content, "\n\n❌ [COORDINATOR] Auto-rejection triggered.\nReason: ");
            push_str(&mut out.content, reject_notes.as_str());
            out.status = AgentState::Failed;
            out.requested_tools.clear();
            assert(out.content@ =~= coder_out.content@ + rejection_text(rejection_notes(reviews@)));
        }
        out
    }
}

} // verus!
