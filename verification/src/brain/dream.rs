//! The background indexer's messages and its decision to commit.
use vstd::prelude::*;
use crate::text::{push_str, string_from};
use crate::words::{decimal, push_decimal};

verus! {

/// The counts of one pass over the project: the files seen and the documents
/// indexed.
#[derive(Debug, Clone, Copy, PartialEq, Eq, Structural)]
pub struct DreamPass {
    pub file_count: u64,
    pub total_indexed: u64,
}

impl DreamPass {
    /// A pass that has seen nothing yet.
    pub fn new() -> (p: Self)
        ensures
            p.file_count == 0 && p.total_indexed == 0,
    {
        DreamPass { file_count: 0, total_indexed: 0 }
    }

    /// Counts a file; `indexed` tells whether it was read and added to the
    /// index.
    pub fn count_file(&mut self, indexed: bool)
        requires
            old(self).file_count < u64::MAX,
            old(self).total_indexed < u64::MAX,
        ensures
            final(self).file_count == old(self).file_count + 1,
            final(self).total_indexed == old(self).total_indexed + (if indexed {
                1int
            } else {
                0int
            }),
    {
        self.file_count = self.file_count + 1;
        if indexed {
            self.total_indexed = self.total_indexed + 1;
        }
    }

    /// Whether the index is committed after the pass: only when something
    /// was added.
    pub fn should_commit(&self) -> (b: bool)
        ensures
            b == (self.total_indexed > 0),
    {
        self.total_indexed > 0
    }

    /// The report of the pass.
    pub fn report(&self) -> (r: String)
        ensures
            r@ == "☁️ Dream: Oriented. Found "@ + decimal(self.file_count as nat) + " files. Synthesized "@
                + decimal(self.total_indexed as nat) + " documents."@,
    {
        let mut r = string_from("☁️ Dream: Oriented. Found ");
        push_decimal(&mut r, self.file_count);
        push_str(&mut r, " files. Synthesized ");
        push_decimal(&mut r, self.total_indexed);
        push_str(&mut r, " documents.");
        r
    }
}

/// The message when the indexer starts.
pub fn spin_up_message() -> (m: String)
    ensures
        m@ == "☁️ Dream daemon spun up... orienting."@,
{
    string_from("☁️ Dream daemon spun up... orienting.")
}

/// The message when the indexer stops.
pub fn shutdown_message() -> (m: String)
    ensures
        m@ == "💤 Dream daemon shutting down gracefully."@,
{
    string_from("💤 Dream daemon shutting down gracefully.")
}

/// The message when the indexer starts.
pub open spec fn spin_up_text() -> Seq<char> {
    "☁️ Dream daemon spun up... orienting."@
}

/// The message when the indexer stops.
pub open spec fn shutdown_text() -> Seq<char> {
    "💤 Dream daemon shutting down gracefully."@
}

/// The report of a pass.
pub open spec fn report_text(p: DreamPass) -> Seq<char> {
    "☁️ Dream: Oriented. Found "@ + decimal(p.file_count as nat) + " files. Synthesized "@ + decimal(
        p.total_indexed as nat,
    ) + " documents."@
}

/// How long the indexer rests between passes, in seconds.
pub open spec fn rest_seconds() -> u64 {
    60
}

/// Where the background indexer stands.
#[derive(Debug, Clone, Copy, PartialEq, Eq, Structural)]
pub enum DreamPhase {
    /// Not started yet.
    Starting,
    /// About to read the shutdown flag before a pass.
    Checking,
    /// A pass over the project is under way.
    Indexing,
    /// Resting between passes.
    Resting,
    /// Stopped for good.
    Stopped,
}

/// What the indexer learns from the world.
pub enum DreamEvent {
    /// It was started.
    Began,
    /// The shutdown flag was read, and this is its value.
    ShutdownFlag(bool),
    /// A pass over the project ended with these counts.
    PassEnded(DreamPass),
    /// The rest ended: either the shutdown flag changed (to `shutdown`) or
    /// the time ran out.
    Woke { flag_changed: bool, shutdown: bool },
}

/// What the indexer does next.
pub enum DreamAction {
    /// Send a message to the session.
    Notify(String),
    /// Walk the project and index its files, counting them in a pass.
    IndexProject,
    /// Commit what the pass added to the index.
    Commit,
    /// Rest this many seconds, or until the shutdown flag changes.
    Rest(u64),
    /// Stop for good.
    Halt,
}

/// `a` sends the message `text`.
pub open spec fn notifies(a: DreamAction, text: Seq<char>) -> bool {
    a matches DreamAction::Notify(m) && m@ == text
}

/// The actions that stop the indexer: the shutdown message, then halting.
pub open spec fn stops(acts: Seq<DreamAction>) -> bool {
    &&& acts.len() == 2
    &&& notifies(acts[0], shutdown_text())
    &&& acts[1] is Halt
}

/// The indexer's rules: from `phase`, on `event`, it goes to `next` and does
/// `acts` in order. Once started it announces itself and reads the shutdown
/// flag; a set flag stops it, otherwise it indexes the project; after a pass
/// it commits only if something was indexed, reports the pass and rests; a
/// rest ended by the flag being set stops it, any other end of a rest sends
/// it back to reading the flag. An event that does not fit the phase changes
/// nothing.
pub open spec fn dream_transition(
    phase: DreamPhase,
    event: DreamEvent,
    next: DreamPhase,
    acts: Seq<DreamAction>,
) -> bool {
    let ignored = next == phase && acts.len() == 0;
    match event {
        DreamEvent::Began => if phase == DreamPhase::Starting {
            &&& next == DreamPhase::Checking
            &&& acts.len() == 1
            &&& notifies(acts[0], spin_up_text())
        } else {
            ignored
        },
        DreamEvent::ShutdownFlag(set) => if phase == DreamPhase::Checking {
            if set {
                next == DreamPhase::Stopped && stops(acts)
            } else {
                &&& next == DreamPhase::Indexing
                &&& acts.len() == 1
                &&& acts[0] is IndexProject
            }
        } else {
            ignored
        },
        DreamEvent::PassEnded(p) => if phase == DreamPhase::Indexing {
            &&& next == DreamPhase::Resting
            &&& if p.total_indexed > 0 {
                &&& acts.len() == 3
                &&& acts[0] is Commit
                &&& notifies(acts[1], report_text(p))
                &&& acts[2] == DreamAction::Rest(rest_seconds())
            } else {
                &&& acts.len() == 2
                &&& notifies(acts[0], report_text(p))
                &&& acts[1] == DreamAction::Rest(rest_seconds())
            }
        } else {
            ignored
        },
        DreamEvent::Woke { flag_changed, shutdown } => if phase == DreamPhase::Resting {
            if flag_changed && shutdown {
                next == DreamPhase::Stopped && stops(acts)
            } else {
                next == DreamPhase::Checking && acts.len() == 0
            }
        } else {
            ignored
        },
    }
}

/// One step of the indexer (see `dream_transition`).
pub fn dream_step(phase: DreamPhase, event: DreamEvent) -> (r: (DreamPhase, Vec<DreamAction>))
    ensures
        dream_transition(phase, event, r.0, r.1@),
{
    let mut acts: Vec<DreamAction> = Vec::new();
    match event {
        DreamEvent::Began => {
            if phase == DreamPhase::Starting {
                acts.push(DreamAction::Notify(spin_up_message()));
                return (DreamPhase::Checking, acts);
            }
        },
        DreamEvent::ShutdownFlag(set) => {
            if phase == DreamPhase::Checking {
                if set {
                    acts.push(DreamAction::Notify(shutdown_message()));
                    acts.push(DreamAction::Halt);
                    return (DreamPhase::Stopped, acts);
                }
                acts.push(DreamAction::IndexProject);
                return (DreamPhase::Indexing, acts);
            }
        },
        DreamEvent::PassEnded(p) => {
            if phase == DreamPhase::Indexing {
                if p.should_commit() {
                    acts.push(DreamAction::Commit);
                }
                acts.push(DreamAction::Notify(p.report()));
                acts.push(DreamAction::Rest(60));
                return (DreamPhase::Resting, acts);
            }
        },
        DreamEvent::Woke { flag_changed, shutdown } => {
            if phase == DreamPhase::Resting {
                if flag_changed && shutdown {
                    acts.push(DreamAction::Notify(shutdown_message()));
                    acts.push(DreamAction::Halt);
                    return (DreamPhase::Stopped, acts);
                }
                return (DreamPhase::Checking, acts);
            }
        },
    }
    (phase, acts)
}

} // verus!
