//! The session log: what the user asked, what the agents did, and which
//! files were backed up.
use vstd::prelude::*;

verus! {

/// A moment in UTC: seconds since the Unix epoch and the nanoseconds past
/// that second.
#[derive(Debug, Clone, Copy, PartialEq, Eq, Structural)]
pub struct Timestamp {
    pub secs: i64,
    pub nanos: u32,
}

/// One entry of the session log.
pub enum MemoryEntry {
    UserPrompt { timestamp: Timestamp, content: String },
    AgentTrajectory { timestamp: Timestamp, agent_name: String, content: String },
    Snapshot { timestamp: Timestamp, file_path: String, backup_path: String },
}

/// The log of a session and the file that it is persisted to.
pub struct SessionMemory {
    log_path: String,
    entries: Vec<MemoryEntry>,
}

impl SessionMemory {
    /// The entries, oldest first.
    pub closed spec fn logged(&self) -> Seq<MemoryEntry> {
        self.entries@
    }

    /// The file that the log is persisted to.
    pub closed spec fn path(&self) -> Seq<char> {
        self.log_path@
    }

    /// A log persisted to `log_path` that holds `entries`, as read back.
    pub fn new(log_path: String, entries: Vec<MemoryEntry>) -> (m: Self)
        ensures
            m.path() == log_path@,
            m.logged() == entries@,
    {
        SessionMemory { log_path, entries }
    }

    /// Appends an entry to the log.
    pub fn log(&mut self, entry: MemoryEntry)
        ensures
            final(self).logged() == old(self).logged().push(entry),
            final(self).path() == old(self).path(),
    {
        self.entries.push(entry);
    }

    /// The entries, oldest first, to be persisted.
    pub fn entries(&self) -> (e: &Vec<MemoryEntry>)
        ensures
            e@ == self.logged(),
    {
        &self.entries
    }

    /// The file that the log is persisted to.
    pub fn log_path(&self) -> (p: &str)
        ensures
            p@ == self.path(),
    {
        self.log_path.as_str()
    }
}

} // verus!
