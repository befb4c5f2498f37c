//! The session state: the chat history, the pending permission, the agent's
//! status and the project.
pub mod snapshot;

use vstd::prelude::*;
use std::collections::VecDeque;
use crate::cli::Cli;
use crate::config::AppConfig;
use crate::text::string_from;

verus! {

/// Who wrote a message.
#[derive(Debug, Clone, Copy, PartialEq, Eq, Structural)]
pub enum MessageRole {
    User,
    Assistant,
    System,
    ToolCall,
    ToolResult,
}

/// A message of the conversation.
pub struct Message {
    pub role: MessageRole,
    pub content: String,
}

/// Where a tool call stands with the user.
pub enum PermissionState {
    Idle,
    Pending { tool_name: String, params: String },
    Approved { tool_name: String, params: String },
    Aborted,
}

/// The most messages the chat history keeps.
pub open spec fn history_limit() -> nat {
    50
}

/// The banner that opens every session.
pub open spec fn banner() -> Seq<char> {
    "🔥 faber-aeternus v0.1.0 — the eternal craftsman"@
}

/// The state of a session.
pub struct AppState {
    pub chat_history: VecDeque<String>,
    pub current_input: String,
    pub preview_diff: String,
    pub permission_state: PermissionState,
    pub agent_status: Option<String>,
    pub project_path: String,
    pub config: AppConfig,
}

/// The text views of a history.
pub open spec fn history_view(h: Seq<String>) -> Seq<Seq<char>> {
    h.map_values(|m: String| m@)
}

/// The history after adding `msg`: the message appended, and the oldest
/// message dropped when that makes more than the limit.
pub open spec fn with_message(h: Seq<Seq<char>>, msg: Seq<char>) -> Seq<Seq<char>> {
    if h.len() + 1 > history_limit() {
        h.push(msg).drop_first()
    } else {
        h.push(msg)
    }
}

impl AppState {
    /// A fresh session for `cli`'s project with the configuration `config`:
    /// the banner in the history, no input, no preview, nothing pending.
    pub fn new(cli: &Cli, config: AppConfig) -> (s: Self)
        ensures
            history_view(s.chat_history@) == seq![banner()],
            s.current_input@.len() == 0,
            s.preview_diff@.len() == 0,
            s.permission_state is Idle,
            s.agent_status is None,
            s.project_path@ == (match cli.project {
                Some(d) => d@,
                None => "."@,
            }),
            s.config == config,
    {
        let mut history: VecDeque<String> = VecDeque::new();
        history.push_back(string_from("🔥 faber-aeternus v0.1.0 — the eternal craftsman"));
        assert(history_view(history@) =~= seq![banner()]);
        AppState {
            chat_history: history,
            current_input: String::new(),
            preview_diff: String::new(),
            permission_state: PermissionState::Idle,
            agent_status: None,
            project_path: cli.project_path(),
            config,
        }
    }

    /// Appends a message to the history, dropping the oldest one when the
    /// history would hold more than 50.
    pub fn add_message(&mut self, msg: String)
        ensures
            history_view(final(self).chat_history@) == with_message(
                history_view(old(self).chat_history@),
                msg@,
            ),
            final(self).current_input == old(self).current_input,
            final(self).preview_diff == old(self).preview_diff,
            final(self).permission_state == old(self).permission_state,
            final(self).agent_status == old(self).agent_status,
            final(self).project_path == old(self).project_path,
            final(self).config == old(self).config,
    {
        let ghost h = history_view(self.chat_history@);
        let ghost m = msg@;
        self.chat_history.push_back(msg);
        assert(history_view(self.chat_history@) =~= h.push(m));
        if self.chat_history.len() > 50 {
            let ghost before = self.chat_history@;
            let _ = self.chat_history.pop_front();
            assert(history_view(self.chat_history@) =~= history_view(before).drop_first());
        }
    }
}

/// Law: the history stays bounded. Whatever history a session holds, after
/// a message is added it holds at most 50 messages (one more than before, if
/// it held fewer), the newest last.
pub proof fn law_history_bounded(h: Seq<Seq<char>>, msg: Seq<char>)
    requires
        h.len() <= history_limit(),
    ensures
        with_message(h, msg).len() <= history_limit(),
        with_message(h, msg).len() == (if h.len() < history_limit() {
            h.len() + 1
        } else {
            h.len()
        }),
        with_message(h, msg).last() == msg,
{
}

} // verus!
