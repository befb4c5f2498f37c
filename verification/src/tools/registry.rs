//! The tools that a model may call, with their risk levels, and the decision
//! of what calling one means.
use vstd::prelude::*;
use crate::brain::fold::str_eq;
use crate::json::{
    json_elements, json_elements_text, json_member, json_member_text, json_quote, json_quoted,
    json_string, json_string_content,
};
use crate::sandbox::SandboxExecutor;
use crate::text::{push_str, string_from};
use crate::words::texts;

verus! {

/// How much harm a tool can do.
#[derive(Debug, Clone, Copy, PartialEq, Eq, Structural)]
pub enum ToolPermissionLevel {
    /// read-only
    Low,
    /// file edits, git
    Medium,
    /// shell, network, external
    High,
}

/// The level's name, as `Debug` writes it.
pub open spec fn level_name(l: ToolPermissionLevel) -> Seq<char> {
    match l {
        ToolPermissionLevel::Low => "Low"@,
        ToolPermissionLevel::Medium => "Medium"@,
        ToolPermissionLevel::High => "High"@,
    }
}

impl ToolPermissionLevel {
    /// The level's name, as `Debug` writes it.
    pub fn name(&self) -> (n: &'static str)
        ensures
            n@ == level_name(*self),
    {
        match self {
            ToolPermissionLevel::Low => "Low",
            ToolPermissionLevel::Medium => "Medium",
            ToolPermissionLevel::High => "High",
        }
    }
}

/// A tool: its name, what it does, the JSON schema of its parameters (as
/// text), its risk level and whether a call needs approval.
pub struct Tool {
    pub name: String,
    pub description: String,
    pub schema: String,
    pub permission_level: ToolPermissionLevel,
    pub requires_approval: bool,
}

impl View for Tool {
    type V = (Seq<char>, Seq<char>, Seq<char>, ToolPermissionLevel, bool);

    open spec fn view(&self) -> Self::V {
        (self.name@, self.description@, self.schema@, self.permission_level, self.requires_approval)
    }
}

/// The views of a list of tools.
pub open spec fn tool_table(ts: Seq<Tool>) -> Seq<(Seq<char>, Seq<char>, Seq<char>, ToolPermissionLevel, bool)> {
    ts.map_values(|t: Tool| t@)
}

/// The tools every registry starts with.
pub open spec fn core_tools() -> Seq<(Seq<char>, Seq<char>, Seq<char>, ToolPermissionLevel, bool)> {
    seq![
        (
            "read_file"@,
            "Read a file from the project (LOW risk)"@,
            "{\"type\":\"object\",\"properties\":{\"path\":{\"type\":\"string\"}},\"required\":[\"path\"]}"@,
            ToolPermissionLevel::Low,
            false,
        ),
        (
            "edit_file"@,
            "Apply a reversible diff edit (MEDIUM risk)"@,
            "{\"type\":\"object\",\"properties\":{\"path\":{\"type\":\"string\"},\"diff\":{\"type\":\"string\"}},\"required\":[\"path\",\"diff\"]}"@,
            ToolPermissionLevel::Medium,
            true,
        ),
        (
            "run_shell"@,
            "Run a shell command in sandbox (HIGH risk)"@,
            "{\"type\":\"object\",\"properties\":{\"command\":{\"type\":\"string\"},\"args\":{\"type\":\"array\",\"items\":{\"type\":\"string\"}}},\"required\":[\"command\"]}"@,
            ToolPermissionLevel::High,
            true,
        ),
    ]
}

/// No two tools share a name.
pub open spec fn names_unique(ts: Seq<(Seq<char>, Seq<char>, Seq<char>, ToolPermissionLevel, bool)>) -> bool {
    forall|i: int, j: int| 0 <= i < j < ts.len() ==> ts[i].0 != ts[j].0
}

/// The position of the tool named `name`, if any.
pub open spec fn tool_index(
    ts: Seq<(Seq<char>, Seq<char>, Seq<char>, ToolPermissionLevel, bool)>,
    name: Seq<char>,
) -> Option<int> {
    if exists|i: int| 0 <= i < ts.len() && ts[i].0 == name {
        Some(choose|i: int| 0 <= i < ts.len() && ts[i].0 == name)
    } else {
        None
    }
}

/// What a model is told of a tool: a JSON object of its name, description
/// and parameter schema.
pub open spec fn llm_entry(t: (Seq<char>, Seq<char>, Seq<char>, ToolPermissionLevel, bool)) -> Seq<char> {
    "{\"name\":"@ + json_quoted(t.0) + ",\"description\":"@ + json_quoted(t.1) + ",\"parameters\":"@
        + t.2 + "}"@
}

/// The strings among JSON element texts, in order.
pub open spec fn string_elements(items: Seq<Seq<char>>) -> Seq<Seq<char>>
    decreases items.len(),
{
    if items.len() == 0 {
        seq![]
    } else {
        string_elements(items.drop_last()) + match json_string_content(items.last()) {
            Some(s) => seq![s],
            None => Seq::<Seq<char>>::empty(),
        }
    }
}

/// The command of a `run_shell` call: the string member `command`.
pub open spec fn shell_command(params: Seq<char>) -> Option<Seq<char>> {
    match json_member_text(params, "command"@) {
        Some(m) => json_string_content(m),
        None => None,
    }
}

/// The arguments of a `run_shell` call: the strings of the array member
/// `args`, or none.
pub open spec fn shell_args(params: Seq<char>) -> Seq<Seq<char>> {
    match json_member_text(params, "args"@) {
        Some(a) => match json_elements_text(a) {
            Some(items) => string_elements(items),
            None => seq![],
        },
        None => seq![],
    }
}

/// What a tool call comes to.
pub enum ToolAction {
    /// Run a command with arguments in the sandbox.
    RunShell { command: String, args: Vec<String> },
    /// Answer with a message.
    Reply(String),
}

/// A decided tool call: the permission notice to show first, if any, and
/// the action.
pub struct ToolPlan {
    pub notice: Option<String>,
    pub action: ToolAction,
}

/// `p` shows `notice` and runs `command` with `args`.
pub open spec fn runs_shell(p: ToolPlan, notice: Option<Seq<char>>, command: Seq<char>, args: Seq<Seq<char>>) -> bool {
    &&& crate::json::opt_text(p.notice) == notice
    &&& match p.action {
        ToolAction::RunShell { command: c, args: a } => c@ == command && texts(a@) == args,
        ToolAction::Reply(_) => false,
    }
}

/// `p` shows `notice` and answers with `message`.
pub open spec fn replies(p: ToolPlan, notice: Option<Seq<char>>, message: Seq<char>) -> bool {
    &&& crate::json::opt_text(p.notice) == notice
    &&& match p.action {
        ToolAction::Reply(m) => m@ == message,
        ToolAction::RunShell { .. } => false,
    }
}

/// Why a tool call cannot run.
#[derive(Debug, Clone, Copy, PartialEq, Eq, Structural)]
pub enum ToolError {
    /// No tool has that name.
    UnknownTool,
    /// A `run_shell` call without a string `command`.
    MissingCommand,
}

impl ToolError {
    /// The error's message.
    pub fn message(&self) -> (m: &'static str)
        ensures
            *self == ToolError::UnknownTool ==> m@ == "unknown tool"@,
            *self == ToolError::MissingCommand ==> m@ == "missing command"@,
    {
        match self {
            ToolError::UnknownTool => "unknown tool",
            ToolError::MissingCommand => "missing command",
        }
    }
}

/// The permission notice for calling tool `t` by `name`, if it needs one.
pub open spec fn permission_notice(
    name: Seq<char>,
    t: (Seq<char>, Seq<char>, Seq<char>, ToolPermissionLevel, bool),
) -> Option<Seq<char>> {
    if t.4 && t.3 != ToolPermissionLevel::Low {
        Some("🔒 [Permission] "@ + name + " ("@ + level_name(t.3) + ") — auto-approved for demo"@)
    } else {
        None
    }
}

/// The tools, by name, and the sandbox that runs shell commands.
pub struct ToolRegistry {
    tools: Vec<Tool>,
    sandbox: SandboxExecutor,
}

impl ToolRegistry {
    /// The registered tools.
    pub closed spec fn table(&self) -> Seq<(Seq<char>, Seq<char>, Seq<char>, ToolPermissionLevel, bool)> {
        tool_table(self.tools@)
    }

    /// No two registered tools share a name.
    pub open spec fn wf(&self) -> bool {
        names_unique(self.table())
    }

    /// The registry's invariant: tool names are unique.
    #[verifier::type_invariant]
    spec fn unique_names(self) -> bool {
        names_unique(tool_table(self.tools@))
    }

    /// A registry with the core tools, running shell commands in `sandbox`.
    pub fn new(sandbox: SandboxExecutor) -> (r: Self)
        ensures
            r.wf(),
            r.table() == core_tools(),
            r.executor() == sandbox,
    {
        let mut registry = ToolRegistry { tools: Vec::new(), sandbox };
        assert(tool_table(registry.tools@) =~= Seq::empty());
        registry.register_core_tools();
        proof {
            use_type_invariant(&registry);
        }
        registry
    }

    /// The sandbox that runs shell commands.
    pub closed spec fn executor(&self) -> SandboxExecutor {
        self.sandbox
    }

    /// The sandbox that runs shell commands.
    pub fn sandbox(&self) -> (s: &SandboxExecutor)
        ensures
            *s == self.executor(),
    {
        &self.sandbox
    }

    fn register_core_tools(&mut self)
        requires
            old(self).table().len() == 0,
        ensures
            final(self).table() == core_tools(),
            final(self).wf(),
            final(self).executor() == old(self).executor(),
    {
        let mut tools: Vec<Tool> = Vec::new();
        tools.push(Tool {
            name: string_from("read_file"),
            description: string_from("Read a file from the project (LOW risk)"),
            schema: string_from(
                "{\"type\":\"object\",\"properties\":{\"path\":{\"type\":\"string\"}},\"required\":[\"path\"]}",
            ),
            permission_level: ToolPermissionLevel::Low,
            requires_approval: false,
        });
        tools.push(Tool {
            name: string_from("edit_file"),
            description: string_from("Apply a reversible diff edit (MEDIUM risk)"),
            schema: string_from(
                "{\"type\":\"object\",\"properties\":{\"path\":{\"type\":\"string\"},\"diff\":{\"type\":\"string\"}},\"required\":[\"path\",\"diff\"]}",
            ),
            permission_level: ToolPermissionLevel::Medium,
            requires_approval: true,
        });
        tools.push(Tool {
            name: string_from("run_shell"),
            description: string_from("Run a shell command in sandbox (HIGH risk)"),
            schema: string_from(
                "{\"type\":\"object\",\"properties\":{\"command\":{\"type\":\"string\"},\"args\":{\"type\":\"array\",\"items\":{\"type\":\"string\"}}},\"required\":[\"command\"]}",
            ),
            permission_level: ToolPermissionLevel::High,
            requires_approval: true,
        });
        assert(tool_table(tools@) =~= core_tools());
        proof {
            reveal_strlit("read_file");
            reveal_strlit("edit_file");
            reveal_strlit("run_shell");
            assert("read_file"@[0] != "edit_file"@[0]);
            assert("read_file"@[1] != "run_shell"@[1]);
            assert("edit_file"@[0] != "run_shell"@[0]);
        }
        self.tools = tools;
    }

    /// The position of the tool named `name`.
    fn position(&self, name: &str) -> (r: Option<usize>)
        requires
            self.wf(),
        ensures
            r matches Some(i) ==> i < self.tools.len() && tool_index(self.table(), name@) == Some(
                i as int,
            ),
            r is None ==> tool_index(self.table(), name@) is None,
    {
        let mut i: usize = 0;
        while i < self.tools.len()
            invariant
                i <= self.tools.len(),
                self.wf(),
                forall|j: int| 0 <= j < i ==> self.table()[j].0 != name@,
            decreases self.tools.len() - i,
        {
            if str_eq(self.tools[i].name.as_str(), name) {
                assert(self.table()[i as int].0 == name@);
                assert(forall|j: int| 0 <= j < self.table().len() && self.table()[j].0 == name@ ==> j == i);
                return Some(i);
            }
            i = i + 1;
        }
        None
    }

    /// The tool named `name`.
    pub fn get_tool(&self, name: &str) -> (r: Option<&Tool>)
        ensures
            r is Some <==> tool_index(self.table(), name@) is Some,
            r matches Some(t) ==> t@ == self.table()[tool_index(self.table(), name@)->0],
    {
        proof {
            use_type_invariant(self);
        }
        match self.position(name) {
            Some(i) => Some(&self.tools[i]),
            None => None,
        }
    }

    /// What a model is told of the tools, one JSON object each, in
    /// registration order.
    pub fn list_for_llm(&self) -> (r: Vec<String>)
        ensures
            texts(r@) == self.table().map_values(|t: (Seq<char>, Seq<char>, Seq<char>, ToolPermissionLevel, bool)| llm_entry(t)),
    {
        let mut r: Vec<String> = Vec::new();
        let mut i: usize = 0;
        while i < self.tools.len()
            invariant
                i <= self.tools.len(),
                texts(r@) == self.table().take(i as int).map_values(
                    |t: (Seq<char>, Seq<char>, Seq<char>, ToolPermissionLevel, bool)| llm_entry(t),
                ),
            decreases self.tools.len() - i,
        {
            let t = &self.tools[i];
            let mut e = string_from("{\"name\":");
            push_str(&mut e, json_quote(t.name.as_str()).as_str());
            push_str(&mut e, ",\"description\":");
            push_str(&mut e, json_quote(t.description.as_str()).as_str());
            push_str(&mut e, ",\"parameters\":");
            push_str(&mut e, t.schema.as_str());
            push_str(&mut e, "}");
            let ghost before = r@;
            r.push(e);
            assert(texts(r@) =~= texts(before).push(llm_entry(self.table()[i as int])));
            assert(self.table().take(i + 1) =~= self.table().take(i as int).push(self.table()[i as int]));
            assert(texts(r@) =~= self.table().take(i + 1).map_values(
                |t: (Seq<char>, Seq<char>, Seq<char>, ToolPermissionLevel, bool)| llm_entry(t),
            ));
            i = i + 1;
        }
        assert(self.table().take(i as int) =~= self.table());
        r
    }

    /// Decides a call of tool `name` with parameters `params` (a JSON text):
    /// an unknown tool is refused; a tool that needs approval and is not
    /// low-risk gets a permission notice; `run_shell` runs its string
    /// `command` with the strings of its `args` (refused without a command);
    /// any other tool is answered with a message.
    pub fn plan_execution(&self, name: &str, params: &str) -> (r: Result<ToolPlan, ToolError>)
        ensures
            tool_index(self.table(), name@) is None ==> r == Err::<ToolPlan, ToolError>(ToolError::UnknownTool),
            tool_index(self.table(), name@) matches Some(i) ==> {
                let t = self.table()[i];
                if name@ == "run_shell"@ {
                    match shell_command(params@) {
                        None => r == Err::<ToolPlan, ToolError>(ToolError::MissingCommand),
                        Some(c) => match r {
                            Ok(p) => runs_shell(p, permission_notice(name@, t), c, shell_args(params@)),
                            Err(_) => false,
                        },
                    }
                } else {
                    match r {
                        Ok(p) => replies(
                            p,
                            permission_notice(name@, t),
                            "Tool '"@ + name@ + "' executed (full impl coming next)"@,
                        ),
                        Err(_) => false,
                    }
                }
            },
    {
        proof {
            use_type_invariant(self);
        }
        let i = match self.position(name) {
            Some(i) => i,
            None => return Err(ToolError::UnknownTool),
        };
        let tool = &self.tools[i];
        let notice = if tool.requires_approval && tool.permission_level != ToolPermissionLevel::Low {
            let mut n = string_from("🔒 [Permission] ");
            push_str(&mut n, name);
            push_str(&mut n, " (");
            push_str(&mut n, tool.permission_level.name());
            push_str(&mut n, ") — auto-approved for demo");
            Some(n)
        } else {
            None
        };
        if str_eq(name, "run_shell") {
            let command = match json_member(params, "command") {
                Some(m) => match json_string(m.as_str()) {
                    Some(c) => c,
                    None => return Err(ToolError::MissingCommand),
                },
                None => return Err(ToolError::MissingCommand),
            };
            let args = shell_args_of(params);
            Ok(ToolPlan { notice, action: ToolAction::RunShell { command, args } })
        } else {
            let mut m = string_from("Tool '");
            push_str(&mut m, name);
            push_str(&mut m, "' executed (full impl coming next)");
            Ok(ToolPlan { notice, action: ToolAction::Reply(m) })
        }
    }
}

/// The arguments of a `run_shell` call; see `shell_args`.
fn shell_args_of(params: &str) -> (r: Vec<String>)
    ensures
        texts(r@) == shell_args(params@),
{
    let mut r: Vec<String> = Vec::new();
    let items = match json_member(params, "args") {
        Some(a) => match json_elements(a.as_str()) {
            Some(items) => items,
            None => {
                assert(texts(r@) =~= Seq::<Seq<char>>::empty());
                return r;
            },
        },
        None => {
            assert(texts(r@) =~= Seq::<Seq<char>>::empty());
            return r;
        },
    };
    let ghost iv = texts(items@);
    let mut i: usize = 0;
    assert(iv.take(0) =~= Seq::<Seq<char>>::empty());
    assert(texts(r@) =~= Seq::<Seq<char>>::empty());
    while i < items.len()
        invariant
            i <= items.len(),
            iv == texts(items@),
            texts(r@) == string_elements(iv.take(i as int)),
        decreases items.len() - i,
    {
        assert(iv.take(i + 1).drop_last() =~= iv.take(i as int));
        assert(iv.take(i + 1).last() == items@[i as int]@);
        let ghost before = texts(r@);
        match json_string(items[i].as_str()) {
            Some(s) => {
                r.push(s);
                assert(texts(r@) =~= before + seq![s@]);
            },
            None => {
                assert(texts(r@) =~= before + Seq::<Seq<char>>::empty());
            },
        }
        i = i + 1;
    }
    assert(iv.take(i as int) =~= iv);
    r
}

} // verus!
