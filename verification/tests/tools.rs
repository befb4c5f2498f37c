use faber_aeternus::sandbox::{SandboxError, SandboxExecutor};
use faber_aeternus::tools::registry::{ToolAction, ToolError, ToolPermissionLevel, ToolRegistry};

fn registry() -> ToolRegistry {
    let sandbox = match SandboxExecutor::new(false, false) {
        Ok(s) => s,
        Err(_) => panic!("a lenient sandbox is always made"),
    };
    ToolRegistry::new(sandbox)
}

#[test]
fn core_tools_are_registered() {
    let r = registry();
    let t = r.get_tool("run_shell").unwrap();
    assert_eq!(t.permission_level, ToolPermissionLevel::High);
    assert!(t.requires_approval);
    let t = r.get_tool("read_file").unwrap();
    assert_eq!(t.permission_level, ToolPermissionLevel::Low);
    assert!(!t.requires_approval);
    assert_eq!(r.get_tool("edit_file").unwrap().description, "Apply a reversible diff edit (MEDIUM risk)");
    assert!(r.get_tool("delete_everything").is_none());
}

#[test]
fn tool_schemas_are_json() {
    let r = registry();
    for name in ["read_file", "edit_file", "run_shell"] {
        let schema = &r.get_tool(name).unwrap().schema;
        let v: serde_json::Value = serde_json::from_str(schema).unwrap();
        assert_eq!(v["type"], "object");
    }
}

#[test]
fn list_for_llm_describes_each_tool() {
    let r = registry();
    let list = r.list_for_llm();
    assert_eq!(list.len(), 3);
    let first: serde_json::Value = serde_json::from_str(&list[0]).unwrap();
    assert_eq!(first["name"], "read_file");
    assert_eq!(first["description"], "Read a file from the project (LOW risk)");
    assert_eq!(first["parameters"]["required"][0], "path");
    assert!(list[0].starts_with("{\"name\":\"read_file\",\"description\":"));
}

#[test]
fn run_shell_is_planned_with_string_args() {
    let r = registry();
    let plan = match r.plan_execution("run_shell", "{\"command\":\"ls\",\"args\":[\"-l\",1,\"x\"]}") {
        Ok(p) => p,
        Err(_) => panic!("run_shell with a command is planned"),
    };
    assert_eq!(plan.notice.as_deref(), Some("🔒 [Permission] run_shell (High) — auto-approved for demo"));
    match plan.action {
        ToolAction::RunShell { command, args } => {
            assert_eq!(command, "ls");
            assert_eq!(args, vec!["-l".to_string(), "x".to_string()]);
        }
        ToolAction::Reply(_) => panic!("expected a shell run"),
    }
}

#[test]
fn run_shell_without_args_has_none() {
    let r = registry();
    match r.plan_execution("run_shell", "{\"command\":\"pwd\"}").ok().unwrap().action {
        ToolAction::RunShell { command, args } => {
            assert_eq!(command, "pwd");
            assert!(args.is_empty());
        }
        ToolAction::Reply(_) => panic!("expected a shell run"),
    }
}

#[test]
fn run_shell_without_command_is_refused() {
    let r = registry();
    assert!(matches!(r.plan_execution("run_shell", "{\"args\":[]}"), Err(ToolError::MissingCommand)));
    assert!(matches!(r.plan_execution("run_shell", "{\"command\":3}"), Err(ToolError::MissingCommand)));
    assert_eq!(ToolError::MissingCommand.message(), "missing command");
}

#[test]
fn unknown_tool_is_refused() {
    let r = registry();
    assert!(matches!(r.plan_execution("format_disk", "{}"), Err(ToolError::UnknownTool)));
    assert_eq!(ToolError::UnknownTool.message(), "unknown tool");
}

#[test]
fn other_tools_reply() {
    let r = registry();
    let plan = r.plan_execution("read_file", "{\"path\":\"a\"}").ok().unwrap();
    assert!(plan.notice.is_none());
    match plan.action {
        ToolAction::Reply(m) => assert_eq!(m, "Tool 'read_file' executed (full impl coming next)"),
        ToolAction::RunShell { .. } => panic!("expected a reply"),
    }
    let plan = r.plan_execution("edit_file", "{}").ok().unwrap();
    assert_eq!(plan.notice.as_deref(), Some("🔒 [Permission] edit_file (Medium) — auto-approved for demo"));
}

#[test]
fn strict_sandbox_needs_bubblewrap() {
    match SandboxExecutor::new(true, false) {
        Err(e) => {
            assert!(matches!(e, SandboxError::StrictWithoutBubblewrap));
            assert_eq!(e.message(), "Strict sandbox mode is enabled, but bubblewrap (bwrap) is not found.");
        }
        Ok(_) => panic!("strict mode without bubblewrap is refused"),
    }
    assert!(SandboxExecutor::new(true, true).is_ok());
}

#[test]
fn sandboxed_command_line() {
    let s = SandboxExecutor::new(false, true).ok().unwrap();
    let (program, args) = s.command_line("ls", &vec!["-a".to_string()]);
    assert_eq!(program, "bwrap");
    assert_eq!(
        args,
        vec![
            "--ro-bind", "/", "/", "--dev", "/dev", "--proc", "/proc", "--bind", "/tmp", "/tmp",
            "--unshare-all", "--", "ls", "-a"
        ]
    );
    let plain = SandboxExecutor::new(false, false).ok().unwrap();
    let (program, args) = plain.command_line("ls", &vec!["-a".to_string()]);
    assert_eq!(program, "ls");
    assert_eq!(args, vec!["-a".to_string()]);
}

#[test]
fn command_outcomes() {
    let s = SandboxExecutor::new(false, true).ok().unwrap();
    assert_eq!(s.outcome(true, b"hi\n".to_vec(), b"").ok().unwrap(), "hi\n");
    match s.outcome(false, Vec::new(), b"boom") {
        Err(e) => assert_eq!(e.message(), "Sandboxed command failed: boom"),
        Ok(_) => panic!("a failed command is an error"),
    }
    assert!(matches!(s.outcome(true, vec![0xff, 0xfe], b""), Err(SandboxError::OutputNotUtf8)));
    let plain = SandboxExecutor::new(false, false).ok().unwrap();
    match plain.outcome(false, Vec::new(), &[b'x', 0xff]) {
        Err(e) => assert_eq!(e.message(), "Command failed: x\u{fffd}"),
        Ok(_) => panic!("a failed command is an error"),
    }
}

#[test]
fn strict_mode_always_wraps_in_bubblewrap() {
    let strict = match SandboxExecutor::new(true, true) {
        Ok(s) => s,
        Err(_) => panic!("strict mode with bubblewrap is accepted"),
    };
    assert!(strict.is_sandboxed());
    let (program, argv) = strict.command_line("ls", &vec!["-a".to_string()]);
    assert_eq!(program, "bwrap");
    assert_eq!(argv.last().map(|s| s.as_str()), Some("-a"));
    assert!(matches!(SandboxExecutor::new(true, false), Err(SandboxError::StrictWithoutBubblewrap)));
}
