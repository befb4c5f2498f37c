use faber_aeternus::brain::context::extract_origami_context;
use faber_aeternus::brain::dream::{
    dream_step, shutdown_message, spin_up_message, DreamAction, DreamEvent, DreamPass, DreamPhase,
};
use faber_aeternus::brain::fold::FoldEngine;
use faber_aeternus::brain::memory::{MemoryEntry, SessionMemory, Timestamp};
use faber_aeternus::cli::Cli;
use faber_aeternus::config::{choose_config, AppConfig};
use faber_aeternus::llm::local::CandleProvider;
use faber_aeternus::llm::provider::{remote_config, ProviderConfig, ProviderType};
use faber_aeternus::llm::remote::{chat_messages, chat_request_body, chat_role, endpoint_of, stream_chunk_bytes, stream_chunk_text};
use faber_aeternus::state::snapshot::{SnapshotError, SnapshotManager};
use faber_aeternus::state::{AppState, PermissionState};
use faber_aeternus::syntax::RustParser;
use faber_aeternus::tui::ends_session;

fn cli(project: Option<&str>) -> Cli {
    Cli { provider: "grok".to_string(), model: None, project: project.map(|p| p.to_string()), sandbox_strict: false }
}

#[test]
fn history_is_bounded_at_fifty() {
    let mut state = AppState::new(&cli(None), AppConfig::default());
    assert_eq!(state.chat_history.len(), 1);
    assert_eq!(state.chat_history[0], "🔥 faber-aeternus v0.1.0 — the eternal craftsman");
    assert_eq!(state.project_path, ".");
    assert!(matches!(state.permission_state, PermissionState::Idle));
    for i in 0..60 {
        state.add_message(format!("m{}", i));
    }
    assert_eq!(state.chat_history.len(), 50);
    assert_eq!(state.chat_history[0], "m10");
    assert_eq!(state.chat_history[49], "m59");
}

#[test]
fn project_path_from_cli() {
    let state = AppState::new(&cli(Some("/work")), AppConfig::default());
    assert_eq!(state.project_path, "/work");
}

#[test]
fn default_config_prompts() {
    let c = AppConfig::default();
    assert!(c.architect_prompt.starts_with("You are the Architect agent"));
    assert!(c.coder_prompt.contains("\"diff\": \"...\""));
    assert_eq!(c.reviewer_prompt, "Adversarial self-critic looking for bugs in Coder's diffs.");
    assert!(c.ignore_patterns.is_empty());
}

#[test]
fn provider_configs() {
    let c = remote_config(None);
    assert_eq!(c.provider_type, ProviderType::Remote);
    assert_eq!(c.model_name, "default-model");
    assert_eq!(endpoint_of(&c), "https://api.openai.com/v1/chat/completions");
    let c = remote_config(Some("m1".to_string()));
    assert_eq!(c.model_name, "m1");
    let custom = ProviderConfig { provider_type: ProviderType::Local, model_name: "x".to_string(), endpoint: Some("http://h".to_string()), api_key: None };
    assert_eq!(endpoint_of(&custom), "http://h");
    let mut local = CandleProvider::new(remote_config(None));
    local.update_config(custom);
    assert_eq!(local.config().model_name, "x");
    assert_eq!(local.reply_chunks(), vec!["Generating...".to_string(), " (stub local response)".to_string()]);
}

#[test]
fn chat_roles_and_messages() {
    assert_eq!(chat_role("👤 You: hi"), "user");
    assert_eq!(chat_role("assistant text"), "assistant");
    let m = chat_messages("sys", &vec!["👤 You: q".to_string(), "a".to_string()]);
    assert_eq!(m[0], ("system".to_string(), "sys".to_string()));
    assert_eq!(m[1], ("user".to_string(), "👤 You: q".to_string()));
    assert_eq!(m[2], ("assistant".to_string(), "a".to_string()));
}

#[test]
fn event_stream_text() {
    let chunk = "data: {\"choices\":[{\"delta\":{\"content\":\"Hel\"}}]}\r\n\r\ndata: {\"choices\":[{\"delta\":{\"content\":\"lo\"}}]}\ndata: [DONE]\n";
    assert_eq!(stream_chunk_text(chunk), "Hello");
    assert_eq!(stream_chunk_text("data: {\"choices\":[]}\n: ping\nevent: x"), "");
    assert_eq!(stream_chunk_text("data: not json"), "");
    assert_eq!(stream_chunk_bytes(b"data: {\"choices\":[{\"delta\":{\"content\":\"b\"}}]}"), "b");
}

#[test]
fn snapshot_paths() {
    let mut m = SnapshotManager::new("/tmp/snaps");
    assert_eq!(m.snapshot_path("/a/b/file.rs", "20240101").ok().unwrap(), "/tmp/snaps/file.rs_20240101_0.snapshot");
    assert!(matches!(m.snapshot_path("/", "t"), Err(SnapshotError::InvalidFilePath)));
    // a file of the same name in the same second gets its own snapshot
    assert_eq!(m.snapshot_path("/c/file.rs", "20240101").ok().unwrap(), "/tmp/snaps/file.rs_20240101_1.snapshot");
    assert_eq!(SnapshotError::InvalidFilePath.message(), "Invalid file path");
    assert_eq!(SnapshotError::TooManySnapshots.message(), "Too many snapshots");
}

#[test]
fn memory_log_appends() {
    let mut mem = SessionMemory::new("/p/.faber/session.json".to_string(), Vec::new());
    mem.log(MemoryEntry::UserPrompt { timestamp: Timestamp { secs: 1, nanos: 2 }, content: "hi".to_string() });
    mem.log(MemoryEntry::Snapshot { timestamp: Timestamp { secs: 3, nanos: 0 }, file_path: "a".to_string(), backup_path: "b".to_string() });
    assert_eq!(mem.entries().len(), 2);
    assert!(matches!(mem.entries()[0], MemoryEntry::UserPrompt { .. }));
    assert_eq!(mem.log_path(), "/p/.faber/session.json");
}

#[test]
fn dream_reports() {
    let mut pass = DreamPass::new();
    assert!(!pass.should_commit());
    pass.count_file(true);
    pass.count_file(false);
    pass.count_file(true);
    assert!(pass.should_commit());
    assert_eq!(pass.report(), "☁️ Dream: Oriented. Found 3 files. Synthesized 2 documents.");
    assert_eq!(DreamPass::new().report(), "☁️ Dream: Oriented. Found 0 files. Synthesized 0 documents.");
    assert_eq!(spin_up_message(), "☁️ Dream daemon spun up... orienting.");
    assert_eq!(shutdown_message(), "💤 Dream daemon shutting down gracefully.");
}

#[test]
fn origami_context_sections() {
    let mut engine = FoldEngine::new();
    let mut parser = RustParser::new();
    let files = vec![("a.rs".to_string(), "fn a() { 1 }".to_string())];
    let ctx = extract_origami_context(&mut engine, &files, "keep", &mut parser);
    assert_eq!(
        ctx,
        "/// NOTE: The original full source is always used when applying the actual edit (Coder never sees the folded version for writes).\n\n--- FILE: a.rs ---\nfn a()  { /* ... folded by faber-aeternus ... */ }\n\n"
    );
}

#[test]
fn only_ctrl_c_ends_the_session() {
    assert!(ends_session(Some('c'), true));
    assert!(!ends_session(Some('c'), false));
    assert!(!ends_session(Some('x'), true));
    assert!(!ends_session(None, true));
}

#[test]
fn request_body_is_json() {
    let m = chat_messages("be \"brief\"", &vec!["👤 You: hi".to_string()]);
    let body = chat_request_body("gpt-4o", &m);
    assert_eq!(
        body,
        "{\"model\":\"gpt-4o\",\"messages\":[{\"role\":\"system\",\"content\":\"be \\\"brief\\\"\"},{\"role\":\"user\",\"content\":\"👤 You: hi\"}],\"stream\":true}"
    );
    assert_eq!(chat_request_body("m", &Vec::new()), "{\"model\":\"m\",\"messages\":[],\"stream\":true}");
}

#[test]
fn request_body_escapes_as_json() {
    let m = vec![("user".to_string(), "a\u{1}\t\"\\é\u{7f}".to_string())];
    let body = chat_request_body("m", &m);
    assert_eq!(
        body,
        "{\"model\":\"m\",\"messages\":[{\"role\":\"user\",\"content\":\"a\\u0001\\t\\\"\\\\é\u{7f}\"}],\"stream\":true}"
    );
}

fn custom(tag: &str) -> AppConfig {
    AppConfig {
        architect_prompt: tag.to_string(),
        coder_prompt: tag.to_string(),
        reviewer_prompt: tag.to_string(),
        ignore_patterns: vec![tag.to_string()],
    }
}

#[test]
fn config_comes_from_the_project_then_the_user_then_defaults() {
    let d = AppConfig::default();
    assert_eq!(choose_config(Some(Some(custom("p"))), Some(Some(custom("u")))).architect_prompt, "p");
    assert_eq!(choose_config(Some(None), Some(Some(custom("u")))).architect_prompt, d.architect_prompt);
    assert_eq!(choose_config(None, Some(Some(custom("u")))).architect_prompt, "u");
    assert_eq!(choose_config(None, Some(None)).coder_prompt, d.coder_prompt);
    assert!(choose_config(None, None).ignore_patterns.is_empty());
}

fn notices(actions: &[DreamAction]) -> Vec<String> {
    actions
        .iter()
        .map(|a| match a {
            DreamAction::Notify(m) => format!("notify {}", m),
            DreamAction::IndexProject => "index".to_string(),
            DreamAction::Commit => "commit".to_string(),
            DreamAction::Rest(s) => format!("rest {}", s),
            DreamAction::Halt => "halt".to_string(),
        })
        .collect()
}

#[test]
fn dream_daemon_steps() {
    let (p, a) = dream_step(DreamPhase::Starting, DreamEvent::Began);
    assert_eq!(p, DreamPhase::Checking);
    assert_eq!(notices(&a), vec!["notify ☁️ Dream daemon spun up... orienting."]);
    let (p, a) = dream_step(p, DreamEvent::ShutdownFlag(false));
    assert_eq!(p, DreamPhase::Indexing);
    assert_eq!(notices(&a), vec!["index"]);
    let mut pass = DreamPass::new();
    pass.count_file(true);
    pass.count_file(false);
    let (p, a) = dream_step(p, DreamEvent::PassEnded(pass));
    assert_eq!(p, DreamPhase::Resting);
    assert_eq!(
        notices(&a),
        vec!["commit", "notify ☁️ Dream: Oriented. Found 2 files. Synthesized 1 documents.", "rest 60"]
    );
    let (q, a) = dream_step(p, DreamEvent::Woke { flag_changed: true, shutdown: false });
    assert_eq!(q, DreamPhase::Checking);
    assert!(a.is_empty());
    let (q, a) = dream_step(p, DreamEvent::Woke { flag_changed: true, shutdown: true });
    assert_eq!(q, DreamPhase::Stopped);
    assert_eq!(notices(&a), vec!["notify 💤 Dream daemon shutting down gracefully.", "halt"]);
    let (q, a) = dream_step(DreamPhase::Indexing, DreamEvent::PassEnded(DreamPass::new()));
    assert_eq!(q, DreamPhase::Resting);
    assert_eq!(notices(&a)[1], "rest 60");
    assert_eq!(a.len(), 2);
    let (q, a) = dream_step(DreamPhase::Checking, DreamEvent::ShutdownFlag(true));
    assert_eq!(q, DreamPhase::Stopped);
    assert_eq!(a.len(), 2);
    let (q, a) = dream_step(DreamPhase::Stopped, DreamEvent::Began);
    assert_eq!(q, DreamPhase::Stopped);
    assert!(a.is_empty());
}
