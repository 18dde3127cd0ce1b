use wasi_warden::actions::{ActionExecutor, ActionReport, PlannedAction};
use wasi_warden::backend::{FileOpenOptions, HostBackend, PageInfo, RawDirEntry, RawMeta,
    SelectorKind};
use wasi_warden::config::{BrowserSettings, HostConfig};
use wasi_warden::errs::{CapabilityErrorCode, IoError, IoErrorKind};
use wasi_warden::json::Json;
use wasi_warden::process::{RawProcOutput, SpawnOptions};
use wasi_warden::provider::{ensure_directory, text_of_file_bytes};
use wasi_warden::runtime::{next_observation, run_step, step_transition, AgentError,
    CompletePlan, ContinuePlan, Observation, Planner, RunOutcome, StepResponse, Transition};

struct MockBackend {
    dirs: Vec<String>,
    files: Vec<(String, Vec<u8>)>,
    open: Vec<(u64, String, usize)>,
    next_fd: u64,
    open_calls: usize,
    spawn_calls: usize,
    last_spawn: Option<(String, Vec<String>, String)>,
    spawn_result: Option<RawProcOutput>,
}

impl MockBackend {
    fn new() -> MockBackend {
        MockBackend {
            dirs: Vec::new(),
            files: Vec::new(),
            open: Vec::new(),
            next_fd: 1,
            open_calls: 0,
            spawn_calls: 0,
            last_spawn: None,
            spawn_result: None,
        }
    }

    fn with_file(mut self, path: &str, contents: &[u8]) -> MockBackend {
        self.files.push((path.to_string(), contents.to_vec()));
        self
    }

    fn with_dir(mut self, path: &str) -> MockBackend {
        self.dirs.push(path.to_string());
        self
    }

    fn lookup(&self, path: &str) -> Option<Vec<u8>> {
        for (p, c) in &self.files {
            if p == path {
                return Some(c.clone());
            }
        }
        None
    }

    fn not_found() -> IoError {
        IoError { kind: IoErrorKind::NotFound, text: "no such entry".to_string() }
    }
}

impl HostBackend for MockBackend {
    fn path_metadata(&mut self, path: &str) -> Result<RawMeta, IoError> {
        if self.dirs.iter().any(|d| d == path) {
            return Ok(RawMeta {
                is_file: false,
                is_dir: true,
                is_symlink: false,
                size_bytes: 0,
                modified_ms: None,
                readonly: false,
            });
        }
        if self.lookup(path).is_some() {
            return Ok(RawMeta {
                is_file: true,
                is_dir: false,
                is_symlink: false,
                size_bytes: 0,
                modified_ms: None,
                readonly: false,
            });
        }
        Err(MockBackend::not_found())
    }

    fn create_dir_all(&mut self, _path: &str) -> Result<(), IoError> {
        Ok(())
    }

    fn remove_dir(&mut self, _path: &str, _recursive: bool) -> Result<(), IoError> {
        Ok(())
    }

    fn remove_file(&mut self, _path: &str) -> Result<(), IoError> {
        Ok(())
    }

    fn rename(&mut self, _from: &str, _to: &str) -> Result<(), IoError> {
        Ok(())
    }

    fn read_dir(&mut self, _path: &str) -> Result<Vec<RawDirEntry>, IoError> {
        let mut out = Vec::new();
        for (p, c) in &self.files {
            out.push(RawDirEntry {
                name: p.rsplit('/').next().unwrap_or(p).to_string(),
                meta: RawMeta {
                    is_file: true,
                    is_dir: false,
                    is_symlink: false,
                    size_bytes: c.len() as u64,
                    modified_ms: Some(1000),
                    readonly: false,
                },
            });
        }
        Ok(out)
    }

    fn open_file(&mut self, path: &str, _options: &FileOpenOptions) -> Result<u64, IoError> {
        self.open_calls += 1;
        if self.lookup(path).is_none() {
            return Err(MockBackend::not_found());
        }
        let fd = self.next_fd;
        self.next_fd += 1;
        self.open.push((fd, path.to_string(), 0));
        Ok(fd)
    }

    fn file_read(&mut self, fd: u64, max_bytes: u64) -> Result<Vec<u8>, IoError> {
        for entry in &mut self.open {
            if entry.0 == fd {
                let contents = {
                    let mut found = None;
                    for (p, c) in &self.files {
                        if *p == entry.1 {
                            found = Some(c.clone());
                        }
                    }
                    found.unwrap_or_default()
                };
                let start = entry.2.min(contents.len());
                let end = (start + max_bytes as usize).min(contents.len());
                entry.2 = end;
                return Ok(contents[start..end].to_vec());
            }
        }
        Err(MockBackend::not_found())
    }

    fn file_write(&mut self, _fd: u64, data: &Vec<u8>) -> Result<u64, IoError> {
        Ok(data.len() as u64)
    }

    fn file_set_len(&mut self, _fd: u64, _new_len: u64) -> Result<(), IoError> {
        Ok(())
    }

    fn file_flush(&mut self, _fd: u64) -> Result<(), IoError> {
        Ok(())
    }

    fn file_close(&mut self, fd: u64) {
        self.open.retain(|e| e.0 != fd);
    }

    fn spawn(&mut self, command: &str, options: &SpawnOptions, cwd: &str) -> Result<
        RawProcOutput,
        IoError,
    > {
        self.spawn_calls += 1;
        self.last_spawn = Some((
            command.to_string(),
            options.argv.clone(),
            cwd.to_string(),
        ));
        match self.spawn_result.take() {
            Some(out) => Ok(out),
            None => Ok(RawProcOutput { exit_code: Some(0), stdout: Vec::new(), stderr: Vec::new() }),
        }
    }

    fn browser_open_session(
        &mut self,
        _settings: &BrowserSettings,
        _alias: &str,
        _headless: bool,
        _profile: &Option<String>,
        _allow_downloads: bool,
    ) -> Result<(), String> {
        Ok(())
    }

    fn browser_goto(&mut self, _alias: &str, _url: &str, _timeout_ms: u64) -> Result<
        String,
        String,
    > {
        Err("no browser backend in tests".to_string())
    }

    fn browser_describe(&mut self, _alias: &str, _include_html: bool) -> Result<
        PageInfo,
        String,
    > {
        Err("no browser backend in tests".to_string())
    }

    fn browser_find(
        &mut self,
        _session: &str,
        _kind: SelectorKind,
        _query: &str,
        _timeout_ms: u64,
        _element: &str,
    ) -> Result<(), String> {
        Err("no browser backend in tests".to_string())
    }

    fn browser_click(&mut self, _element: &str) -> Result<(), String> {
        Err("no browser backend in tests".to_string())
    }

    fn browser_type_text(&mut self, _element: &str, _text: &str, _submit: bool) -> Result<
        (),
        String,
    > {
        Err("no browser backend in tests".to_string())
    }

    fn browser_inner_text(&mut self, _element: &str) -> Result<String, String> {
        Err("no browser backend in tests".to_string())
    }

    fn browser_screenshot(&mut self, _session: &str) -> Result<Vec<u8>, String> {
        Ok(vec![1, 2, 3])
    }

    fn browser_close_all(&mut self) {}
}

fn host_config(root: &str, allow: Vec<String>) -> HostConfig {
    HostConfig {
        workspace_root: root.to_string(),
        allowed_proc_commands: allow,
        llm: None,
        browser: None,
    }
}

fn action(capability: &str, input: &str) -> PlannedAction {
    PlannedAction {
        capability: capability.to_string(),
        input: input.to_string(),
        audit_tag: None,
    }
}

fn obj_field<'a>(j: &'a Json, key: &str) -> &'a Json {
    match j {
        Json::Obj(fields) => {
            for (k, v) in fields {
                if k == key {
                    return v;
                }
            }
            panic!("field `{}` missing", key);
        },
        _ => panic!("not an object"),
    }
}

fn str_of(j: &Json) -> String {
    match j {
        Json::Str(s) => s.clone(),
        _ => panic!("not a string"),
    }
}

#[test]
fn read_file_truncates_and_reports_utf8() {
    let backend = MockBackend::new().with_file("/ws/a.txt", b"hello world");
    let cfg = host_config("/ws", Vec::new());
    let mut exec = ActionExecutor::new(cfg, backend);
    let acts = vec![action("fs.read_file", "{\"path\":\"a.txt\",\"max_bytes\":10}")];
    let reports = exec.execute(&acts);
    assert_eq!(reports.len(), 1);
    let rep = &reports[0];
    assert!(rep.success, "report failed: {:?}", rep.error);
    assert_eq!(rep.capability, "fs.read_file");
    match obj_field(&rep.output, "truncated") {
        Json::Bool(b) => assert!(*b),
        _ => panic!("truncated is not a bool"),
    }
    assert_eq!(str_of(obj_field(&rep.output, "encoding")), "utf-8");
    assert_eq!(str_of(obj_field(&rep.output, "contents")), "hello worl");
    assert_eq!(str_of(obj_field(&rep.output, "path")), "/ws/a.txt");
}

#[test]
fn unread_payload_fields_do_not_affect_validation() {
    let backend = MockBackend::new().with_file("/ws/a.txt", b"hello world");
    let cfg = host_config("/ws", Vec::new());
    let mut exec = ActionExecutor::new(cfg, backend);
    let acts = vec![
        action("fs.read_file", "{\"path\":\"a.txt\",\"max_bytes\":10,\"note\":0.5}"),
        action("fs.read_file", "{\"path\":\"a.txt\",\"max_bytes\":2.5}"),
    ];
    let reports = exec.execute(&acts);
    assert!(reports[0].success, "an unread float field must not fail the action: {:?}",
        reports[0].error);
    assert_eq!(str_of(obj_field(&reports[0].output, "contents")), "hello worl");
    assert!(!reports[1].success, "a float where the schema wants a count is a schema error");
    assert_eq!(reports[1].error.as_deref(), Some("invalid `max_bytes`"));
}

#[test]
fn read_file_outside_sandbox_never_opens_anything() {
    let backend = MockBackend::new().with_file("/secret", b"top");
    let cfg = host_config("/ws", Vec::new());
    let mut exec = ActionExecutor::new(cfg, backend);
    let acts = vec![action("fs.read_file", "{\"path\":\"../secret\"}")];
    let reports = exec.execute(&acts);
    assert_eq!(reports.len(), 1);
    let rep = &reports[0];
    assert!(!rep.success);
    assert_eq!(rep.error.as_deref(), Some("parent segments are not allowed"));
    assert!(matches!(rep.output, Json::Null));
    assert_eq!(exec.state.backend.open_calls, 0, "no file may be opened");
}

#[test]
fn spawn_allowed_command_captures_output() {
    let mut backend = MockBackend::new();
    backend.spawn_result = Some(RawProcOutput {
        exit_code: Some(0),
        stdout: b"hi\n".to_vec(),
        stderr: Vec::new(),
    });
    let cfg = host_config("/ws", vec!["echo".to_string()]);
    let mut exec = ActionExecutor::new(cfg, backend);
    let acts = vec![action("proc.spawn", "{\"command\":\"echo\",\"args\":[\"hi\"]}")];
    let reports = exec.execute(&acts);
    assert_eq!(reports.len(), 1);
    let rep = &reports[0];
    assert!(rep.success, "report failed: {:?}", rep.error);
    assert_eq!(str_of(obj_field(&rep.output, "stdout")), "hi\n");
    match obj_field(&rep.output, "status") {
        Json::Int(0) => (),
        other => panic!("unexpected status {:?}", other),
    }
    assert_eq!(str_of(obj_field(&rep.output, "cwd")), "/ws");
    let (cmd, argv, cwd) = exec.state.backend.last_spawn.clone().unwrap();
    assert_eq!(cmd, "echo");
    assert_eq!(argv, vec!["hi".to_string()]);
    assert_eq!(cwd, "/ws");
}

#[test]
fn spawn_disallowed_command_never_reaches_the_os() {
    let backend = MockBackend::new();
    let cfg = host_config("/ws", vec!["echo".to_string()]);
    let mut exec = ActionExecutor::new(cfg, backend);
    let acts = vec![action("proc.spawn", "{\"command\":\"rm\",\"args\":[\"-rf\"]}")];
    let reports = exec.execute(&acts);
    assert_eq!(reports.len(), 1);
    let rep = &reports[0];
    assert!(!rep.success);
    assert_eq!(rep.error.as_deref(), Some("command `rm` is not allowed by policy"));
    assert_eq!(exec.state.backend.spawn_calls, 0, "the OS must never be invoked");
}

#[test]
fn batch_failures_stay_local_and_ordered() {
    let mut backend = MockBackend::new().with_file("/ws/a.txt", b"data");
    backend.spawn_result = Some(RawProcOutput {
        exit_code: Some(0),
        stdout: Vec::new(),
        stderr: Vec::new(),
    });
    let cfg = host_config("/ws", vec!["echo".to_string()]);
    let mut exec = ActionExecutor::new(cfg, backend);
    let acts = vec![
        action("fs.read_file", "{\"path\":\"a.txt\"}"),
        action("proc.spawn", "{\"command\":\"rm\"}"),
        action("fs.list_dir", "{}"),
    ];
    let reports = exec.execute(&acts);
    assert_eq!(reports.len(), 3);
    assert_eq!(reports[0].capability, "fs.read_file");
    assert_eq!(reports[1].capability, "proc.spawn");
    assert_eq!(reports[2].capability, "fs.list_dir");
    assert!(reports[0].success);
    assert!(!reports[1].success);
    assert!(reports[2].success);
}

#[test]
fn malformed_input_and_unknown_capability_fail_alone() {
    let backend = MockBackend::new();
    let cfg = host_config("/ws", Vec::new());
    let mut exec = ActionExecutor::new(cfg, backend);
    let acts = vec![
        action("fs.read_file", "{not json"),
        action("policy.describe", "{}"),
    ];
    let reports = exec.execute(&acts);
    assert_eq!(reports.len(), 2);
    assert!(!reports[0].success);
    assert_eq!(
        reports[0].error.as_deref(),
        Some("capability `fs.read_file` input is not valid JSON"),
    );
    assert!(!reports[1].success);
    assert_eq!(reports[1].error.as_deref(), Some("unsupported capability `policy.describe`"));
}

#[test]
fn browser_actions_fail_without_configured_backend() {
    let backend = MockBackend::new();
    let cfg = host_config("/ws", Vec::new());
    let mut exec = ActionExecutor::new(cfg, backend);
    let acts = vec![action("browser.open_session", "{\"alias\":\"main\"}")];
    let reports = exec.execute(&acts);
    assert!(!reports[0].success);
    assert_eq!(
        reports[0].error.as_deref(),
        Some("browser capability is disabled in host configuration"),
    );
}

#[test]
fn unimplemented_capabilities_are_denied() {
    let backend = MockBackend::new();
    let cfg = host_config("/ws", Vec::new());
    let mut state = wasi_warden::provider::HostState::new(cfg, backend);
    let e = state.open_session().err().unwrap();
    assert!(matches!(e.code, CapabilityErrorCode::Denied));
    assert_eq!(e.message, "browser capability is not implemented");
    let e2 = state.complete().err().unwrap();
    assert_eq!(e2.message, "llm capability is not implemented");
    let e3 = state.claim_budget().err().unwrap();
    assert_eq!(e3.message, "policy capability is not implemented");
    let e4 = state.mouse_move().err().unwrap();
    assert_eq!(e4.message, "input capability is not implemented");
}

#[test]
fn provider_rejects_stale_and_foreign_handles() {
    let backend = MockBackend::new().with_file("/ws/a.txt", b"x");
    let cfg = host_config("/ws", Vec::new());
    let mut state = wasi_warden::provider::HostState::new(cfg, backend);
    let ws = state.open_workspace().unwrap();
    let e = state.read(ws, 10).err().unwrap();
    assert!(matches!(e.code, CapabilityErrorCode::InvalidArgument));
    assert_eq!(e.message, "invalid handle");
    state.close(ws);
    let e2 = state.dir_path(ws).err().unwrap();
    assert_eq!(e2.message, "invalid handle");
}

#[test]
fn read_to_string_refuses_binary_content() {
    let backend = MockBackend::new().with_file("/ws/bin.dat", &[0xff, 0xfe, 0x00]);
    let cfg = host_config("/ws", Vec::new());
    let mut state = wasi_warden::provider::HostState::new(cfg, backend);
    let ws = state.open_workspace().unwrap();
    let fh = state
        .open_file(
            ws,
            "bin.dat".to_string(),
            FileOpenOptions {
                read: true,
                write: false,
                append: false,
                create: false,
                truncate: false,
            },
        )
        .unwrap();
    let e = state.read_to_string(fh, 100).err().unwrap();
    assert_eq!(e.message, "file is not valid UTF-8");
}

#[test]
fn binary_read_reports_base64() {
    let backend = MockBackend::new().with_file("/ws/bin.dat", &[0xff, 0xfe]);
    let cfg = host_config("/ws", Vec::new());
    let mut exec = ActionExecutor::new(cfg, backend);
    let acts = vec![action("fs.read_file", "{\"path\":\"bin.dat\"}")];
    let reports = exec.execute(&acts);
    assert!(reports[0].success);
    assert_eq!(str_of(obj_field(&reports[0].output, "encoding")), "base64");
    assert_eq!(str_of(obj_field(&reports[0].output, "contents")), "//4=");
}

#[test]
fn spawned_process_streams_drain_incrementally() {
    let mut backend = MockBackend::new();
    backend.spawn_result = Some(RawProcOutput {
        exit_code: Some(3),
        stdout: b"abcdef".to_vec(),
        stderr: b"oops".to_vec(),
    });
    let cfg = host_config("/ws", vec!["tool".to_string()]);
    let mut state = wasi_warden::provider::HostState::new(cfg, backend);
    let options = SpawnOptions {
        argv: Vec::new(),
        working_dir: None,
        env: Vec::new(),
        timeout_ms: None,
        stdin: wasi_warden::process::StdioMode::Null,
        stdout: wasi_warden::process::StdioMode::Pipe,
        stderr: wasi_warden::process::StdioMode::Pipe,
    };
    let h = state.spawn("tool".to_string(), options).unwrap();
    let first = state.read_stdout(h, 4).unwrap();
    assert_eq!(first.data, b"abcd".to_vec());
    assert!(!first.eof);
    let second = state.read_stdout(h, 4).unwrap();
    assert_eq!(second.data, b"ef".to_vec());
    assert!(second.eof);
    let err = state.read_stderr(h, 100).unwrap();
    assert_eq!(err.data, b"oops".to_vec());
    assert!(err.eof);
    let st = state.wait(h, None).unwrap();
    assert_eq!(st.code, Some(3));
    let e = state.write_stdin(h, Vec::new(), true).err().unwrap();
    assert_eq!(e.message, "process capability is not implemented");
    let e2 = state.signal(h).err().unwrap();
    assert_eq!(e2.message, "signaling processes is not supported");
    state.close(h);
    assert_eq!(state.wait(h, None).err().unwrap().message, "invalid handle");
}

#[test]
fn spawn_rejects_unsupported_stdio_shape() {
    let backend = MockBackend::new();
    let cfg = host_config("/ws", vec!["tool".to_string()]);
    let mut state = wasi_warden::provider::HostState::new(cfg, backend);
    let options = SpawnOptions {
        argv: Vec::new(),
        working_dir: None,
        env: Vec::new(),
        timeout_ms: Some(50),
        stdin: wasi_warden::process::StdioMode::Null,
        stdout: wasi_warden::process::StdioMode::Pipe,
        stderr: wasi_warden::process::StdioMode::Pipe,
    };
    let e = state.spawn("tool".to_string(), options).err().unwrap();
    assert_eq!(e.message, "timeout is not supported yet");
    let options2 = SpawnOptions {
        argv: Vec::new(),
        working_dir: None,
        env: Vec::new(),
        timeout_ms: None,
        stdin: wasi_warden::process::StdioMode::Pipe,
        stdout: wasi_warden::process::StdioMode::Pipe,
        stderr: wasi_warden::process::StdioMode::Pipe,
    };
    let e2 = state.spawn("tool".to_string(), options2).err().unwrap();
    assert_eq!(e2.message, "stdin must be null for now");
    assert_eq!(state.backend.spawn_calls, 0);
}

#[test]
fn provider_directory_surface_round_trips() {
    let backend = MockBackend::new().with_dir("/ws").with_dir("/ws/sub").with_file(
        "/ws/sub/x.txt",
        b"x",
    );
    let cfg = host_config("/ws", Vec::new());
    let mut state = wasi_warden::provider::HostState::new(cfg, backend);
    let ws = state.open_workspace().unwrap();

    let sub = state.open_dir(ws, "sub".to_string()).unwrap();
    let entries = state.list_dir(sub).unwrap();
    assert_eq!(entries.len(), 1);
    assert_eq!(entries[0].name, "x.txt");

    let made = state.ensure_dir(ws, "made".to_string()).unwrap();
    state.close(made);

    let md = state.metadata(ws, None).unwrap();
    assert_eq!(md.name, "ws");
    assert!(matches!(md.kind, wasi_warden::provider::EntryKind::Directory));
    let e = state.metadata(ws, Some("../x".to_string())).err().unwrap();
    assert_eq!(e.message, "parent segments are not allowed");

    assert!(state.rename(ws, "sub/x.txt".to_string(), "sub/y.txt".to_string()).is_ok());
    let e2 = state
        .rename(ws, "sub/x.txt".to_string(), "/tmp/out".to_string())
        .err()
        .unwrap();
    assert_eq!(e2.message, "absolute paths are not allowed");
    assert!(state.remove_file(ws, "sub/y.txt".to_string()).is_ok());
    assert!(state.remove_dir(ws, "sub".to_string(), true).is_ok());

    let fh = state
        .open_file(
            ws,
            "sub/x.txt".to_string(),
            FileOpenOptions { read: false, write: true, append: false, create: true,
                truncate: false },
        )
        .unwrap();
    let written = state.write(fh, b"abc".to_vec()).unwrap();
    assert_eq!(written, 3);
    let written2 = state.write_string(fh, "ab".to_string(), true).unwrap();
    assert_eq!(written2, 3);
    assert!(state.set_len(fh, 1).is_ok());
    assert!(state.flush(fh).is_ok());
    state.close(fh);
    state.close(sub);
    state.close(ws);
}

#[test]
fn list_dir_reports_entries_in_backend_order() {
    let backend = MockBackend::new()
        .with_file("/ws/b.txt", b"bb")
        .with_file("/ws/a.txt", b"a");
    let cfg = host_config("/ws", Vec::new());
    let mut exec = ActionExecutor::new(cfg, backend);
    let acts = vec![action("fs.list_dir", "{}")];
    let reports = exec.execute(&acts);
    assert!(reports[0].success, "{:?}", reports[0].error);
    assert_eq!(str_of(obj_field(&reports[0].output, "path")), "/ws");
    match obj_field(&reports[0].output, "entries") {
        Json::Arr(entries) => {
            assert_eq!(entries.len(), 2);
            assert_eq!(str_of(obj_field(&entries[0], "name")), "b.txt");
            assert_eq!(str_of(obj_field(&entries[0], "kind")), "file");
            match obj_field(&entries[0], "size_bytes") {
                Json::Int(2) => (),
                other => panic!("unexpected size {:?}", other),
            }
            assert_eq!(str_of(obj_field(&entries[1], "name")), "a.txt");
        },
        _ => panic!("entries is not an array"),
    }
}

#[test]
fn text_selectors_lower_to_escaped_xpath() {
    let (kind, value) = wasi_warden::actions::selector_to_by(
        SelectorKind::Text,
        "Say \"hi\"".to_string(),
    );
    assert!(matches!(kind, SelectorKind::XPath));
    assert_eq!(value, "//*[normalize-space(text()) = \"Say \\\"hi\\\"\"]");
    let (kind2, value2) = wasi_warden::actions::selector_to_by(
        SelectorKind::Css,
        "#main".to_string(),
    );
    assert!(matches!(kind2, SelectorKind::Css));
    assert_eq!(value2, "#main");
}

#[test]
fn transitions_decide_each_reply_exactly() {
    let done = step_transition(
        Ok(StepResponse::Complete(CompletePlan {
            reason: "found it".to_string(),
            outcome: "{}".to_string(),
        })),
        3,
    );
    match done {
        Transition::Finished(RunOutcome::Completed { reason, outcome, steps }) => {
            assert_eq!(reason, "found it");
            assert_eq!(outcome, "{}");
            assert_eq!(steps, 4);
        },
        other => panic!("expected completion, got {:?}", other),
    }

    let failed = step_transition(
        Err(AgentError { retryable: true, message: "socket closed".to_string() }),
        2,
    );
    match failed {
        Transition::Finished(RunOutcome::Failed { error, retryable, steps }) => {
            assert_eq!(error, "agent-core reported error (retryable=true): socket closed");
            assert!(retryable);
            assert_eq!(steps, 2);
        },
        other => panic!("expected failure, got {:?}", other),
    }

    let violation = step_transition(
        Ok(StepResponse::Continue(ContinuePlan {
            thought: "hmm".to_string(),
            actions: Vec::new(),
        })),
        1,
    );
    match violation {
        Transition::Finished(RunOutcome::Failed { error, retryable, steps }) => {
            assert_eq!(error, "planner returned a continuation with no actions");
            assert!(!retryable);
            assert_eq!(steps, 1);
        },
        other => panic!("expected protocol violation, got {:?}", other),
    }

    let execute = step_transition(
        Ok(StepResponse::Continue(ContinuePlan {
            thought: "look".to_string(),
            actions: vec![action("fs.list_dir", "{}")],
        })),
        0,
    );
    match execute {
        Transition::Execute(actions) => {
            assert_eq!(actions.len(), 1);
            assert_eq!(actions[0].capability, "fs.list_dir");
        },
        other => panic!("expected a batch, got {:?}", other),
    }
}

#[test]
fn next_observation_summarizes_the_batch() {
    let reports = vec![
        ActionReport {
            capability: "fs.list_dir".to_string(),
            success: true,
            output: Json::Null,
            error: None,
        },
        ActionReport {
            capability: "proc.spawn".to_string(),
            success: false,
            output: Json::Null,
            error: Some("command `rm` is not allowed by policy".to_string()),
        },
    ];
    let o = next_observation(4, reports);
    assert_eq!(o.step, 5);
    assert_eq!(o.summary, "executed 2 action(s) with 1 failure(s)");
    assert!(o.data.contains("\"capability\":\"fs.list_dir\""));
    assert!(o.data.contains("\"success\":false"));
    let capped = next_observation(u32::MAX, Vec::new());
    assert_eq!(capped.step, u32::MAX);
    assert_eq!(capped.summary, "planner returned no actions");
}

#[test]
fn file_bytes_decode_or_are_refused() {
    assert_eq!(text_of_file_bytes(b"plain text".to_vec()).unwrap(), "plain text");
    let e = text_of_file_bytes(vec![0xff, 0xfe]).err().unwrap();
    assert!(matches!(e.code, CapabilityErrorCode::InvalidArgument));
    assert_eq!(e.message, "file is not valid UTF-8");

    let dir_meta = RawMeta {
        is_file: false,
        is_dir: true,
        is_symlink: false,
        size_bytes: 0,
        modified_ms: None,
        readonly: false,
    };
    assert!(ensure_directory(&dir_meta).is_ok());
    let file_meta = RawMeta { is_dir: false, is_file: true, ..dir_meta };
    let e2 = ensure_directory(&file_meta).err().unwrap();
    assert_eq!(e2.message, "path is not a directory");
}

#[test]
fn screenshots_echo_the_requested_kind() {
    let backend = MockBackend::new();
    let mut cfg = host_config("/ws", Vec::new());
    cfg.browser = Some(BrowserSettings {
        webdriver_url: "http://localhost:9515".to_string(),
        default_profile: None,
    });
    let mut exec = ActionExecutor::new(cfg, backend);
    let acts = vec![
        action("browser.open_session", "{\"alias\":\"main\"}"),
        action("browser.session.screenshot", "{\"session\":\"main\"}"),
        action("browser.session.screenshot", "{\"session\":\"main\",\"kind\":\"jpeg\"}"),
        action("browser.session.screenshot", "{\"session\":\"main\",\"kind\":\"bmp\"}"),
    ];
    let reports = exec.execute(&acts);
    assert!(reports[0].success, "{:?}", reports[0].error);
    assert!(reports[1].success, "{:?}", reports[1].error);
    assert_eq!(str_of(obj_field(&reports[1].output, "kind")), "png");
    assert_eq!(str_of(obj_field(&reports[1].output, "data_base64")), "AQID");
    assert_eq!(str_of(obj_field(&reports[2].output, "kind")), "jpeg");
    assert!(!reports[3].success);
    assert_eq!(reports[3].error.as_deref(), Some("invalid `kind`"));
    exec.close_browser_sessions();
}

struct AlwaysContinue {
    calls: usize,
}

impl Planner for AlwaysContinue {
    fn step(&mut self, _task: &str, _observation: &Observation) -> Result<
        StepResponse,
        AgentError,
    > {
        self.calls += 1;
        Ok(StepResponse::Continue(wasi_warden::runtime::ContinuePlan {
            thought: "keep looking".to_string(),
            actions: vec![PlannedAction {
                capability: "fs.list_dir".to_string(),
                input: "{}".to_string(),
                audit_tag: None,
            }],
        }))
    }
}

struct CompleteSecond {
    calls: usize,
}

impl Planner for CompleteSecond {
    fn step(&mut self, _task: &str, observation: &Observation) -> Result<
        StepResponse,
        AgentError,
    > {
        self.calls += 1;
        if self.calls == 1 {
            Ok(StepResponse::Continue(wasi_warden::runtime::ContinuePlan {
                thought: "one look".to_string(),
                actions: vec![PlannedAction {
                    capability: "fs.list_dir".to_string(),
                    input: "{}".to_string(),
                    audit_tag: None,
                }],
            }))
        } else {
            assert!(observation.summary.contains("executed 1 action(s)"));
            Ok(StepResponse::Complete(wasi_warden::runtime::CompletePlan {
                reason: "done".to_string(),
                outcome: "{}".to_string(),
            }))
        }
    }
}

struct EmptyContinue;

impl Planner for EmptyContinue {
    fn step(&mut self, _task: &str, _observation: &Observation) -> Result<
        StepResponse,
        AgentError,
    > {
        Ok(StepResponse::Continue(wasi_warden::runtime::ContinuePlan {
            thought: "nothing".to_string(),
            actions: Vec::new(),
        }))
    }
}

#[test]
fn endless_guest_hits_the_iteration_bound() {
    let backend = MockBackend::new();
    let cfg = host_config("/ws", Vec::new());
    let mut exec = ActionExecutor::new(cfg, backend);
    let mut planner = AlwaysContinue { calls: 0 };
    let outcome = run_step(&mut planner, &mut exec, "task", 0, "{}");
    match outcome {
        RunOutcome::Failed { error, steps, .. } => {
            assert!(error.contains("did not complete within the step bound"), "{}", error);
            assert!(error.contains("executed 1 action(s) with 0 failure(s)"), "{}", error);
            assert_eq!(steps, 8);
        },
        other => panic!("expected exhaustion, got {:?}", other),
    }
    assert_eq!(planner.calls, 8);
}

#[test]
fn completion_ends_the_run() {
    let backend = MockBackend::new();
    let cfg = host_config("/ws", Vec::new());
    let mut exec = ActionExecutor::new(cfg, backend);
    let mut planner = CompleteSecond { calls: 0 };
    let outcome = run_step(&mut planner, &mut exec, "task", 0, "{}");
    match outcome {
        RunOutcome::Completed { reason, steps, .. } => {
            assert_eq!(reason, "done");
            assert_eq!(steps, 2);
        },
        other => panic!("expected completion, got {:?}", other),
    }
}

#[test]
fn empty_continuation_is_a_protocol_violation() {
    let backend = MockBackend::new();
    let cfg = host_config("/ws", Vec::new());
    let mut exec = ActionExecutor::new(cfg, backend);
    let mut planner = EmptyContinue;
    let outcome = run_step(&mut planner, &mut exec, "task", 0, "{}");
    match outcome {
        RunOutcome::Failed { error, .. } => {
            assert_eq!(error, "planner returned a continuation with no actions");
        },
        other => panic!("expected failure, got {:?}", other),
    }
}

#[test]
fn invalid_initial_observation_fails_before_any_step() {
    let backend = MockBackend::new();
    let cfg = host_config("/ws", Vec::new());
    let mut exec = ActionExecutor::new(cfg, backend);
    let mut planner = AlwaysContinue { calls: 0 };
    let outcome = run_step(&mut planner, &mut exec, "task", 0, "{nope");
    match outcome {
        RunOutcome::Failed { error, steps, .. } => {
            assert_eq!(error, "observation is not valid JSON: {nope");
            assert_eq!(steps, 0);
        },
        other => panic!("expected failure, got {:?}", other),
    }
    assert_eq!(planner.calls, 0);
}
