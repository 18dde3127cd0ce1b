use wasi_warden::config::{ensure_command_allowed, BrowserFileSettings, FileConfig, HostConfig,
    LlmFileSettings, StepArgs};
use wasi_warden::errs::CapabilityErrorCode;
use wasi_warden::json::{parse_json, Json};
use wasi_warden::paths::{basename, ensure_within_workspace, resolve_child};
use wasi_warden::process::{read_process_stream, to_exit_status, ProcessResource};
use wasi_warden::table::{Table, TableError};

fn host_config(root: &str, allow: Vec<String>) -> HostConfig {
    HostConfig {
        workspace_root: root.to_string(),
        allowed_proc_commands: allow,
        llm: None,
        browser: None,
    }
}

#[test]
fn resolve_rejects_parent_segments() {
    let r = resolve_child("/ws", "../secret");
    let e = r.err().expect("parent traversal must be rejected");
    assert!(matches!(e.code, CapabilityErrorCode::InvalidArgument));
    assert_eq!(e.message, "parent segments are not allowed");

    let r2 = resolve_child("/ws", "a/../b");
    let e2 = r2.err().expect("embedded parent traversal must be rejected");
    assert_eq!(e2.message, "parent segments are not allowed");
}

#[test]
fn resolve_rejects_absolute_paths() {
    let r = resolve_child("/ws", "/etc/passwd");
    let e = r.err().expect("absolute path must be rejected");
    assert!(matches!(e.code, CapabilityErrorCode::InvalidArgument));
    assert_eq!(e.message, "absolute paths are not allowed");
}

#[test]
fn resolve_joins_normal_segments() {
    assert_eq!(resolve_child("/ws", "a/b").unwrap(), "/ws/a/b");
    assert_eq!(resolve_child("/ws", "a/./b").unwrap(), "/ws/a/b");
    assert_eq!(resolve_child("/ws", "a//b").unwrap(), "/ws/a/b");
    assert_eq!(resolve_child("/ws", "").unwrap(), "/ws");
    assert_eq!(resolve_child("/ws", ".").unwrap(), "/ws");
}

#[test]
fn workspace_boundary_is_enforced() {
    assert!(ensure_within_workspace("/ws", "/ws/a.txt").is_ok());
    assert!(ensure_within_workspace("/ws", "/ws").is_ok());
    let e = ensure_within_workspace("/ws", "/etc/passwd").err().unwrap();
    assert!(matches!(e.code, CapabilityErrorCode::Denied));
    assert_eq!(e.message, "path escapes workspace root");
    let e2 = ensure_within_workspace("/ws", "/w").err().unwrap();
    assert!(matches!(e2.code, CapabilityErrorCode::Denied));
}

#[test]
fn basename_takes_final_segment() {
    assert_eq!(basename("/bin/echo"), "echo");
    assert_eq!(basename("echo"), "echo");
    assert_eq!(basename("a/b/c"), "c");
    assert_eq!(basename("bin/tool/"), "tool");
    assert_eq!(basename("tool///"), "tool");
    assert_eq!(basename("/"), "");
}

#[test]
fn table_insert_delete_round_trip() {
    let mut t: Table<u32> = Table::new(4);
    let h = t.insert(7).unwrap();
    assert_eq!(*t.get(h).unwrap(), 7);
    let out = t.delete(h).unwrap();
    assert_eq!(out, 7);
    assert!(matches!(t.get(h), Err(TableError::NotPresent)));
    assert!(matches!(t.delete(h), Err(TableError::NotPresent)));
    assert!(matches!(t.set(h, 9), Err(TableError::NotPresent)));
}

#[test]
fn table_handle_stays_dead_after_slot_reuse() {
    let mut t: Table<u32> = Table::new(1);
    let h1 = t.insert(1).unwrap();
    t.delete(h1).unwrap();
    let h2 = t.insert(2).unwrap();
    assert_eq!(h2.index, h1.index);
    assert_ne!(h2.generation, h1.generation);
    assert!(matches!(t.get(h1), Err(TableError::NotPresent)));
    assert_eq!(*t.get(h2).unwrap(), 2);
}

#[test]
fn table_full_at_capacity() {
    let mut t: Table<u32> = Table::new(2);
    t.insert(1).unwrap();
    t.insert(2).unwrap();
    assert!(matches!(t.insert(3), Err(TableError::Full)));
}

#[test]
fn table_refuses_deleting_parent_with_children() {
    let mut t: Table<u32> = Table::new(4);
    let parent = t.insert(1).unwrap();
    let child = t.insert_child(parent, 2).unwrap();
    assert!(matches!(t.delete(parent), Err(TableError::HasChildren)));
    assert_eq!(t.delete(child).unwrap(), 2);
    assert_eq!(t.delete(parent).unwrap(), 1);
}

#[test]
fn allow_list_matches_full_text_or_basename() {
    let cfg = host_config("/ws", vec!["echo".to_string(), "/usr/bin/tar".to_string()]);
    assert!(cfg.is_proc_allowed("echo"));
    assert!(cfg.is_proc_allowed("/bin/echo"));
    assert!(cfg.is_proc_allowed("/usr/bin/tar"));
    assert!(!cfg.is_proc_allowed("tar"), "an entry's own path segments grant nothing");
    assert!(!cfg.is_proc_allowed("rm"));
    let empty = host_config("/ws", Vec::new());
    assert!(!empty.is_proc_allowed("echo"));
}

#[test]
fn disallowed_command_is_denied() {
    let cfg = host_config("/ws", vec!["echo".to_string()]);
    let e = ensure_command_allowed(&cfg, "rm").err().unwrap();
    assert!(matches!(e.code, CapabilityErrorCode::Denied));
    assert_eq!(e.message, "command `rm` is not allowed");
    assert!(ensure_command_allowed(&cfg, "echo").is_ok());
}

#[test]
fn bounded_reads_concatenate_to_one_read() {
    let data: Vec<u8> = b"hello world".to_vec();
    let mut pos: usize = 0;
    let mut gathered: Vec<u8> = Vec::new();
    loop {
        let chunk = read_process_stream(&data, &mut pos, 4);
        gathered.extend_from_slice(&chunk.data);
        if chunk.eof {
            break;
        }
    }
    let mut pos2: usize = 0;
    let whole = read_process_stream(&data, &mut pos2, u32::MAX);
    assert!(whole.eof);
    assert_eq!(gathered, whole.data);
    assert_eq!(gathered, data);
}

#[test]
fn stream_read_reports_eof_exactly_at_end() {
    let data: Vec<u8> = b"abc".to_vec();
    let mut pos: usize = 0;
    let first = read_process_stream(&data, &mut pos, 2);
    assert_eq!(first.data, b"ab".to_vec());
    assert!(!first.eof);
    let second = read_process_stream(&data, &mut pos, 2);
    assert_eq!(second.data, b"c".to_vec());
    assert!(second.eof);
    let third = read_process_stream(&data, &mut pos, 2);
    assert_eq!(third.data, Vec::<u8>::new());
    assert!(third.eof);
}

#[test]
fn exit_status_reflects_the_record() {
    let p = ProcessResource {
        command: "echo".to_string(),
        stdout: b"hi\n".to_vec(),
        stderr: Vec::new(),
        stdout_pos: 0,
        stderr_pos: 0,
        exit_code: Some(0),
        timed_out: false,
    };
    let st = to_exit_status(&p);
    assert_eq!(st.code, Some(0));
    assert_eq!(st.signal, None);
    assert!(!st.timed_out);
}

#[test]
fn llm_settings_require_key_and_model() {
    let none = LlmFileSettings { api_base: None, api_key: Some("  ".to_string()), model: Some(
        "m".to_string(),
    ) };
    assert!(none.into_settings().is_none());
    let some = LlmFileSettings {
        api_base: None,
        api_key: Some("k123".to_string()),
        model: Some("m".to_string()),
    };
    let st = some.into_settings().unwrap();
    assert_eq!(st.api_base, "https://api.openai.com/v1");
    assert_eq!(st.model, "m");
}

#[test]
fn browser_settings_require_endpoint() {
    let none = BrowserFileSettings { webdriver_url: None, default_profile: None };
    assert!(none.into_settings().is_none());
    let some = BrowserFileSettings {
        webdriver_url: Some("http://localhost:9515".to_string()),
        default_profile: Some("   ".to_string()),
    };
    let st = some.into_settings().unwrap();
    assert_eq!(st.webdriver_url, "http://localhost:9515");
    assert!(st.default_profile.is_none());
}

#[test]
fn step_args_merge_into_config() {
    let args = StepArgs {
        component: "agent.wasm".to_string(),
        workspace: Some("/ws".to_string()),
        task: "t".to_string(),
        observation: "{}".to_string(),
        step: 0,
        allow_proc: vec!["echo".to_string(), "ls".to_string()],
    };
    let file_cfg = FileConfig {
        workspace_root: None,
        allow_proc: Some(vec!["ls".to_string(), "cat".to_string()]),
        llm: None,
        browser: None,
    };
    let chosen = HostConfig::chosen_workspace(&args, &file_cfg);
    assert_eq!(chosen, "/ws");
    let cfg = HostConfig::from_step_args(&args, file_cfg, "/ws".to_string());
    assert_eq!(cfg.workspace_root, "/ws");
    let mut allowed = cfg.allowed_proc_commands.clone();
    allowed.sort();
    assert_eq!(allowed, vec!["cat".to_string(), "echo".to_string(), "ls".to_string()]);
    assert_eq!(cfg.allowed_proc_commands.len(), 3);
}

#[test]
fn json_parsing_round_trips_documents() {
    let doc = parse_json("{\"a\": 1, \"b\": [true, null, \"x\"]}").unwrap();
    match &doc {
        Json::Obj(fields) => {
            assert_eq!(fields.len(), 2);
            assert_eq!(fields[0].0, "a");
            assert!(matches!(fields[0].1, Json::Int(1)));
        },
        _ => panic!("expected an object"),
    }
    assert!(parse_json("{not json").is_none());
    match parse_json("3.25") {
        Some(Json::Num(text)) => assert_eq!(text, "3.25"),
        other => panic!("a non-integer number must still parse, got {:?}", other),
    }
    match parse_json("18446744073709551615") {
        Some(Json::Num(text)) => assert_eq!(text, "18446744073709551615"),
        other => panic!("a number beyond i64 must still parse, got {:?}", other),
    }
}
