use robojail::codec::{encode_state, parse_state};
use robojail::error::Error;
use robojail::state::{JailInfo, State};

fn full_record() -> JailInfo {
    JailInfo {
        id: "0f0e0d0c-aaaa-bbbb-cccc-111122223333".to_string(),
        name: "demo".to_string(),
        repo_path: "/tmp/repo".to_string(),
        worktree_path: "/data/jails/demo".to_string(),
        branch_name: "robojail/demo-0f0e0d0c".to_string(),
        created_at: 1700000000,
        pid: Some(1234),
        entrypoint: Some(vec![
            "/opt/tools/agent".to_string(),
            "--flag".to_string(),
            "a b".to_string(),
        ]),
    }
}

#[test]
fn empty_registry_round_trips() {
    let state = State::new();
    let json = encode_state(&state);
    assert_eq!(json, "{\"jails\":{}}");
    let parsed = parse_state(&json).unwrap();
    assert_eq!(parsed.jails.len(), 0);
}

#[test]
fn record_with_pid_and_entrypoint_round_trips_every_field() {
    let mut state = State::new();
    state.add_jail(full_record()).unwrap();
    let json = encode_state(&state);
    let parsed = parse_state(&json).unwrap();
    assert_eq!(parsed.jails.len(), 1);
    let a = &state.jails[0];
    let b = &parsed.jails[0];
    assert_eq!(a.id, b.id);
    assert_eq!(a.name, b.name);
    assert_eq!(a.repo_path, b.repo_path);
    assert_eq!(a.worktree_path, b.worktree_path);
    assert_eq!(a.branch_name, b.branch_name);
    assert_eq!(a.created_at, b.created_at);
    assert_eq!(a.pid, b.pid);
    assert_eq!(a.entrypoint, b.entrypoint);
}

#[test]
fn optional_fields_absent_round_trip() {
    let mut rec = full_record();
    rec.pid = None;
    rec.entrypoint = None;
    let mut state = State::new();
    state.add_jail(rec).unwrap();
    let parsed = parse_state(&encode_state(&state)).unwrap();
    assert_eq!(parsed.jails[0].pid, None);
    assert_eq!(parsed.jails[0].entrypoint, None);
}

#[test]
fn quotes_and_backslashes_in_fields_round_trip() {
    let mut rec = full_record();
    rec.repo_path = "/tmp/a\"b\\c".to_string();
    rec.entrypoint = Some(vec!["/bin/echo".to_string(), "say \"hi\"\\now".to_string()]);
    let mut state = State::new();
    state.add_jail(rec).unwrap();
    let parsed = parse_state(&encode_state(&state)).unwrap();
    assert_eq!(parsed.jails[0].repo_path, "/tmp/a\"b\\c");
    assert_eq!(
        parsed.jails[0].entrypoint,
        Some(vec!["/bin/echo".to_string(), "say \"hi\"\\now".to_string()])
    );
}

#[test]
fn empty_entrypoint_list_round_trips() {
    let mut rec = full_record();
    rec.pid = None;
    rec.entrypoint = Some(vec![]);
    let mut state = State::new();
    state.add_jail(rec).unwrap();
    let parsed = parse_state(&encode_state(&state)).unwrap();
    assert_eq!(parsed.jails[0].entrypoint, Some(vec![]));
}

#[test]
fn several_records_keep_their_order() {
    let mut state = State::new();
    for (n, t) in [("a", 3u64), ("b", 1), ("c", 2)] {
        let mut rec = full_record();
        rec.name = n.to_string();
        rec.created_at = t;
        rec.pid = None;
        rec.entrypoint = None;
        state.add_jail(rec).unwrap();
    }
    let parsed = parse_state(&encode_state(&state)).unwrap();
    let names: Vec<&str> = parsed.jails.iter().map(|j| j.name.as_str()).collect();
    assert_eq!(names, vec!["a", "b", "c"]);
}

#[test]
fn malformed_document_reports_state_corrupted() {
    for doc in [
        "",
        "{}",
        "not json at all",
        "{\"jails\":{}",
        "{\"jails\":{}}trailing",
        "{\"jails\":{\"x\":{\"id\":\"1\"}}}",
    ] {
        match parse_state(doc) {
            Err(Error::StateCorrupted(_)) => {}
            other => panic!("expected StateCorrupted for {doc:?}, got {other:?}"),
        }
    }
}

#[test]
fn duplicate_names_report_state_corrupted() {
    let mut state = State::new();
    let mut rec = full_record();
    rec.pid = None;
    rec.entrypoint = None;
    state.add_jail(rec).unwrap();
    let json = encode_state(&state);
    // Splice the single entry in twice.
    let inner = json
        .strip_prefix("{\"jails\":{")
        .and_then(|r| r.strip_suffix("}}"))
        .unwrap();
    let doubled = format!("{{\"jails\":{{{inner},{inner}}}}}");
    match parse_state(&doubled) {
        Err(Error::StateCorrupted(_)) => {}
        other => panic!("expected StateCorrupted, got {other:?}"),
    }
}

#[test]
fn numbers_too_large_are_rejected() {
    let doc = "{\"jails\":{\"x\":{\"id\":\"1\",\"name\":\"x\",\"repo_path\":\"/r\",\"worktree_path\":\"/w\",\"branch_name\":\"b\",\"created_at\":99999999999999999999999}}}";
    assert!(matches!(parse_state(doc), Err(Error::StateCorrupted(_))));
    let doc2 = "{\"jails\":{\"x\":{\"id\":\"1\",\"name\":\"x\",\"repo_path\":\"/r\",\"worktree_path\":\"/w\",\"branch_name\":\"b\",\"created_at\":5,\"pid\":4294967296}}}";
    assert!(matches!(parse_state(doc2), Err(Error::StateCorrupted(_))));
}

#[test]
fn parses_a_handwritten_canonical_document() {
    let doc = "{\"jails\":{\"demo\":{\"id\":\"u1\",\"name\":\"demo\",\"repo_path\":\"/tmp/repo\",\"worktree_path\":\"/w\",\"branch_name\":\"robojail/demo-cafe0000\",\"created_at\":42,\"pid\":7,\"entrypoint\":[\"/opt/t\",\"-v\"]}}}";
    let parsed = parse_state(doc).unwrap();
    assert_eq!(parsed.jails.len(), 1);
    let j = &parsed.jails[0];
    assert_eq!(j.name, "demo");
    assert_eq!(j.created_at, 42);
    assert_eq!(j.pid, Some(7));
    assert_eq!(
        j.entrypoint,
        Some(vec!["/opt/t".to_string(), "-v".to_string()])
    );
}
