use robojail::codec::{encode_state, parse_state};
use robojail::error::Error;
use robojail::state::{JailInfo, State};

fn sample(name: &str, created_at: u64) -> JailInfo {
    JailInfo {
        id: uuid::Uuid::new_v4().to_string(),
        name: name.to_string(),
        repo_path: "/home/user/repo".to_string(),
        worktree_path: "/home/user/.local/share/robojail/jails/test".to_string(),
        branch_name: "robojail/test-abc123".to_string(),
        created_at,
        pid: None,
        entrypoint: None,
    }
}

#[test]
fn test_jail_info_serialize() {
    let info = JailInfo {
        id: uuid::Uuid::new_v4().to_string(),
        name: "test".to_string(),
        repo_path: "/home/user/repo".to_string(),
        worktree_path: "/home/user/.local/share/robojail/jails/test".to_string(),
        branch_name: "robojail/test-abc123".to_string(),
        created_at: chrono::Utc::now().timestamp() as u64,
        pid: None,
        entrypoint: None,
    };

    let mut state = State::new();
    state.add_jail(info).unwrap();
    let json = encode_state(&state);
    let parsed = parse_state(&json).unwrap();
    assert_eq!(state.jails[0].name, parsed.jails[0].name);
}

#[test]
fn test_state_add_remove() {
    let mut state = State::new();
    let info = JailInfo {
        id: uuid::Uuid::new_v4().to_string(),
        name: "test".to_string(),
        repo_path: "/repo".to_string(),
        worktree_path: "/jail".to_string(),
        branch_name: "robojail/test".to_string(),
        created_at: chrono::Utc::now().timestamp() as u64,
        pid: None,
        entrypoint: None,
    };

    state.add_jail(info).unwrap();
    assert!(state.get_jail("test").is_ok());
    assert!(state.get_jail("nonexistent").is_err());
}

#[test]
fn adding_same_name_twice_is_a_conflict() {
    let mut state = State::new();
    state.add_jail(sample("demo", 1)).unwrap();
    match state.add_jail(sample("demo", 2)) {
        Err(Error::JailExists(n)) => assert_eq!(n, "demo"),
        _ => panic!("expected JailExists"),
    }
    assert_eq!(state.jails.len(), 1);
}

#[test]
fn removing_absent_name_reports_not_found() {
    let mut state = State::new();
    match state.remove_jail("ghost") {
        Err(Error::JailNotFound(n)) => assert_eq!(n, "ghost"),
        _ => panic!("expected JailNotFound"),
    }
}

#[test]
fn create_then_destroy_restores_the_registry() {
    let mut state = State::new();
    state.add_jail(sample("keep", 1)).unwrap();
    let before = encode_state(&state);
    state.add_jail(sample("temp", 2)).unwrap();
    let removed = state.remove_jail("temp").unwrap();
    assert_eq!(removed.name, "temp");
    assert_eq!(encode_state(&state), before);
}

#[test]
fn set_pid_updates_only_that_record() {
    let mut state = State::new();
    state.add_jail(sample("one", 1)).unwrap();
    state.add_jail(sample("two", 2)).unwrap();
    state.set_pid("two", Some(4321)).unwrap();
    assert_eq!(state.get_jail("one").unwrap().pid, None);
    assert_eq!(state.get_jail("two").unwrap().pid, Some(4321));
    state.set_pid("two", None).unwrap();
    assert_eq!(state.get_jail("two").unwrap().pid, None);
    match state.set_pid("ghost", Some(1)) {
        Err(Error::JailNotFound(n)) => assert_eq!(n, "ghost"),
        _ => panic!("expected JailNotFound"),
    }
}

#[test]
fn list_jails_orders_by_creation_time() {
    let mut state = State::new();
    state.add_jail(sample("late", 30)).unwrap();
    state.add_jail(sample("early", 10)).unwrap();
    state.add_jail(sample("middle", 20)).unwrap();
    let listed = state.list_jails();
    let names: Vec<&str> = listed.iter().map(|j| j.name.as_str()).collect();
    assert_eq!(names, vec!["early", "middle", "late"]);
}
