use workmux_core::{
    capture_line_count, full_window_name, resolve_icon, window_listed, workmux_capture_pane,
    workmux_clear_agent_status, workmux_create_window, workmux_current_pane_id,
    workmux_detect_environment, workmux_is_available, workmux_kill_window, workmux_list_agents,
    workmux_open_store, workmux_select_window, workmux_send_keys, workmux_set_agent_status,
    workmux_window_exists, AgentStore, Operation, StatusIcons, WorkmuxAgentStatus, WorkmuxBackend,
    WorkmuxCreateWindowParams, WorkmuxError,
};

fn icons() -> StatusIcons {
    StatusIcons { working: "W".to_string(), waiting: "?".to_string(), done: "D".to_string() }
}

#[test]
fn liveness_never_fails() {
    assert!(!workmux_is_available(Err("no server".to_string())));
    assert!(!workmux_is_available(Ok(false)));
    assert!(workmux_is_available(Ok(true)));
    assert_eq!(workmux_current_pane_id(None), None);
    assert_eq!(workmux_current_pane_id(Some("%4".to_string())).as_deref(), Some("%4"));
}

#[test]
fn environment_without_server() {
    let e = workmux_detect_environment(WorkmuxBackend::Kitty, Err("refused".to_string()), None);
    assert_eq!(e.backend, WorkmuxBackend::Kitty);
    assert!(!e.is_running);
    assert_eq!(e.pane_id, None);
}

#[test]
fn create_window_needs_server() {
    let r = workmux_create_window(WorkmuxBackend::Tmux, false, Ok("%9".to_string()));
    assert!(matches!(r, Err(WorkmuxError::NotRunning)));
    assert_eq!(r.unwrap_err().message(), "Multiplexer is not running");
}

#[test]
fn create_window_returns_pane() {
    let params = WorkmuxCreateWindowParams {
        prefix: "swarm-".to_string(),
        name: "agent1".to_string(),
        cwd: "/tmp/repo".to_string(),
        after_window: None,
    };
    assert_eq!(params.full_name(), "swarm-agent1");
    let r = workmux_create_window(WorkmuxBackend::WezTerm, true, Ok("42".to_string()));
    assert_eq!(r.unwrap(), "42");
}

#[test]
fn create_window_failure_names_operation_and_backend() {
    let r = workmux_create_window(WorkmuxBackend::Kitty, true, Err("duplicate".to_string()));
    match r {
        Err(e) => {
            assert_eq!(e.message(), "Failed to create window: duplicate");
            match e {
                WorkmuxError::Backend { op, backend, cause } => {
                    assert_eq!(op, Operation::CreateWindow);
                    assert_eq!(backend, WorkmuxBackend::Kitty);
                    assert_eq!(cause, "duplicate");
                }
                _ => panic!("wrong error"),
            }
        }
        Ok(_) => panic!("expected failure"),
    }
}

#[test]
fn send_select_kill_map_failures() {
    assert!(matches!(workmux_send_keys(WorkmuxBackend::Tmux, false, Ok(())), Err(WorkmuxError::NotRunning)));
    assert!(workmux_send_keys(WorkmuxBackend::Tmux, true, Ok(())).is_ok());
    let e = workmux_send_keys(WorkmuxBackend::Tmux, true, Err("no pane".to_string())).unwrap_err();
    assert_eq!(e.message(), "Failed to send keys: no pane");
    let e = workmux_select_window(WorkmuxBackend::Tmux, Err("gone".to_string())).unwrap_err();
    assert_eq!(e.message(), "Failed to select window: gone");
    assert!(workmux_select_window(WorkmuxBackend::Tmux, Ok(())).is_ok());
    let e = workmux_kill_window(WorkmuxBackend::WezTerm, Err("gone".to_string())).unwrap_err();
    assert_eq!(e.message(), "Failed to kill window: gone");
    assert!(workmux_kill_window(WorkmuxBackend::WezTerm, Ok(())).is_ok());
}

#[test]
fn capture_is_soft() {
    assert_eq!(workmux_capture_pane(true, None, None), None);
    assert_eq!(workmux_capture_pane(false, Some("x".to_string()), None), None);
    assert_eq!(workmux_capture_pane(true, Some("out".to_string()), None).as_deref(), Some("out"));
    assert_eq!(workmux_capture_pane(true, Some("a\nb\nc".to_string()), Some(2)).as_deref(), Some("b\nc"));
    let long: Vec<String> = (0..60).map(|i| i.to_string()).collect();
    let text = long.join("\n");
    let got = workmux_capture_pane(true, Some(text), None).unwrap();
    assert_eq!(got.lines().count(), 50);
    assert!(got.starts_with("10\n"));
    assert_eq!(capture_line_count(None), 50);
    assert_eq!(capture_line_count(Some(10)), 10);
    assert_eq!(capture_line_count(Some(65536 + 3)), 3);
}

#[test]
fn window_exists_by_full_name() {
    let names = vec!["main".to_string(), "swarm-agent1".to_string()];
    assert!(window_listed(&names, "swarm-", "agent1"));
    assert!(!window_listed(&names, "swarm-", "agent2"));
    assert!(workmux_window_exists(true, Ok(names.clone()), "swarm-", "agent1"));
    assert!(!workmux_window_exists(false, Ok(names), "swarm-", "agent1"));
    assert!(!workmux_window_exists(true, Err("x".to_string()), "swarm-", "agent1"));
    let after_kill = vec!["main".to_string()];
    assert!(!workmux_window_exists(true, Ok(after_kill), "swarm-", "agent1"));
    assert_eq!(full_window_name("swarm-", "agent1"), "swarm-agent1");
}

#[test]
fn set_status_outside_pane_fails() {
    let mut s = AgentStore::new();
    let r = workmux_set_agent_status(&mut s, WorkmuxBackend::Tmux, None, "/w".to_string(),
        WorkmuxAgentStatus::Done, None, 3, Some(icons()));
    let e = r.unwrap_err();
    assert!(matches!(e, WorkmuxError::NotInPane));
    assert_eq!(e.message(), "Not running inside a multiplexer pane");
    assert_eq!(s.len(), 0);
    assert!(matches!(workmux_clear_agent_status(None), Err(WorkmuxError::NotInPane)));
    assert_eq!(workmux_clear_agent_status(Some("%1".to_string())).unwrap(), "%1");
}

#[test]
fn set_status_records_and_picks_icon() {
    let mut s = AgentStore::new();
    let r = workmux_set_agent_status(&mut s, WorkmuxBackend::Tmux, Some("%5".to_string()),
        "/repo".to_string(), WorkmuxAgentStatus::Waiting, Some("fix bug".to_string()), 77, Some(icons()));
    assert_eq!(r.unwrap().as_deref(), Some("?"));
    let r = workmux_set_agent_status(&mut s, WorkmuxBackend::Tmux, Some("%5".to_string()),
        "/repo".to_string(), WorkmuxAgentStatus::Done, None, 80, None);
    assert_eq!(r.unwrap(), None);
    let list = workmux_list_agents(&s);
    assert_eq!(list.len(), 1);
    assert_eq!(list[0].pane_id, "%5");
    assert_eq!(list[0].workdir, "/repo");
    assert_eq!(list[0].status, Some(WorkmuxAgentStatus::Done));
    assert_eq!(list[0].title.as_deref(), Some("fix bug"));
    assert_eq!(list[0].status_ts, Some(80));
}

#[test]
fn icons_resolve_per_status() {
    assert_eq!(resolve_icon(Some(icons()), WorkmuxAgentStatus::Working).as_deref(), Some("W"));
    assert_eq!(resolve_icon(Some(icons()), WorkmuxAgentStatus::Waiting).as_deref(), Some("?"));
    assert_eq!(resolve_icon(Some(icons()), WorkmuxAgentStatus::Done).as_deref(), Some("D"));
    assert_eq!(resolve_icon(None, WorkmuxAgentStatus::Done), None);
}

#[test]
fn list_agents_keeps_order_of_records() {
    let mut s = AgentStore::new();
    for id in ["a", "b", "c"] {
        let r = workmux_set_agent_status(&mut s, WorkmuxBackend::WezTerm, Some(id.to_string()),
            format!("/{id}"), WorkmuxAgentStatus::Working, None, 1, None);
        assert!(r.is_ok());
    }
    let list = workmux_list_agents(&s);
    let ids: Vec<&str> = list.iter().map(|i| i.pane_id.as_str()).collect();
    assert_eq!(ids, vec!["a", "b", "c"]);
}

#[test]
fn open_store_failure_is_typed() {
    let e = workmux_open_store(Err("denied".to_string())).unwrap_err();
    assert_eq!(e.message(), "Failed to open state store: denied");
    assert!(workmux_open_store(Ok(AgentStore::new())).is_ok());
}

#[test]
fn create_exists_kill_scenario() {
    let params = WorkmuxCreateWindowParams {
        prefix: "swarm-".to_string(),
        name: "agent1".to_string(),
        cwd: "/tmp/repo".to_string(),
        after_window: None,
    };
    for b in [WorkmuxBackend::Tmux, WorkmuxBackend::WezTerm, WorkmuxBackend::Kitty] {
        let pane = workmux_create_window(b, true, Ok("%12".to_string())).unwrap();
        assert!(!pane.is_empty());
        let listing = vec!["main".to_string(), params.full_name()];
        assert!(workmux_window_exists(true, Ok(listing), "swarm-", "agent1"));
        assert!(workmux_select_window(b, Ok(())).is_ok());
        assert!(workmux_kill_window(b, Ok(())).is_ok());
        let listing = vec!["main".to_string()];
        assert!(!workmux_window_exists(true, Ok(listing), "swarm-", "agent1"));
    }
}

#[test]
fn capture_of_missing_pane_is_absent() {
    let r: Option<String> = workmux_capture_pane(true, None, Some(20));
    assert!(r.is_none());
}

#[test]
fn pane_lookup_by_window_title() {
    let panes = vec![
        ("0".to_string(), "main".to_string()),
        ("4".to_string(), "swarm-agent1".to_string()),
        ("5".to_string(), "swarm-agent1".to_string()),
    ];
    assert_eq!(workmux_core::pane_for_title(&panes, "swarm-agent1").as_deref(), Some("4"));
    assert_eq!(workmux_core::pane_for_title(&panes, "swarm-agent2"), None);
    assert_eq!(workmux_core::pane_for_title(&Vec::new(), "main"), None);
}
