use workmux_core::{AgentStore, PaneKey, WorkmuxAgentStatus, WorkmuxBackend};

fn key(id: &str) -> PaneKey {
    PaneKey { backend: WorkmuxBackend::Tmux, pane_id: id.to_string() }
}

#[test]
fn second_status_replaces_first() {
    let mut s = AgentStore::new();
    s.upsert(key("%1"), "/tmp/repo".to_string(), Some(WorkmuxAgentStatus::Working), None, 100);
    let first = s.list_all();
    assert_eq!(first[0].status_ts, Some(100));
    s.upsert(key("%1"), "/elsewhere".to_string(), Some(WorkmuxAgentStatus::Done), None, 105);
    let all = s.list_all();
    assert_eq!(all.len(), 1);
    assert_eq!(all[0].status, Some(WorkmuxAgentStatus::Done));
    assert_eq!(all[0].status_ts, Some(105));
    assert!(all[0].status_ts >= first[0].status_ts);
    assert_eq!(all[0].workdir, "/tmp/repo");
}

#[test]
fn partial_update_keeps_other_fields() {
    let mut s = AgentStore::new();
    s.upsert(key("%2"), "/w".to_string(), Some(WorkmuxAgentStatus::Waiting), Some("task".to_string()), 7);
    s.upsert(key("%2"), "/w".to_string(), None, Some("renamed".to_string()), 9);
    let all = s.list_all();
    assert_eq!(all.len(), 1);
    assert_eq!(all[0].status, Some(WorkmuxAgentStatus::Waiting));
    assert_eq!(all[0].status_ts, Some(7));
    assert_eq!(all[0].pane_title.as_deref(), Some("renamed"));
    s.upsert(key("%2"), "/w".to_string(), Some(WorkmuxAgentStatus::Working), None, 11);
    let all = s.list_all();
    assert_eq!(all[0].pane_title.as_deref(), Some("renamed"));
    assert_eq!(all[0].status_ts, Some(11));
}

#[test]
fn record_without_status_has_no_stamp() {
    let mut s = AgentStore::new();
    s.upsert(key("%3"), "/w".to_string(), None, Some("t".to_string()), 50);
    let all = s.list_all();
    assert_eq!(all[0].status, None);
    assert_eq!(all[0].status_ts, None);
}

#[test]
fn distinct_keys_give_distinct_records() {
    let mut s = AgentStore::new();
    let n = 8;
    for i in 0..n {
        s.upsert(key(&format!("%{i}")), format!("/w{i}"), Some(WorkmuxAgentStatus::Working), None, i as u64);
    }
    let all = s.list_all();
    assert_eq!(all.len(), n);
    for i in 0..n {
        let id = format!("%{i}");
        let found: Vec<_> = all.iter().filter(|r| r.pane_key.pane_id == id).collect();
        assert_eq!(found.len(), 1);
        assert_eq!(found[0].workdir, format!("/w{i}"));
        assert_eq!(found[0].status_ts, Some(i as u64));
    }
}

#[test]
fn same_pane_id_on_other_backend_is_another_key() {
    let mut s = AgentStore::new();
    s.upsert(key("1"), "/a".to_string(), None, None, 1);
    let other = PaneKey { backend: WorkmuxBackend::Kitty, pane_id: "1".to_string() };
    s.upsert(other, "/b".to_string(), None, None, 2);
    assert_eq!(s.len(), 2);
}
