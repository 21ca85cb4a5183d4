use workmux_core::{
    decode_record, encode_record, format_u64, load_store, parse_u64, AgentRecord, PaneKey,
    WorkmuxAgentStatus, WorkmuxBackend,
};

fn record(id: &str, status: Option<WorkmuxAgentStatus>, title: Option<&str>, ts: Option<u64>) -> AgentRecord {
    AgentRecord {
        pane_key: PaneKey { backend: WorkmuxBackend::Kitty, pane_id: id.to_string() },
        workdir: "/tmp/repo".to_string(),
        status,
        pane_title: title.map(|t| t.to_string()),
        status_ts: ts,
    }
}

#[test]
fn decimal_text_round_trips() {
    assert_eq!(format_u64(0), "0");
    assert_eq!(format_u64(1700000000), "1700000000");
    assert_eq!(format_u64(u64::MAX), "18446744073709551615");
    assert_eq!(parse_u64("18446744073709551615"), Some(u64::MAX));
    assert_eq!(parse_u64("18446744073709551616"), None);
    assert_eq!(parse_u64(""), None);
    assert_eq!(parse_u64("12a"), None);
    assert_eq!(parse_u64("007"), Some(7));
}

#[test]
fn record_text_layout() {
    let r = record("12", Some(WorkmuxAgentStatus::Waiting), Some("fix"), Some(42));
    assert_eq!(encode_record(&r), "Kitty\n12\n/tmp/repo\nWaiting\n=fix\n42");
    let bare = record("12", None, None, None);
    assert_eq!(encode_record(&bare), "Kitty\n12\n/tmp/repo\n\n\n");
}

#[test]
fn record_text_round_trips() {
    for r in [
        record("1", Some(WorkmuxAgentStatus::Done), Some(""), Some(9)),
        record("2", None, Some("t"), None),
        record("3", Some(WorkmuxAgentStatus::Working), None, Some(u64::MAX)),
    ] {
        let back = decode_record(&encode_record(&r)).unwrap();
        assert_eq!(back.pane_key.pane_id, r.pane_key.pane_id);
        assert_eq!(back.pane_key.backend, r.pane_key.backend);
        assert_eq!(back.workdir, r.workdir);
        assert_eq!(back.status, r.status);
        assert_eq!(back.pane_title, r.pane_title);
        assert_eq!(back.status_ts, r.status_ts);
    }
}

#[test]
fn damaged_records_are_rejected() {
    assert!(decode_record("Kitty\n12\n/tmp").is_none());
    assert!(decode_record("Screen\n12\n/w\n\n\n").is_none());
    assert!(decode_record("Tmux\n12\n/w\nBusy\n\n").is_none());
    assert!(decode_record("Tmux\n12\n/w\n\nfix\n").is_none());
    assert!(decode_record("Tmux\n12\n/w\n\n\n4x").is_none());
}

#[test]
fn loading_skips_damaged_entries() {
    let good = encode_record(&record("1", Some(WorkmuxAgentStatus::Working), None, Some(5)));
    let newer = encode_record(&record("1", Some(WorkmuxAgentStatus::Done), None, Some(8)));
    let other = encode_record(&record("2", None, None, None));
    let store = load_store(&vec![good, "garbage".to_string(), other, newer]);
    let all = store.list_all();
    assert_eq!(all.len(), 2);
    assert_eq!(all[0].status, Some(WorkmuxAgentStatus::Done));
    assert_eq!(all[0].status_ts, Some(8));
    assert_eq!(all[1].pane_key.pane_id, "2");
}

#[test]
fn status_names_round_trip() {
    for s in [WorkmuxAgentStatus::Working, WorkmuxAgentStatus::Waiting, WorkmuxAgentStatus::Done] {
        assert_eq!(WorkmuxAgentStatus::from_name(&s.name()), Some(s));
    }
    assert_eq!(WorkmuxAgentStatus::Waiting.name(), "Waiting");
    assert_eq!(WorkmuxAgentStatus::from_name("done"), None);
}
