use workmux_core::{
    capture_command, create_command, list_command, liveness_command, rename_command,
    send_keys_commands, split_lines, status_command, tail_lines, window_command, WindowAction,
    WorkmuxBackend,
};

fn argv(words: &[&str]) -> Vec<String> {
    words.iter().map(|w| w.to_string()).collect()
}

#[test]
fn tmux_create_places_after_window() {
    let c = create_command(WorkmuxBackend::Tmux, "swarm-agent1", "/tmp/repo", &Some("@3".to_string()));
    assert_eq!(c, argv(&["tmux", "new-window", "-d", "-P", "-F", "#{pane_id}", "-n", "swarm-agent1",
        "-c", "/tmp/repo", "-a", "-t", "@3"]));
    let c = create_command(WorkmuxBackend::Tmux, "w", "/r", &None);
    assert_eq!(c.len(), 10);
}

#[test]
fn wezterm_and_kitty_create() {
    let c = create_command(WorkmuxBackend::WezTerm, "swarm-a", "/r", &None);
    assert_eq!(c, argv(&["wezterm", "cli", "spawn", "--new-window", "--cwd", "/r"]));
    assert_eq!(rename_command(WorkmuxBackend::WezTerm, "7", "swarm-a"),
        Some(argv(&["wezterm", "cli", "set-tab-title", "--pane-id", "7", "swarm-a"])));
    assert_eq!(rename_command(WorkmuxBackend::Tmux, "%7", "swarm-a"), None);
    let c = create_command(WorkmuxBackend::Kitty, "swarm-a", "/r", &None);
    assert_eq!(c, argv(&["kitten", "@", "launch", "--type=tab", "--tab-title", "swarm-a", "--cwd", "/r"]));
}

#[test]
fn send_keys_submits_on_every_backend() {
    assert_eq!(send_keys_commands(WorkmuxBackend::Tmux, "%1", "ls"), vec![
        argv(&["tmux", "send-keys", "-t", "%1", "-l", "ls"]),
        argv(&["tmux", "send-keys", "-t", "%1", "Enter"]),
    ]);
    assert_eq!(send_keys_commands(WorkmuxBackend::WezTerm, "3", "ls"),
        vec![argv(&["wezterm", "cli", "send-text", "--pane-id", "3", "--no-paste", "ls\r"])]);
    assert_eq!(send_keys_commands(WorkmuxBackend::Kitty, "3", "ls"),
        vec![argv(&["kitten", "@", "send-text", "--match", "id:3", "ls\r"])]);
}

#[test]
fn window_and_probe_commands() {
    assert_eq!(window_command(WorkmuxBackend::Tmux, WindowAction::Kill, "swarm-agent1"),
        argv(&["tmux", "kill-window", "-t", "=swarm-agent1"]));
    assert_eq!(window_command(WorkmuxBackend::Kitty, WindowAction::Select, "swarm-a"),
        argv(&["kitten", "@", "focus-tab", "--match", "title:swarm-a"]));
    assert_eq!(window_command(WorkmuxBackend::WezTerm, WindowAction::Kill, "4"),
        argv(&["wezterm", "cli", "kill-pane", "--pane-id", "4"]));
    assert_eq!(liveness_command(WorkmuxBackend::Tmux), argv(&["tmux", "has-session"]));
    assert_eq!(list_command(WorkmuxBackend::Tmux), argv(&["tmux", "list-windows", "-a", "-F", "#{window_name}"]));
    assert_eq!(capture_command(WorkmuxBackend::Kitty, "9"),
        argv(&["kitten", "@", "get-text", "--match", "id:9", "--extent", "all"]));
    assert_eq!(status_command(WorkmuxBackend::Tmux, "%1", Some("*")),
        Some(argv(&["tmux", "set-option", "-w", "-t", "%1", "@workmux_status", "*"])));
    assert_eq!(status_command(WorkmuxBackend::Tmux, "%1", None),
        Some(argv(&["tmux", "set-option", "-w", "-u", "-t", "%1", "@workmux_status"])));
    assert_eq!(status_command(WorkmuxBackend::Kitty, "1", None), None);
}

#[test]
fn tail_keeps_most_recent_lines() {
    assert_eq!(tail_lines("a\nb\nc", 2), "b\nc");
    assert_eq!(tail_lines("a\nb\nc", 5), "a\nb\nc");
    assert_eq!(tail_lines("a\nb\nc", 1), "c");
    assert_eq!(tail_lines("a\nb\nc", 0), "");
    assert_eq!(tail_lines("", 3), "");
}

#[test]
fn lines_split_at_breaks() {
    assert_eq!(split_lines("main\nswarm-agent1\n"), argv(&["main", "swarm-agent1", ""]));
    assert_eq!(split_lines(""), argv(&[""]));
    assert_eq!(split_lines("one"), argv(&["one"]));
}
