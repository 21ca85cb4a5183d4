//! Terminal multiplexer orchestration for coding agents: backend detection,
//! the decisions behind each control operation, status icons, and the
//! agent-state registry.

mod adapter;
mod backend;
mod codec;
mod ops;
mod persist;
mod status;
mod store;

pub use adapter::{
    capture_command, create_command, list_command, liveness_command, rename_command,
    send_keys_commands, split_lines, status_command, tail_lines, window_command, WindowAction,
};
pub use backend::{
    backend_from_name, backend_name, detect_backend, detected, lemma_backend_name_round_trip,
    EnvMarkers, WorkmuxBackend,
};
pub use ops::{
    capture_line_count, full_window_name, lemma_created_then_killed, lemma_created_window_found,
    pane_for_title,
    window_listed, workmux_capture_pane, workmux_clear_agent_status, workmux_create_window,
    workmux_current_pane_id, workmux_detect_environment, workmux_is_available, workmux_kill_window,
    workmux_list_agents, workmux_open_store, workmux_select_window, workmux_send_keys,
    workmux_set_agent_status, workmux_window_exists, Operation, WorkmuxAgentInfo,
    WorkmuxCreateWindowParams, WorkmuxEnvironment, WorkmuxError, DEFAULT_CAPTURE_LINES,
};
pub use codec::{format_u64, lemma_decimal_text, parse_u64};
pub use persist::{
    decode_record, decoded, encode_record, join_text, lemma_lines_of_joined,
    lemma_record_text_round_trip, load_store,
};
pub use status::{lemma_status_name_round_trip, resolve_icon, StatusIcons, WorkmuxAgentStatus};
pub use store::{
    lemma_distinct_updates_all_kept, lemma_last_status_wins, AgentRecord, AgentStore, PaneKey,
    RecordView, UpdateView,
};
