use vstd::prelude::*;
use crate::adapter::{create_argv, is_tail, rename_argv, tail_lines};
use crate::backend::WorkmuxBackend;
use crate::status::{icon_of, StatusIcons, WorkmuxAgentStatus};
use crate::store::{opt_view, upserted, AgentRecord, AgentStore, PaneKey, RecordView};

verus! {

/// An operation that can fail outward.
#[derive(Clone, Copy, Debug, PartialEq, Eq, Structural)]
pub enum Operation {
    CreateWindow,
    SendKeys,
    SelectWindow,
    KillWindow,
    OpenStore,
    ListAgents,
}

/// What the failure message says the operation was.
pub open spec fn operation_phrase(op: Operation) -> Seq<char> {
    match op {
        Operation::CreateWindow => "create window"@,
        Operation::SendKeys => "send keys"@,
        Operation::SelectWindow => "select window"@,
        Operation::KillWindow => "kill window"@,
        Operation::OpenStore => "open state store"@,
        Operation::ListAgents => "list agents"@,
    }
}

impl Operation {
    /// The phrase that names this operation in a failure message.
    pub fn phrase(&self) -> (r: String)
        ensures
            r@ == operation_phrase(*self),
    {
        match self {
            Operation::CreateWindow => String::from_str("create window"),
            Operation::SendKeys => String::from_str("send keys"),
            Operation::SelectWindow => String::from_str("select window"),
            Operation::KillWindow => String::from_str("kill window"),
            Operation::OpenStore => String::from_str("open state store"),
            Operation::ListAgents => String::from_str("list agents"),
        }
    }
}

/// Failures that reach the caller.
#[derive(Debug)]
pub enum WorkmuxError {
    /// The multiplexer server does not answer.
    NotRunning,
    /// The caller is not inside a pane of the detected backend.
    NotInPane,
    /// A multiplexer operation failed.
    Backend { op: Operation, backend: WorkmuxBackend, cause: String },
    /// The state store could not be opened or read.
    Store { op: Operation, cause: String },
}

/// The text of a failure.
pub open spec fn error_message(e: WorkmuxError) -> Seq<char> {
    match e {
        WorkmuxError::NotRunning => "Multiplexer is not running"@,
        WorkmuxError::NotInPane => "Not running inside a multiplexer pane"@,
        WorkmuxError::Backend { op, cause, .. } => "Failed to "@ + operation_phrase(op) + ": "@ + cause@,
        WorkmuxError::Store { op, cause } => "Failed to "@ + operation_phrase(op) + ": "@ + cause@,
    }
}

fn failure_text(op: Operation, cause: &String) -> (r: String)
    ensures
        r@ == "Failed to "@ + operation_phrase(op) + ": "@ + cause@,
{
    let head = String::from_str("Failed to ");
    let phrase = op.phrase();
    let r = head.concat(phrase.as_str()).concat(": ").concat(cause.as_str());
    r
}

impl WorkmuxError {
    /// The text of this failure.
    pub fn message(&self) -> (r: String)
        ensures
            r@ == error_message(*self),
    {
        match self {
            WorkmuxError::NotRunning => String::from_str("Multiplexer is not running"),
            WorkmuxError::NotInPane => String::from_str("Not running inside a multiplexer pane"),
            WorkmuxError::Backend { op, cause, .. } => failure_text(*op, cause),
            WorkmuxError::Store { op, cause } => failure_text(*op, cause),
        }
    }
}

/// Detected backend, whether its server runs, and the calling pane.
#[derive(Debug)]
pub struct WorkmuxEnvironment {
    pub backend: WorkmuxBackend,
    pub is_running: bool,
    pub pane_id: Option<String>,
}

/// Liveness as a plain answer: a probe that failed counts as not running.
pub open spec fn probe_true(probe: Result<bool, String>) -> bool {
    match probe {
        Ok(b) => b,
        Err(_) => false,
    }
}

/// Whether the multiplexer server runs; a failed probe gives `false`.
pub fn workmux_is_available(probe: Result<bool, String>) -> (r: bool)
    ensures
        r == probe_true(probe),
{
    match probe {
        Ok(b) => b,
        Err(_) => false,
    }
}

/// The pane hosting the caller, or `None` outside a pane of this backend.
pub fn workmux_current_pane_id(pane: Option<String>) -> (r: Option<String>)
    ensures
        opt_view(r) == opt_view(pane),
{
    pane
}

/// The environment report: the backend, its liveness (a failed probe gives
/// `false`), and the calling pane if any.
pub fn workmux_detect_environment(
    backend: WorkmuxBackend,
    probe: Result<bool, String>,
    pane: Option<String>,
) -> (r: WorkmuxEnvironment)
    ensures
        r.backend == backend,
        r.is_running == probe_true(probe),
        opt_view(r.pane_id) == opt_view(pane),
{
    WorkmuxEnvironment {
        backend,
        is_running: workmux_is_available(probe),
        pane_id: workmux_current_pane_id(pane),
    }
}

/// The outcome of an outside operation, with a failure turned into a
/// [`WorkmuxError`] that names the operation and the backend.
pub open spec fn backend_outcome<T>(
    op: Operation,
    backend: WorkmuxBackend,
    outcome: Result<T, String>,
    r: Result<T, WorkmuxError>,
) -> bool {
    match outcome {
        Ok(v) => r == Ok::<T, WorkmuxError>(v),
        Err(c) => match r {
            Err(WorkmuxError::Backend { op: o, backend: b, cause }) => o == op && b == backend && cause@ == c@,
            _ => false,
        },
    }
}

fn backend_result<T>(op: Operation, backend: WorkmuxBackend, outcome: Result<T, String>) -> (r: Result<T, WorkmuxError>)
    ensures
        backend_outcome(op, backend, outcome, r),
{
    match outcome {
        Ok(v) => Ok(v),
        Err(cause) => Err(WorkmuxError::Backend { op, backend, cause }),
    }
}

/// What a new window is made from.
#[derive(Debug)]
pub struct WorkmuxCreateWindowParams {
    /// Window name prefix, such as "swarm-".
    pub prefix: String,
    /// Window name without the prefix.
    pub name: String,
    /// Working directory of the window.
    pub cwd: String,
    /// Window to place the new one after, where it still exists.
    pub after_window: Option<String>,
}

/// The name that a window is known by: prefix, then name.
pub fn full_window_name(prefix: &str, name: &str) -> (r: String)
    ensures
        r@ == prefix@ + name@,
{
    String::from_str(prefix).concat(name)
}

impl WorkmuxCreateWindowParams {
    /// The effective name of the window to create.
    pub fn full_name(&self) -> (r: String)
        ensures
            r@ == self.prefix@ + self.name@,
    {
        full_window_name(self.prefix.as_str(), self.name.as_str())
    }
}

/// Window creation: `NotRunning` where the server does not run; otherwise the
/// new pane's identity, or the backend's failure.
pub fn workmux_create_window(
    backend: WorkmuxBackend,
    running: bool,
    outcome: Result<String, String>,
) -> (r: Result<String, WorkmuxError>)
    ensures
        !running ==> r matches Err(WorkmuxError::NotRunning),
        running ==> backend_outcome(Operation::CreateWindow, backend, outcome, r),
{
    if !running {
        return Err(WorkmuxError::NotRunning);
    }
    backend_result(Operation::CreateWindow, backend, outcome)
}

/// Key injection: `NotRunning` where the server does not run; otherwise the
/// backend's answer.
pub fn workmux_send_keys(
    backend: WorkmuxBackend,
    running: bool,
    outcome: Result<(), String>,
) -> (r: Result<(), WorkmuxError>)
    ensures
        !running ==> r matches Err(WorkmuxError::NotRunning),
        running ==> backend_outcome(Operation::SendKeys, backend, outcome, r),
{
    if !running {
        return Err(WorkmuxError::NotRunning);
    }
    backend_result(Operation::SendKeys, backend, outcome)
}

/// Focusing a window: the backend's answer, a failure naming the operation.
pub fn workmux_select_window(backend: WorkmuxBackend, outcome: Result<(), String>) -> (r: Result<(), WorkmuxError>)
    ensures
        backend_outcome(Operation::SelectWindow, backend, outcome, r),
{
    backend_result(Operation::SelectWindow, backend, outcome)
}

/// Closing a window: the backend's answer, a failure naming the operation.
pub fn workmux_kill_window(backend: WorkmuxBackend, outcome: Result<(), String>) -> (r: Result<(), WorkmuxError>)
    ensures
        backend_outcome(Operation::KillWindow, backend, outcome, r),
{
    backend_result(Operation::KillWindow, backend, outcome)
}

/// Lines to capture where the caller gives none.
pub const DEFAULT_CAPTURE_LINES: u32 = 50;

/// The line count handed to the backend: the one asked for, or the default,
/// kept to its low sixteen bits.
pub fn capture_line_count(lines: Option<u32>) -> (r: u16)
    ensures
        r as int == (match lines {
            Some(n) => n as int,
            None => DEFAULT_CAPTURE_LINES as int,
        }) % 65536,
{
    let n: u32 = match lines {
        Some(n) => n,
        None => DEFAULT_CAPTURE_LINES,
    };
    (n % 65536) as u16
}

/// Pane capture: never a failure. Nothing where the server does not run or
/// the backend captured nothing (as for a pane that does not exist); else the
/// last lines of the captured text, as many as asked for (50 by default).
pub fn workmux_capture_pane(running: bool, captured: Option<String>, lines: Option<u32>) -> (r: Option<String>)
    ensures
        !running ==> r is None,
        running && captured is None ==> r is None,
        running && captured is Some ==> r is Some && is_tail(
            captured->0@,
            (match lines {
                Some(n) => n as nat,
                None => DEFAULT_CAPTURE_LINES as nat,
            }) % 65536,
            r->0@,
        ),
{
    if !running {
        return None;
    }
    match captured {
        Some(text) => {
            let count = capture_line_count(lines);
            Some(tail_lines(text.as_str(), count))
        },
        None => None,
    }
}

pub open spec fn names_view(names: Seq<String>) -> Seq<Seq<char>> {
    names.map_values(|n: String| n@)
}

/// A window of that effective name is among the listed ones.
pub open spec fn window_present(names: Seq<Seq<char>>, prefix: Seq<char>, name: Seq<char>) -> bool {
    names.contains(prefix + name)
}

/// Whether a listing of window names holds `prefix` + `name`.
pub fn window_listed(names: &Vec<String>, prefix: &str, name: &str) -> (r: bool)
    ensures
        r == window_present(names_view(names@), prefix@, name@),
{
    let full = full_window_name(prefix, name);
    let mut i: usize = 0;
    while i < names.len()
        invariant
            i <= names.len(),
            full@ == prefix@ + name@,
            forall|j: int| 0 <= j < i ==> (#[trigger] names@[j])@ != full@,
        decreases names.len() - i,
    {
        if names[i] == full {
            assert(names_view(names@)[i as int] == full@);
            return true;
        }
        i = i + 1;
    }
    assert forall|j: int| 0 <= j < names_view(names@).len() implies #[trigger] names_view(names@)[j] != full@ by {
        assert(names_view(names@)[j] == names@[j]@);
    }
    false
}

/// Existence check by effective name: `false` where the server does not run
/// or the listing failed; else whether the listing holds the name.
pub fn workmux_window_exists(running: bool, listing: Result<Vec<String>, String>, prefix: &str, name: &str) -> (r: bool)
    ensures
        r == (running && match listing {
            Ok(names) => window_present(names_view(names@), prefix@, name@),
            Err(_) => false,
        }),
{
    if !running {
        return false;
    }
    match listing {
        Ok(names) => window_listed(&names, prefix, name),
        Err(_) => false,
    }
}

/// A window that creation added to a listing is then found by its prefix and
/// name, and once every entry of its full name is gone it is not found.
pub proof fn lemma_created_then_killed(names: Seq<Seq<char>>, prefix: Seq<char>, name: Seq<char>)
    ensures
        window_present(names.push(prefix + name), prefix, name),
        !window_present(names.filter(|n: Seq<char>| n != prefix + name), prefix, name),
{
    let full = prefix + name;
    let with = names.push(full);
    assert(with[names.len() as int] == full);
    let pred = |n: Seq<char>| n != full;
    let without = names.filter(pred);
    if without.contains(full) {
        let j = choose|j: int| 0 <= j < without.len() && without[j] == full;
        names.lemma_filter_pred(pred, j);
    }
}

/// Status update for the calling pane. Outside a pane: `NotInPane`, and the
/// registry is unchanged. Inside pane `p`: the registry records the update
/// for `(backend, p)` (a new record takes `workdir`), and the result is the
/// glyph to show, or `None` where the icon table could not be loaded and the
/// visual update is skipped.
pub fn workmux_set_agent_status(
    store: &mut AgentStore,
    backend: WorkmuxBackend,
    pane: Option<String>,
    workdir: String,
    status: WorkmuxAgentStatus,
    title: Option<String>,
    now: u64,
    icons: Option<StatusIcons>,
) -> (r: Result<Option<String>, WorkmuxError>)
    requires
        old(store).wf(),
    ensures
        final(store).wf(),
        match pane {
            None => r matches Err(WorkmuxError::NotInPane) && final(store)@ == old(store)@,
            Some(p) => {
                &&& final(store)@ == upserted(old(store)@, (backend, p@), workdir@, Some(status), opt_view(title), now)
                &&& r is Ok
                &&& match icons {
                    Some(t) => r->Ok_0 is Some && r->Ok_0->0@ == icon_of(t, status),
                    None => r->Ok_0 is None,
                }
            },
        },
{
    let pane_id = match pane {
        Some(p) => p,
        None => return Err(WorkmuxError::NotInPane),
    };
    let key = PaneKey { backend, pane_id };
    store.upsert(key, workdir, Some(status), title, now);
    Ok(crate::status::resolve_icon(icons, status))
}

/// The pane whose indicator to clear, or `NotInPane` outside a pane.
pub fn workmux_clear_agent_status(pane: Option<String>) -> (r: Result<String, WorkmuxError>)
    ensures
        match pane {
            None => r matches Err(WorkmuxError::NotInPane),
            Some(p) => r is Ok && r->Ok_0@ == p@,
        },
{
    match pane {
        Some(p) => Ok(p),
        None => Err(WorkmuxError::NotInPane),
    }
}

/// An agent as the dashboard lists it.
#[derive(Debug)]
pub struct WorkmuxAgentInfo {
    pub pane_id: String,
    pub workdir: String,
    pub status: Option<WorkmuxAgentStatus>,
    pub title: Option<String>,
    /// Seconds since the Unix epoch of the last status change.
    pub status_ts: Option<u64>,
}

/// The listing entry shows what the record holds.
pub open spec fn info_shows(i: WorkmuxAgentInfo, r: RecordView) -> bool {
    &&& i.pane_id@ == r.key.1
    &&& i.workdir@ == r.workdir
    &&& i.status == r.status
    &&& opt_view(i.title) == r.title
    &&& i.status_ts == r.status_ts
}

fn agent_info(a: AgentRecord) -> (r: WorkmuxAgentInfo)
    ensures
        info_shows(r, a@),
{
    WorkmuxAgentInfo {
        pane_id: a.pane_key.pane_id,
        workdir: a.workdir,
        status: a.status,
        title: a.pane_title,
        status_ts: a.status_ts,
    }
}

/// Every agent of the registry, one entry per record.
pub fn workmux_list_agents(store: &AgentStore) -> (r: Vec<WorkmuxAgentInfo>)
    ensures
        r@.len() == store@.len(),
        forall|i: int| 0 <= i < r@.len() ==> info_shows(#[trigger] r@[i], store@[i]),
{
    let mut records = store.list_all();
    let ghost all = store@;
    assert(crate::store::records_view(records@) == all);
    let mut out: Vec<WorkmuxAgentInfo> = Vec::new();
    let n = records.len();
    let mut rev: Vec<WorkmuxAgentInfo> = Vec::new();
    while records.len() > 0
        invariant
            records@.len() + rev@.len() == n,
            n == all.len(),
            forall|j: int| 0 <= j < records@.len() ==> (#[trigger] records@[j])@ == all[j],
            forall|j: int| 0 <= j < rev@.len() ==> info_shows(#[trigger] rev@[j], all[n - 1 - j]),
        decreases records.len(),
    {
        let a = records.pop().unwrap();
        rev.push(agent_info(a));
    }
    while rev.len() > 0
        invariant
            rev@.len() + out@.len() == n,
            n == all.len(),
            forall|j: int| 0 <= j < rev@.len() ==> info_shows(#[trigger] rev@[j], all[n - 1 - j]),
            forall|j: int| 0 <= j < out@.len() ==> info_shows(#[trigger] out@[j], all[j]),
        decreases rev.len(),
    {
        let i = rev.pop().unwrap();
        out.push(i);
    }
    out
}

/// The registry as opened, or the failure that names the operation.
pub fn workmux_open_store(opened: Result<AgentStore, String>) -> (r: Result<AgentStore, WorkmuxError>)
    ensures
        match opened {
            Ok(s) => r is Ok && r->Ok_0@ == s@,
            Err(c) => match r {
                Err(WorkmuxError::Store { op, cause }) => op == Operation::OpenStore && cause@ == c@,
                _ => false,
            },
        },
{
    match opened {
        Ok(s) => Ok(s),
        Err(cause) => Err(WorkmuxError::Store { op: Operation::OpenStore, cause }),
    }
}

/// Position of the first entry titled `title`, or -1.
pub open spec fn first_titled(entries: Seq<(Seq<char>, Seq<char>)>, title: Seq<char>) -> int
    decreases entries.len(),
{
    if entries.len() == 0 {
        -1
    } else if entries[0].1 == title {
        0
    } else {
        let r = first_titled(entries.drop_first(), title);
        if r < 0 {
            -1
        } else {
            r + 1
        }
    }
}

pub open spec fn pairs_view(entries: Seq<(String, String)>) -> Seq<(Seq<char>, Seq<char>)> {
    entries.map_values(|e: (String, String)| (e.0@, e.1@))
}

/// The pane of the first window titled `title`, from (pane, title) pairs
/// that a backend listed; `None` where no window has that title.
pub fn pane_for_title(entries: &Vec<(String, String)>, title: &str) -> (r: Option<String>)
    ensures
        ({
            let i = first_titled(pairs_view(entries@), title@);
            match r {
                Some(p) => i >= 0 && p@ == pairs_view(entries@)[i].0,
                None => i < 0,
            }
        }),
{
    let want = String::from_str(title);
    let ghost es = pairs_view(entries@);
    let mut k: usize = 0;
    assert(es.subrange(0, es.len() as int) =~= es);
    while k < entries.len()
        invariant
            k <= entries.len(),
            es.len() == entries@.len(),
            want@ == title@,
            es == pairs_view(entries@),
            first_titled(es, title@) == (if first_titled(es.subrange(k as int, es.len() as int), title@) < 0 {
                -1
            } else {
                first_titled(es.subrange(k as int, es.len() as int), title@) + k
            }),
        decreases entries.len() - k,
    {
        let ghost rest = es.subrange(k as int, es.len() as int);
        assert(rest[0] == es[k as int]);
        assert(rest.drop_first() =~= es.subrange(k + 1, es.len() as int));
        assert(es[k as int] == (entries@[k as int].0@, entries@[k as int].1@));
        if entries[k].1 == want {
            return Some(entries[k].0.clone());
        }
        k = k + 1;
    }
    assert(es.subrange(k as int, es.len() as int).len() == 0);
    None
}

/// The title that the creation commands give a new window: the word after
/// tmux's `-n` or kitty's `--tab-title`, or the last word of WezTerm's
/// renaming command.
pub open spec fn title_given(b: WorkmuxBackend, prefix: Seq<char>, name: Seq<char>, cwd: Seq<char>, after: Option<Seq<char>>, pane: Seq<char>) -> Seq<char> {
    match b {
        WorkmuxBackend::Tmux => create_argv(b, prefix + name, cwd, after)[7],
        WorkmuxBackend::Kitty => create_argv(b, prefix + name, cwd, after)[5],
        WorkmuxBackend::WezTerm => rename_argv(b, pane, prefix + name)->0[5],
    }
}

/// On every backend, the window that creation makes carries the title
/// `prefix` + `name`, so a listing that shows it makes the existence check
/// by `prefix` and `name` succeed.
pub proof fn lemma_created_window_found(
    b: WorkmuxBackend,
    prefix: Seq<char>,
    name: Seq<char>,
    cwd: Seq<char>,
    after: Option<Seq<char>>,
    pane: Seq<char>,
    listing: Seq<Seq<char>>,
)
    ensures
        title_given(b, prefix, name, cwd, after, pane) == prefix + name,
        window_present(listing.push(title_given(b, prefix, name, cwd, after, pane)), prefix, name),
{
    lemma_created_then_killed(listing, prefix, name);
}

} // verus!
