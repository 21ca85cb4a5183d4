use vstd::prelude::*;

verus! {

/// What an agent reports on the dashboard.
#[derive(Clone, Copy, Debug, PartialEq, Eq, Structural)]
pub enum WorkmuxAgentStatus {
    Working,
    Waiting,
    Done,
}

/// Glyphs that the dashboard shows for each status, as configured.
#[derive(Debug)]
pub struct StatusIcons {
    pub working: String,
    pub waiting: String,
    pub done: String,
}

/// The glyph that a table gives for a status.
pub open spec fn icon_of(t: StatusIcons, s: WorkmuxAgentStatus) -> Seq<char> {
    match s {
        WorkmuxAgentStatus::Working => t.working@,
        WorkmuxAgentStatus::Waiting => t.waiting@,
        WorkmuxAgentStatus::Done => t.done@,
    }
}

impl StatusIcons {
    /// Looks up the glyph for a status.
    pub fn icon(&self, s: WorkmuxAgentStatus) -> (r: String)
        ensures
            r@ == icon_of(*self, s),
    {
        match s {
            WorkmuxAgentStatus::Working => self.working.clone(),
            WorkmuxAgentStatus::Waiting => self.waiting.clone(),
            WorkmuxAgentStatus::Done => self.done.clone(),
        }
    }
}

/// Resolves the glyph for a status from a freshly loaded table. A table that
/// could not be loaded (`None`) gives no glyph, and the caller skips the
/// visual update.
pub fn resolve_icon(table: Option<StatusIcons>, s: WorkmuxAgentStatus) -> (r: Option<String>)
    ensures
        match table {
            Some(t) => r is Some && r->0@ == icon_of(t, s),
            None => r is None,
        },
{
    match table {
        Some(t) => Some(t.icon(s)),
        None => None,
    }
}

/// External name of each status.
pub open spec fn status_name(s: WorkmuxAgentStatus) -> Seq<char> {
    match s {
        WorkmuxAgentStatus::Working => "Working"@,
        WorkmuxAgentStatus::Waiting => "Waiting"@,
        WorkmuxAgentStatus::Done => "Done"@,
    }
}

/// The status whose external name is `s`, if any.
pub open spec fn status_from_name(s: Seq<char>) -> Option<WorkmuxAgentStatus> {
    if s == status_name(WorkmuxAgentStatus::Working) {
        Some(WorkmuxAgentStatus::Working)
    } else if s == status_name(WorkmuxAgentStatus::Waiting) {
        Some(WorkmuxAgentStatus::Waiting)
    } else if s == status_name(WorkmuxAgentStatus::Done) {
        Some(WorkmuxAgentStatus::Done)
    } else {
        None
    }
}

/// Encoding a status and decoding the name gives the status back.
pub proof fn lemma_status_name_round_trip(s: WorkmuxAgentStatus)
    ensures
        status_from_name(status_name(s)) == Some(s),
{
    reveal_strlit("Working");
    reveal_strlit("Waiting");
    reveal_strlit("Done");
    assert(status_name(WorkmuxAgentStatus::Working) != status_name(WorkmuxAgentStatus::Waiting)) by {
        assert(status_name(WorkmuxAgentStatus::Working)[2] != status_name(WorkmuxAgentStatus::Waiting)[2]);
    }
    assert(status_name(WorkmuxAgentStatus::Working).len() != status_name(WorkmuxAgentStatus::Done).len());
    assert(status_name(WorkmuxAgentStatus::Waiting).len() != status_name(WorkmuxAgentStatus::Done).len());
}

impl WorkmuxAgentStatus {
    /// The external name of this status.
    pub fn name(&self) -> (r: String)
        ensures
            r@ == status_name(*self),
    {
        match self {
            WorkmuxAgentStatus::Working => String::from_str("Working"),
            WorkmuxAgentStatus::Waiting => String::from_str("Waiting"),
            WorkmuxAgentStatus::Done => String::from_str("Done"),
        }
    }

    /// Decodes an external name; `None` for a name of no status.
    pub fn from_name(s: &str) -> (r: Option<WorkmuxAgentStatus>)
        ensures
            r == status_from_name(s@),
    {
        let given = String::from_str(s);
        if given == WorkmuxAgentStatus::Working.name() {
            Some(WorkmuxAgentStatus::Working)
        } else if given == WorkmuxAgentStatus::Waiting.name() {
            Some(WorkmuxAgentStatus::Waiting)
        } else if given == WorkmuxAgentStatus::Done.name() {
            Some(WorkmuxAgentStatus::Done)
        } else {
            None
        }
    }
}

} // verus!
