use vstd::prelude::*;

verus! {

/// The terminal multiplexer that hosts the agents.
#[derive(Clone, Copy, Debug, PartialEq, Eq, Structural)]
pub enum WorkmuxBackend {
    Tmux,
    WezTerm,
    Kitty,
}

/// External name of each backend kind.
pub open spec fn backend_name(k: WorkmuxBackend) -> Seq<char> {
    match k {
        WorkmuxBackend::Tmux => seq!['T', 'm', 'u', 'x'],
        WorkmuxBackend::WezTerm => seq!['W', 'e', 'z', 'T', 'e', 'r', 'm'],
        WorkmuxBackend::Kitty => seq!['K', 'i', 't', 't', 'y'],
    }
}

/// The backend kind whose external name is `s`, if any.
pub open spec fn backend_from_name(s: Seq<char>) -> Option<WorkmuxBackend> {
    if s == backend_name(WorkmuxBackend::Tmux) {
        Some(WorkmuxBackend::Tmux)
    } else if s == backend_name(WorkmuxBackend::WezTerm) {
        Some(WorkmuxBackend::WezTerm)
    } else if s == backend_name(WorkmuxBackend::Kitty) {
        Some(WorkmuxBackend::Kitty)
    } else {
        None
    }
}

/// Encoding a backend kind and decoding the name gives the kind back.
pub proof fn lemma_backend_name_round_trip(k: WorkmuxBackend)
    ensures
        backend_from_name(backend_name(k)) == Some(k),
{
    let t = backend_name(WorkmuxBackend::Tmux);
    let w = backend_name(WorkmuxBackend::WezTerm);
    let c = backend_name(WorkmuxBackend::Kitty);
    assert(t.len() != w.len() && t.len() != c.len() && w.len() != c.len());
}

impl WorkmuxBackend {
    /// The external name of this backend kind.
    pub fn name(&self) -> (r: String)
        ensures
            r@ == backend_name(*self),
    {
        match self {
            WorkmuxBackend::Tmux => {
                let r = String::from_str("Tmux");
                proof {
                    reveal_strlit("Tmux");
                }
                assert(r@ =~= backend_name(*self));
                r
            },
            WorkmuxBackend::WezTerm => {
                let r = String::from_str("WezTerm");
                proof {
                    reveal_strlit("WezTerm");
                }
                assert(r@ =~= backend_name(*self));
                r
            },
            WorkmuxBackend::Kitty => {
                let r = String::from_str("Kitty");
                proof {
                    reveal_strlit("Kitty");
                }
                assert(r@ =~= backend_name(*self));
                r
            },
        }
    }

    /// Decodes an external name; `None` for a name of no backend kind.
    pub fn from_name(s: &str) -> (r: Option<WorkmuxBackend>)
        ensures
            r == backend_from_name(s@),
    {
        let given = String::from_str(s);
        let kinds = [WorkmuxBackend::Tmux, WorkmuxBackend::WezTerm, WorkmuxBackend::Kitty];
        let mut i: usize = 0;
        while i < 3
            invariant
                i <= 3,
                given@ == s@,
                kinds@ == seq![WorkmuxBackend::Tmux, WorkmuxBackend::WezTerm, WorkmuxBackend::Kitty],
                forall|j: int| 0 <= j < i ==> s@ != backend_name(#[trigger] kinds@[j]),
            decreases 3 - i,
        {
            let k = kinds[i];
            if given == k.name() {
                return Some(k);
            }
            i = i + 1;
        }
        None
    }
}

/// Which multiplexer-specific markers the calling process's environment holds.
#[derive(Clone, Copy, Debug, PartialEq, Eq, Structural)]
pub struct EnvMarkers {
    /// A tmux session variable is set.
    pub tmux: bool,
    /// A WezTerm pane variable is set.
    pub wezterm: bool,
    /// A kitty window variable is set.
    pub kitty: bool,
}

/// The backend kind that a set of markers selects; tmux where none is found.
pub open spec fn detected(env: EnvMarkers) -> WorkmuxBackend {
    if env.tmux {
        WorkmuxBackend::Tmux
    } else if env.wezterm {
        WorkmuxBackend::WezTerm
    } else if env.kitty {
        WorkmuxBackend::Kitty
    } else {
        WorkmuxBackend::Tmux
    }
}

/// Picks exactly one backend kind from the environment's markers.
pub fn detect_backend(env: EnvMarkers) -> (r: WorkmuxBackend)
    ensures
        r == detected(env),
{
    if env.tmux {
        WorkmuxBackend::Tmux
    } else if env.wezterm {
        WorkmuxBackend::WezTerm
    } else if env.kitty {
        WorkmuxBackend::Kitty
    } else {
        WorkmuxBackend::Tmux
    }
}

} // verus!
