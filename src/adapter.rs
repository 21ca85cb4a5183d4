use vstd::prelude::*;
use crate::backend::WorkmuxBackend;

verus! {

/// The words of a command line, as values.
pub open spec fn words(v: Seq<String>) -> Seq<Seq<char>> {
    v.map_values(|s: String| s@)
}

fn push_word(v: &mut Vec<String>, s: &str)
    ensures
        words(final(v)@) == words(old(v)@).push(s@),
{
    let ghost before = v@;
    v.push(String::from_str(s));
    assert(words(v@) =~= words(before).push(s@)) by {
        assert forall|j: int| 0 <= j < before.len() implies #[trigger] words(v@)[j] == words(before)[j] by {
            assert(v@[j] == before[j]);
        }
    }
}

/// The program that speaks each backend's control protocol.
pub open spec fn program(b: WorkmuxBackend) -> Seq<char> {
    match b {
        WorkmuxBackend::Tmux => "tmux"@,
        WorkmuxBackend::WezTerm => "wezterm"@,
        WorkmuxBackend::Kitty => "kitten"@,
    }
}

/// The words that open each backend's control command.
pub open spec fn command_head(b: WorkmuxBackend) -> Seq<Seq<char>> {
    match b {
        WorkmuxBackend::Tmux => seq!["tmux"@],
        WorkmuxBackend::WezTerm => seq!["wezterm"@, "cli"@],
        WorkmuxBackend::Kitty => seq!["kitten"@, "@"@],
    }
}

fn head(b: WorkmuxBackend) -> (r: Vec<String>)
    ensures
        words(r@) == command_head(b),
{
    let mut v: Vec<String> = Vec::new();
    assert(words(v@) =~= Seq::<Seq<char>>::empty());
    match b {
        WorkmuxBackend::Tmux => {
            push_word(&mut v, "tmux");
            assert(words(v@) =~= command_head(b));
        },
        WorkmuxBackend::WezTerm => {
            push_word(&mut v, "wezterm");
            push_word(&mut v, "cli");
            assert(words(v@) =~= command_head(b));
        },
        WorkmuxBackend::Kitty => {
            push_word(&mut v, "kitten");
            push_word(&mut v, "@");
            assert(words(v@) =~= command_head(b));
        },
    }
    v
}

/// The command that asks whether the server answers.
pub open spec fn liveness_argv(b: WorkmuxBackend) -> Seq<Seq<char>> {
    command_head(b) + match b {
        WorkmuxBackend::Tmux => seq!["has-session"@],
        WorkmuxBackend::WezTerm => seq!["list"@],
        WorkmuxBackend::Kitty => seq!["ls"@],
    }
}

/// Command line that probes the server.
pub fn liveness_command(b: WorkmuxBackend) -> (r: Vec<String>)
    ensures
        words(r@) == liveness_argv(b),
{
    let mut v = head(b);
    match b {
        WorkmuxBackend::Tmux => push_word(&mut v, "has-session"),
        WorkmuxBackend::WezTerm => push_word(&mut v, "list"),
        WorkmuxBackend::Kitty => push_word(&mut v, "ls"),
    }
    assert(words(v@) =~= liveness_argv(b));
    v
}

/// The command that creates a window named `full` in `cwd` and prints the new
/// pane's identity; tmux also places it after `after`, where given.
pub open spec fn create_argv(
    b: WorkmuxBackend,
    full: Seq<char>,
    cwd: Seq<char>,
    after: Option<Seq<char>>,
) -> Seq<Seq<char>> {
    command_head(b) + match b {
        WorkmuxBackend::Tmux => seq![
            "new-window"@, "-d"@, "-P"@, "-F"@, "#{pane_id}"@, "-n"@, full, "-c"@, cwd,
        ] + match after {
            Some(a) => seq!["-a"@, "-t"@, a],
            None => Seq::empty(),
        },
        WorkmuxBackend::WezTerm => seq!["spawn"@, "--new-window"@, "--cwd"@, cwd],
        WorkmuxBackend::Kitty => seq!["launch"@, "--type=tab"@, "--tab-title"@, full, "--cwd"@, cwd],
    }
}

/// Command line that creates a window.
pub fn create_command(b: WorkmuxBackend, full: &str, cwd: &str, after: &Option<String>) -> (r: Vec<String>)
    ensures
        words(r@) == create_argv(b, full@, cwd@, match after {
            Some(a) => Some(a@),
            None => None,
        }),
{
    let mut v = head(b);
    match b {
        WorkmuxBackend::Tmux => {
            push_word(&mut v, "new-window");
            push_word(&mut v, "-d");
            push_word(&mut v, "-P");
            push_word(&mut v, "-F");
            push_word(&mut v, "#{pane_id}");
            push_word(&mut v, "-n");
            push_word(&mut v, full);
            push_word(&mut v, "-c");
            push_word(&mut v, cwd);
            match after {
                Some(a) => {
                    push_word(&mut v, "-a");
                    push_word(&mut v, "-t");
                    push_word(&mut v, a.as_str());
                },
                None => {},
            }
        },
        WorkmuxBackend::WezTerm => {
            push_word(&mut v, "spawn");
            push_word(&mut v, "--new-window");
            push_word(&mut v, "--cwd");
            push_word(&mut v, cwd);
        },
        WorkmuxBackend::Kitty => {
            push_word(&mut v, "launch");
            push_word(&mut v, "--type=tab");
            push_word(&mut v, "--tab-title");
            push_word(&mut v, full);
            push_word(&mut v, "--cwd");
            push_word(&mut v, cwd);
        },
    }
    assert(words(v@) =~= create_argv(b, full@, cwd@, match after {
        Some(a) => Some(a@),
        None => None,
    }));
    v
}

/// WezTerm names a window once it exists; the others name it on creation.
pub open spec fn rename_argv(b: WorkmuxBackend, pane: Seq<char>, full: Seq<char>) -> Option<Seq<Seq<char>>> {
    match b {
        WorkmuxBackend::WezTerm => Some(command_head(b) + seq!["set-tab-title"@, "--pane-id"@, pane, full]),
        _ => None,
    }
}

/// Command line that names a newly created window, where the backend needs one.
pub fn rename_command(b: WorkmuxBackend, pane: &str, full: &str) -> (r: Option<Vec<String>>)
    ensures
        match rename_argv(b, pane@, full@) {
            Some(a) => r is Some && words(r->0@) == a,
            None => r is None,
        },
{
    match b {
        WorkmuxBackend::WezTerm => {
            let mut v = head(b);
            push_word(&mut v, "set-tab-title");
            push_word(&mut v, "--pane-id");
            push_word(&mut v, pane);
            push_word(&mut v, full);
            assert(words(v@) =~= rename_argv(b, pane@, full@)->0);
            Some(v)
        },
        _ => None,
    }
}

/// How kitty selects a window by its identity.
pub open spec fn kitty_match(pane: Seq<char>) -> Seq<char> {
    "id:"@ + pane
}

/// The commands that type `text` into a pane and submit it: tmux sends the
/// text literally, then Enter; the others send the text with a carriage return.
pub open spec fn send_keys_argvs(b: WorkmuxBackend, pane: Seq<char>, text: Seq<char>) -> Seq<Seq<Seq<char>>> {
    match b {
        WorkmuxBackend::Tmux => seq![
            command_head(b) + seq!["send-keys"@, "-t"@, pane, "-l"@, text],
            command_head(b) + seq!["send-keys"@, "-t"@, pane, "Enter"@],
        ],
        WorkmuxBackend::WezTerm => seq![
            command_head(b) + seq!["send-text"@, "--pane-id"@, pane, "--no-paste"@, text + "\r"@],
        ],
        WorkmuxBackend::Kitty => seq![
            command_head(b) + seq!["send-text"@, "--match"@, kitty_match(pane), text + "\r"@],
        ],
    }
}

pub open spec fn argvs_view(v: Seq<Vec<String>>) -> Seq<Seq<Seq<char>>> {
    v.map_values(|c: Vec<String>| words(c@))
}

/// Command lines that inject keys and submit them.
pub fn send_keys_commands(b: WorkmuxBackend, pane: &str, text: &str) -> (r: Vec<Vec<String>>)
    ensures
        argvs_view(r@) == send_keys_argvs(b, pane@, text@),
{
    let mut out: Vec<Vec<String>> = Vec::new();
    match b {
        WorkmuxBackend::Tmux => {
            let mut first = head(b);
            push_word(&mut first, "send-keys");
            push_word(&mut first, "-t");
            push_word(&mut first, pane);
            push_word(&mut first, "-l");
            push_word(&mut first, text);
            let mut second = head(b);
            push_word(&mut second, "send-keys");
            push_word(&mut second, "-t");
            push_word(&mut second, pane);
            push_word(&mut second, "Enter");
            assert(words(first@) =~= send_keys_argvs(b, pane@, text@)[0]);
            assert(words(second@) =~= send_keys_argvs(b, pane@, text@)[1]);
            let ghost f = words(first@);
            let ghost g = words(second@);
            out.push(first);
            out.push(second);
            assert(argvs_view(out@) =~= seq![f, g]);
        },
        WorkmuxBackend::WezTerm => {
            let typed = String::from_str(text).concat("\r");
            let mut c = head(b);
            push_word(&mut c, "send-text");
            push_word(&mut c, "--pane-id");
            push_word(&mut c, pane);
            push_word(&mut c, "--no-paste");
            push_word(&mut c, typed.as_str());
            assert(words(c@) =~= send_keys_argvs(b, pane@, text@)[0]);
            let ghost f = words(c@);
            out.push(c);
            assert(argvs_view(out@) =~= seq![f]);
        },
        WorkmuxBackend::Kitty => {
            let typed = String::from_str(text).concat("\r");
            let target = String::from_str("id:").concat(pane);
            let mut c = head(b);
            push_word(&mut c, "send-text");
            push_word(&mut c, "--match");
            push_word(&mut c, target.as_str());
            push_word(&mut c, typed.as_str());
            assert(words(c@) =~= send_keys_argvs(b, pane@, text@)[0]);
            let ghost f = words(c@);
            out.push(c);
            assert(argvs_view(out@) =~= seq![f]);
        },
    }
    assert(argvs_view(out@) =~= send_keys_argvs(b, pane@, text@));
    out
}

/// The command that prints a pane's scrollback and visible text.
pub open spec fn capture_argv(b: WorkmuxBackend, pane: Seq<char>) -> Seq<Seq<char>> {
    command_head(b) + match b {
        WorkmuxBackend::Tmux => seq!["capture-pane"@, "-p"@, "-J"@, "-S"@, "-"@, "-t"@, pane],
        WorkmuxBackend::WezTerm => seq!["get-text"@, "--pane-id"@, pane],
        WorkmuxBackend::Kitty => seq!["get-text"@, "--match"@, kitty_match(pane), "--extent"@, "all"@],
    }
}

/// Command line that captures a pane's text.
pub fn capture_command(b: WorkmuxBackend, pane: &str) -> (r: Vec<String>)
    ensures
        words(r@) == capture_argv(b, pane@),
{
    let mut v = head(b);
    match b {
        WorkmuxBackend::Tmux => {
            push_word(&mut v, "capture-pane");
            push_word(&mut v, "-p");
            push_word(&mut v, "-J");
            push_word(&mut v, "-S");
            push_word(&mut v, "-");
            push_word(&mut v, "-t");
            push_word(&mut v, pane);
        },
        WorkmuxBackend::WezTerm => {
            push_word(&mut v, "get-text");
            push_word(&mut v, "--pane-id");
            push_word(&mut v, pane);
        },
        WorkmuxBackend::Kitty => {
            let target = String::from_str("id:").concat(pane);
            push_word(&mut v, "get-text");
            push_word(&mut v, "--match");
            push_word(&mut v, target.as_str());
            push_word(&mut v, "--extent");
            push_word(&mut v, "all");
        },
    }
    assert(words(v@) =~= capture_argv(b, pane@));
    v
}

/// What to do with an existing window.
#[derive(Clone, Copy, Debug, PartialEq, Eq, Structural)]
pub enum WindowAction {
    Select,
    Kill,
}

/// The command that focuses or closes a window. tmux and kitty address it by
/// its full name; WezTerm by the identity of its pane.
pub open spec fn window_argv(b: WorkmuxBackend, action: WindowAction, target: Seq<char>) -> Seq<Seq<char>> {
    command_head(b) + match (b, action) {
        (WorkmuxBackend::Tmux, WindowAction::Select) => seq!["select-window"@, "-t"@, "="@ + target],
        (WorkmuxBackend::Tmux, WindowAction::Kill) => seq!["kill-window"@, "-t"@, "="@ + target],
        (WorkmuxBackend::WezTerm, WindowAction::Select) => seq!["activate-pane"@, "--pane-id"@, target],
        (WorkmuxBackend::WezTerm, WindowAction::Kill) => seq!["kill-pane"@, "--pane-id"@, target],
        (WorkmuxBackend::Kitty, WindowAction::Select) => seq!["focus-tab"@, "--match"@, "title:"@ + target],
        (WorkmuxBackend::Kitty, WindowAction::Kill) => seq!["close-tab"@, "--match"@, "title:"@ + target],
    }
}

/// Command line that focuses or closes a window.
pub fn window_command(b: WorkmuxBackend, action: WindowAction, target: &str) -> (r: Vec<String>)
    ensures
        words(r@) == window_argv(b, action, target@),
{
    let mut v = head(b);
    match b {
        WorkmuxBackend::Tmux => {
            let t = String::from_str("=").concat(target);
            match action {
                WindowAction::Select => push_word(&mut v, "select-window"),
                WindowAction::Kill => push_word(&mut v, "kill-window"),
            }
            push_word(&mut v, "-t");
            push_word(&mut v, t.as_str());
        },
        WorkmuxBackend::WezTerm => {
            match action {
                WindowAction::Select => push_word(&mut v, "activate-pane"),
                WindowAction::Kill => push_word(&mut v, "kill-pane"),
            }
            push_word(&mut v, "--pane-id");
            push_word(&mut v, target);
        },
        WorkmuxBackend::Kitty => {
            let t = String::from_str("title:").concat(target);
            match action {
                WindowAction::Select => push_word(&mut v, "focus-tab"),
                WindowAction::Kill => push_word(&mut v, "close-tab"),
            }
            push_word(&mut v, "--match");
            push_word(&mut v, t.as_str());
        },
    }
    assert(words(v@) =~= window_argv(b, action, target@));
    v
}

/// The command that lists windows: tmux prints one name per line, the others
/// print their layout as JSON.
pub open spec fn list_argv(b: WorkmuxBackend) -> Seq<Seq<char>> {
    command_head(b) + match b {
        WorkmuxBackend::Tmux => seq!["list-windows"@, "-a"@, "-F"@, "#{window_name}"@],
        WorkmuxBackend::WezTerm => seq!["list"@, "--format"@, "json"@],
        WorkmuxBackend::Kitty => seq!["ls"@],
    }
}

/// Command line that lists the open windows.
pub fn list_command(b: WorkmuxBackend) -> (r: Vec<String>)
    ensures
        words(r@) == list_argv(b),
{
    let mut v = head(b);
    match b {
        WorkmuxBackend::Tmux => {
            push_word(&mut v, "list-windows");
            push_word(&mut v, "-a");
            push_word(&mut v, "-F");
            push_word(&mut v, "#{window_name}");
        },
        WorkmuxBackend::WezTerm => {
            push_word(&mut v, "list");
            push_word(&mut v, "--format");
            push_word(&mut v, "json");
        },
        WorkmuxBackend::Kitty => {
            push_word(&mut v, "ls");
        },
    }
    assert(words(v@) =~= list_argv(b));
    v
}

/// Number of line breaks in a text.
pub open spec fn breaks(t: Seq<char>) -> nat
    decreases t.len(),
{
    if t.len() == 0 {
        0
    } else {
        (if t[0] == '\n' { 1nat } else { 0nat }) + breaks(t.drop_first())
    }
}

/// `r` is the longest suffix of `t` that spans at most `max` lines, that is,
/// holds fewer than `max` line breaks.
pub open spec fn is_tail(t: Seq<char>, max: nat, r: Seq<char>) -> bool {
    if max == 0 {
        r.len() == 0
    } else {
        exists|k: int| {
            &&& 0 <= k <= t.len()
            &&& r == #[trigger] t.subrange(k, t.len() as int)
            &&& breaks(r) < max
            &&& (k == 0 || breaks(t.subrange(k - 1, t.len() as int)) == max)
        }
    }
}

/// The last `max` lines of a captured text.
pub fn tail_lines(text: &str, max: u16) -> (r: String)
    ensures
        is_tail(text@, max as nat, r@),
{
    let n = text.unicode_len();
    if max == 0 {
        return String::new();
    }
    let mut k: usize = n;
    let mut seen: u16 = 0;
    while k > 0
        invariant
            n == text@.len(),
            0 < max,
            k <= n,
            seen < max,
            breaks(text@.subrange(k as int, n as int)) == seen,
        decreases k,
    {
        let c = text.get_char(k - 1);
        assert(text@.subrange(k - 1, n as int).drop_first() =~= text@.subrange(k as int, n as int));
        if c == '\n' {
            if seen + 1 == max {
                let r = text.substring_char(k, n);
                let owned = r.to_owned();
                assert(owned@ == text@.subrange(k as int, n as int));
                return owned;
            }
            seen = seen + 1;
        }
        k = k - 1;
    }
    let owned = text.to_owned();
    assert(owned@ == text@.subrange(0, n as int));
    owned
}

/// Splits `t` at its line breaks, with `cur` the line begun so far and `acc`
/// the lines already complete.
pub open spec fn split_from(t: Seq<char>, cur: Seq<char>, acc: Seq<Seq<char>>) -> Seq<Seq<char>>
    decreases t.len(),
{
    if t.len() == 0 {
        acc.push(cur)
    } else if t[0] == '\n' {
        split_from(t.drop_first(), Seq::empty(), acc.push(cur))
    } else {
        split_from(t.drop_first(), cur.push(t[0]), acc)
    }
}

/// The lines of a text: the pieces between its line breaks.
pub open spec fn lines_of(t: Seq<char>) -> Seq<Seq<char>> {
    split_from(t, Seq::empty(), Seq::empty())
}

/// Splits command output into its lines.
pub fn split_lines(text: &str) -> (r: Vec<String>)
    ensures
        words(r@) == lines_of(text@),
{
    let n = text.unicode_len();
    let mut acc: Vec<String> = Vec::new();
    let mut start: usize = 0;
    let mut i: usize = 0;
    assert(text@.subrange(0, n as int) =~= text@);
    assert(text@.subrange(0, 0) =~= Seq::<char>::empty());
    assert(words(acc@) =~= Seq::<Seq<char>>::empty());
    while i < n
        invariant
            n == text@.len(),
            start <= i <= n,
            split_from(text@.subrange(i as int, n as int), text@.subrange(start as int, i as int), words(acc@))
                == lines_of(text@),
        decreases n - i,
    {
        let c = text.get_char(i);
        assert(text@.subrange(i as int, n as int).drop_first() =~= text@.subrange(i + 1, n as int));
        if c == '\n' {
            let line = text.substring_char(start, i).to_owned();
            let ghost before = words(acc@);
            acc.push(line);
            assert(words(acc@) =~= before.push(text@.subrange(start as int, i as int))) by {
                assert forall|j: int| 0 <= j < before.len() implies #[trigger] words(acc@)[j] == before[j] by {}
            }
            start = i + 1;
            assert(text@.subrange(start as int, i + 1) =~= Seq::<char>::empty());
        } else {
            assert(text@.subrange(start as int, i + 1) =~= text@.subrange(start as int, i as int).push(c));
        }
        i = i + 1;
    }
    let last = text.substring_char(start, n).to_owned();
    let ghost before = words(acc@);
    acc.push(last);
    assert(words(acc@) =~= before.push(text@.subrange(start as int, n as int))) by {
        assert forall|j: int| 0 <= j < before.len() implies #[trigger] words(acc@)[j] == before[j] by {}
    }
    acc
}

/// The command that shows `icon` in a pane's window status, or removes the
/// indicator for `None`. Only tmux keeps such an indicator; the other
/// backends show the status on the dashboard alone.
pub open spec fn status_argv(b: WorkmuxBackend, pane: Seq<char>, icon: Option<Seq<char>>) -> Option<Seq<Seq<char>>> {
    match b {
        WorkmuxBackend::Tmux => Some(command_head(b) + match icon {
            Some(i) => seq!["set-option"@, "-w"@, "-t"@, pane, "@workmux_status"@, i],
            None => seq!["set-option"@, "-w"@, "-u"@, "-t"@, pane, "@workmux_status"@],
        }),
        _ => None,
    }
}

/// Command line that sets or clears a pane's status indicator, where the
/// backend has one.
pub fn status_command(b: WorkmuxBackend, pane: &str, icon: Option<&str>) -> (r: Option<Vec<String>>)
    ensures
        match status_argv(b, pane@, match icon {
            Some(i) => Some(i@),
            None => None,
        }) {
            Some(a) => r is Some && words(r->0@) == a,
            None => r is None,
        },
{
    match b {
        WorkmuxBackend::Tmux => {
            let mut v = head(b);
            push_word(&mut v, "set-option");
            push_word(&mut v, "-w");
            match icon {
                Some(i) => {
                    push_word(&mut v, "-t");
                    push_word(&mut v, pane);
                    push_word(&mut v, "@workmux_status");
                    push_word(&mut v, i);
                },
                None => {
                    push_word(&mut v, "-u");
                    push_word(&mut v, "-t");
                    push_word(&mut v, pane);
                    push_word(&mut v, "@workmux_status");
                },
            }
            assert(words(v@) =~= status_argv(b, pane@, match icon {
                Some(i) => Some(i@),
                None => None,
            })->0);
            Some(v)
        },
        _ => None,
    }
}

} // verus!
