//! Window manager service: which window manager runs, its workspaces, and
//! how applications are launched.
use vstd::prelude::*;
use crate::signal::{emitted, Signal, SignalHandler, without_id};
use crate::text::{
    chars_of, contains_text, has_sub, lowercase, push_chars, push_str, remove_all, remove_text,
    split_words, string_of, to_lower, trim_text, trimmed, words,
};

verus! {

/// The window managers this service tells apart.
#[derive(Debug, Clone, Copy, PartialEq, Eq, Structural)]
pub enum WMType {
    /// The Niri Wayland compositor.
    Niri,
    /// Any other window manager, or none.
    Unsupported,
}

/// Which window manager runs: Niri where its socket answers, where
/// `NIRI_SOCKET` is set, or where `XDG_CURRENT_DESKTOP` mentions niri in any
/// case; otherwise unsupported.
pub open spec fn detected_wm(socket_ok: bool, niri_socket_set: bool, desktop: Option<Seq<char>>) -> WMType {
    if socket_ok || niri_socket_set {
        WMType::Niri
    } else {
        match desktop {
            Some(d) => if has_sub(lowercase(d), "niri"@) {
                WMType::Niri
            } else {
                WMType::Unsupported
            },
            None => WMType::Unsupported,
        }
    }
}

/// Decides which window manager runs from what the environment shows.
pub fn detect_wm(socket_ok: bool, niri_socket_set: bool, desktop: Option<String>) -> (t: WMType)
    ensures
        t == detected_wm(socket_ok, niri_socket_set, crate::text::opt_text(desktop)),
{
    if socket_ok || niri_socket_set {
        return WMType::Niri;
    }
    match desktop {
        Some(d) => {
            let lower = to_lower(d.as_str());
            let l = chars_of(lower.as_str());
            let pat = chars_of("niri");
            if contains_text(l.as_slice(), pat.as_slice()) {
                WMType::Niri
            } else {
                WMType::Unsupported
            }
        },
        None => WMType::Unsupported,
    }
}

/// Information about a workspace.
#[derive(Debug, Clone, PartialEq)]
pub struct WorkspaceInfo {
    /// Workspace index.
    pub index: u8,
    /// Workspace name.
    pub name: String,
    /// Whether it is active on its output.
    pub is_active: bool,
    /// Whether it is focused.
    pub is_focused: bool,
    /// Whether it is marked urgent.
    pub is_urgent: bool,
    /// The output it belongs to.
    pub output_name: Option<String>,
}

/// A workspace as Niri reports it.
#[derive(Debug, Clone, PartialEq)]
pub struct NiriWorkspace {
    pub idx: u8,
    pub name: Option<String>,
    pub is_active: bool,
    pub is_focused: bool,
    pub output: Option<String>,
}

/// Whether a workspace passes an output filter.
pub open spec fn on_output(w: NiriWorkspace, filter: Option<Seq<char>>) -> bool {
    match filter {
        Some(f) => crate::text::opt_text(w.output) == Some(f),
        None => true,
    }
}

/// The workspaces that pass the filter, in order.
pub open spec fn filtered(ws: Seq<NiriWorkspace>, filter: Option<Seq<char>>) -> Seq<NiriWorkspace>
    decreases ws.len(),
{
    if ws.len() == 0 {
        ws
    } else if on_output(ws.last(), filter) {
        filtered(ws.drop_last(), filter).push(ws.last())
    } else {
        filtered(ws.drop_last(), filter)
    }
}

/// The information of a Niri workspace: its name, or its index written out;
/// never urgent.
pub open spec fn info_of(i: WorkspaceInfo, w: NiriWorkspace) -> bool {
    &&& i.index == w.idx
    &&& i.name@ == match w.name {
        Some(n) => n@,
        None => crate::text::decimal(w.idx as nat),
    }
    &&& i.is_active == w.is_active
    &&& i.is_focused == w.is_focused
    &&& !i.is_urgent
    &&& i.output_name == w.output
}

/// Field codes of desktop entries that a launch drops.
pub open spec fn clean_exec(s: Seq<char>) -> Seq<char> {
    remove_all(
        remove_all(
            remove_all(
                remove_all(remove_all(remove_all(remove_all(s, "%f"@), "%F"@), "%u"@), "%U"@),
                "%i"@,
            ),
            "%c"@,
        ),
        "%k"@,
    )
}

/// The command and arguments of an exec line: its words after the field
/// codes are dropped; an empty command where there is no word.
pub open spec fn exec_parts(exec: Seq<char>) -> (Seq<char>, Seq<Seq<char>>) {
    let w = words(clean_exec(exec));
    if w.len() == 0 {
        (Seq::empty(), Seq::empty())
    } else {
        (w[0], w.skip(1))
    }
}

/// The words joined with single spaces.
pub open spec fn space_join(ws: Seq<Seq<char>>) -> Seq<char>
    decreases ws.len(),
{
    if ws.len() == 0 {
        Seq::empty()
    } else if ws.len() == 1 {
        ws[0]
    } else {
        space_join(ws.drop_last()) + seq![' '] + ws.last()
    }
}

fn clean_exec_text(exec: &str) -> (r: Vec<char>)
    ensures
        r@ == clean_exec(exec@),
{
    let s0 = chars_of(exec);
    let p = chars_of("%f");
    proof {
        reveal_strlit("%f");
    }
    let s1 = remove_text(s0.as_slice(), p.as_slice());
    let p = chars_of("%F");
    proof {
        reveal_strlit("%F");
    }
    let s2 = remove_text(s1.as_slice(), p.as_slice());
    let p = chars_of("%u");
    proof {
        reveal_strlit("%u");
    }
    let s3 = remove_text(s2.as_slice(), p.as_slice());
    let p = chars_of("%U");
    proof {
        reveal_strlit("%U");
    }
    let s4 = remove_text(s3.as_slice(), p.as_slice());
    let p = chars_of("%i");
    proof {
        reveal_strlit("%i");
    }
    let s5 = remove_text(s4.as_slice(), p.as_slice());
    let p = chars_of("%c");
    proof {
        reveal_strlit("%c");
    }
    let s6 = remove_text(s5.as_slice(), p.as_slice());
    let p = chars_of("%k");
    proof {
        reveal_strlit("%k");
    }
    remove_text(s6.as_slice(), p.as_slice())
}

/// The command and arguments of an exec line.
pub fn parse_exec(exec: &str) -> (r: (String, Vec<String>))
    ensures
        r.0@ == exec_parts(exec@).0,
        r.1@.len() == exec_parts(exec@).1.len(),
        forall|k: int| 0 <= k < r.1@.len() ==> (#[trigger] r.1@[k])@ == exec_parts(exec@).1[k],
{
    let clean = clean_exec_text(exec);
    let ws = split_words(clean.as_slice());
    if ws.len() == 0 {
        return (String::new(), Vec::new());
    }
    let command = string_of(ws[0].as_slice());
    let mut args: Vec<String> = Vec::new();
    let mut k: usize = 1;
    while k < ws.len()
        invariant
            1 <= k <= ws@.len(),
            ws@.len() == words(clean@).len(),
            forall|i: int| 0 <= i < ws@.len() ==> #[trigger] ws@[i]@ == words(clean@)[i],
            args@.len() == k - 1,
            forall|i: int| 0 <= i < args@.len() ==> (#[trigger] args@[i])@ == words(clean@)[i + 1],
        decreases ws.len() - k,
    {
        args.push(string_of(ws[k].as_slice()));
        k = k + 1;
    }
    proof {
        assert(ws@[0]@ == words(clean@)[0]);
    }
    (command, args)
}

/// The shell command that Niri spawns for an exec line: the command and its
/// arguments joined with spaces. Terminal applications and empty commands
/// are refused.
pub fn niri_spawn_command(exec: &str, terminal: bool) -> (r: Result<String, String>)
    ensures
        terminal ==> (r matches Err(e) && e@ == "Terminal launch not supported via Niri IPC"@),
        !terminal && exec_parts(exec@).0.len() == 0 ==> (r matches Err(e) && e@ == "Empty command"@),
        !terminal && exec_parts(exec@).0.len() > 0 ==> (r matches Ok(c) && c@ == space_join(seq![exec_parts(exec@).0] + exec_parts(exec@).1)),
{
    if terminal {
        return Err("Terminal launch not supported via Niri IPC".to_string());
    }
    let (command, args) = parse_exec(exec);
    if command.as_str().unicode_len() == 0 {
        return Err("Empty command".to_string());
    }
    let ghost parts = seq![command@] + args@.map_values(|a: String| a@);
    let mut out = chars_of(command.as_str());
    let mut k: usize = 0;
    assert(parts.take(1) =~= seq![command@]);
    while k < args.len()
        invariant
            k <= args@.len(),
            parts == seq![command@] + args@.map_values(|a: String| a@),
            out@ == space_join(parts.take(k + 1)),
        decreases args.len() - k,
    {
        assert(parts.take(k + 2).drop_last() =~= parts.take(k + 1));
        assert(parts.take(k + 2).last() == args@[k as int]@);
        out.push(' ');
        push_str(args[k].as_str(), &mut out);
        k = k + 1;
    }
    proof {
        assert(parts.take(args@.len() + 1int) =~= parts);
        assert(parts =~= seq![exec_parts(exec@).0] + exec_parts(exec@).1);
    }
    Ok(string_of(out.as_slice()))
}

/// How Niri answered a request.
pub enum NiriReply {
    /// The request was handled.
    Handled,
    /// Some other response came.
    Unexpected,
    /// Niri refused the request with a message.
    Rejected(String),
    /// The request could not be sent.
    SendFailed(String),
}

/// The result of a spawn request from Niri's answer.
pub fn spawn_reply_result(reply: NiriReply) -> (r: Result<(), String>)
    ensures
        match reply {
            NiriReply::Handled => r is Ok,
            NiriReply::Unexpected => r matches Err(e) && e@ == "Unexpected response from Niri"@,
            NiriReply::Rejected(m) => r matches Err(e) && e@ == "Niri rejected spawn: "@ + m@,
            NiriReply::SendFailed(m) => r matches Err(e) && e@ == "Failed to send spawn request: "@ + m@,
        },
{
    match reply {
        NiriReply::Handled => Ok(()),
        NiriReply::Unexpected => Err("Unexpected response from Niri".to_string()),
        NiriReply::Rejected(m) => Err(prefixed("Niri rejected spawn: ", m.as_str())),
        NiriReply::SendFailed(m) => Err(prefixed("Failed to send spawn request: ", m.as_str())),
    }
}

/// The result of a workspace switch from Niri's answer.
pub fn switch_reply_result(reply: NiriReply) -> (r: Result<(), String>)
    ensures
        match reply {
            NiriReply::Handled => r is Ok,
            NiriReply::Unexpected => r matches Err(e) && e@ == "Unexpected response from Niri"@,
            NiriReply::Rejected(m) => r matches Err(e) && e@ == "Niri rejected workspace switch: "@ + m@,
            NiriReply::SendFailed(m) => r matches Err(e) && e@ == "Failed to send workspace switch request: "@ + m@,
        },
{
    match reply {
        NiriReply::Handled => Ok(()),
        NiriReply::Unexpected => Err("Unexpected response from Niri".to_string()),
        NiriReply::Rejected(m) => Err(prefixed("Niri rejected workspace switch: ", m.as_str())),
        NiriReply::SendFailed(m) => Err(prefixed("Failed to send workspace switch request: ", m.as_str())),
    }
}

/// `head` followed by `tail`.
pub fn prefixed(head: &str, tail: &str) -> (s: String)
    ensures
        s@ == head@ + tail@,
{
    let mut out = chars_of(head);
    push_str(tail, &mut out);
    string_of(out.as_slice())
}

/// What the workspace monitor does on an event of Niri's stream.
#[derive(Debug, Clone, Copy, PartialEq, Eq, Structural)]
pub enum NiriEvent {
    /// The workspaces changed; the event carries them.
    WorkspacesChanged,
    /// A workspace was activated.
    WorkspaceActivated,
    /// A workspace's active window changed.
    WorkspaceActiveWindowChanged,
    /// Any other event.
    Other,
    /// The stream failed.
    Failed,
}

/// What to do next.
#[derive(Debug, Clone, Copy, PartialEq, Eq, Structural)]
pub enum MonitorStep {
    /// Emit the workspaces that came with the event.
    EmitCarried,
    /// Ask Niri for the workspaces, then emit them.
    Requery,
    /// Wait for the next event.
    Ignore,
    /// Stop monitoring.
    Stop,
}

/// The monitor's decision for an event.
pub fn monitor_step(e: NiriEvent) -> (s: MonitorStep)
    ensures
        s == match e {
            NiriEvent::WorkspacesChanged => MonitorStep::EmitCarried,
            NiriEvent::WorkspaceActivated => MonitorStep::Requery,
            NiriEvent::WorkspaceActiveWindowChanged => MonitorStep::Requery,
            NiriEvent::Other => MonitorStep::Ignore,
            NiriEvent::Failed => MonitorStep::Stop,
        },
{
    match e {
        NiriEvent::WorkspacesChanged => MonitorStep::EmitCarried,
        NiriEvent::WorkspaceActivated => MonitorStep::Requery,
        NiriEvent::WorkspaceActiveWindowChanged => MonitorStep::Requery,
        NiriEvent::Other => MonitorStep::Ignore,
        NiriEvent::Failed => MonitorStep::Stop,
    }
}

/// The Niri window manager service.
pub struct NiriWMService;

impl NiriWMService {
    /// The workspaces that pass the output filter, as workspace information,
    /// in order.
    pub fn convert_workspaces(ws: Vec<NiriWorkspace>, output_filter: Option<String>) -> (r: Vec<WorkspaceInfo>)
        ensures
            r@.len() == filtered(ws@, crate::text::opt_text(output_filter)).len(),
            forall|k: int| 0 <= k < r@.len() ==> info_of(#[trigger] r@[k], filtered(ws@, crate::text::opt_text(output_filter))[k]),
    {
        let ghost f = crate::text::opt_text(output_filter);
        let mut out: Vec<WorkspaceInfo> = Vec::new();
        let mut i: usize = 0;
        while i < ws.len()
            invariant
                i <= ws@.len(),
                f == crate::text::opt_text(output_filter),
                out@.len() == filtered(ws@.take(i as int), f).len(),
                forall|k: int| 0 <= k < out@.len() ==> info_of(#[trigger] out@[k], filtered(ws@.take(i as int), f)[k]),
            decreases ws.len() - i,
        {
            let w = &ws[i];
            proof {
                assert(ws@.take(i + 1).drop_last() =~= ws@.take(i as int));
                assert(ws@.take(i + 1).last() == ws@[i as int]);
            }
            let keep = match &output_filter {
                Some(filter) => match &w.output {
                    Some(o) => crate::text::str_eq(o.as_str(), filter.as_str()),
                    None => false,
                },
                None => true,
            };
            if keep {
                let name = match &w.name {
                    Some(n) => n.clone(),
                    None => {
                        let mut d: Vec<char> = Vec::new();
                        crate::text::push_numeral(w.idx as u64, 10, &mut d);
                        string_of(d.as_slice())
                    },
                };
                let output_name = crate::calendar::event::clone_text(&w.output);
                out.push(WorkspaceInfo {
                    index: w.idx,
                    name,
                    is_active: w.is_active,
                    is_focused: w.is_focused,
                    is_urgent: false,
                    output_name,
                });
            }
            i = i + 1;
        }
        assert(ws@.take(ws@.len() as int) =~= ws@);
        out
    }
}

/// The terminal emulators tried, in order, where `TERMINAL` names none that
/// is installed.
pub open spec fn terminal_candidate_list() -> Seq<Seq<char>> {
    seq![
        "alacritty -e"@, "kitty -e"@, "wezterm start --"@, "foot -e"@, "rio -e"@, "ghostty -e"@,
        "gnome-terminal --"@, "tilix -e"@, "terminix -e"@, "mate-terminal -e"@,
        "xfce4-terminal -e"@, "lxterminal -e"@, "konsole -e"@, "yakuake -e"@, "qterminal -e"@,
        "termite -e"@, "urxvt -e"@, "rxvt -e"@, "st -e"@, "cool-retro-term -e"@,
        "weston-terminal -e"@, "havoc -e"@, "xterm -e"@, "uxterm -e"@, "terminator -e"@,
        "guake -e"@, "tilda -e"@,
    ]
}

/// The program of a command line: its first word, or the line itself where
/// it has none.
pub open spec fn program_of(t: Seq<char>) -> Seq<char> {
    if words(t).len() > 0 {
        words(t)[0]
    } else {
        t
    }
}

/// The index of the first installed candidate.
pub open spec fn first_available(avail: Seq<bool>, i: int) -> Option<int>
    decreases avail.len() - i,
{
    if i < 0 || i >= avail.len() {
        None
    } else if avail[i] {
        Some(i)
    } else {
        first_available(avail, i + 1)
    }
}

/// The candidate chosen from index `i` on is installed and comes before every
/// other installed one; none is chosen only where none from `i` on is
/// installed.
pub proof fn law_first_available_is_first(avail: Seq<bool>, i: int)
    requires
        0 <= i,
    ensures
        first_available(avail, i) matches Some(k) ==> {
            &&& i <= k < avail.len()
            &&& avail[k]
            &&& forall|j: int| i <= j < k ==> !#[trigger] avail[j]
        },
        first_available(avail, i) is None ==> forall|j: int| i <= j < avail.len() ==> !#[trigger] avail[j],
    decreases avail.len() - i,
{
    if i < avail.len() && !avail[i] {
        law_first_available_is_first(avail, i + 1);
    }
}

/// `TERMINAL` is set, not empty, and its program is installed.
pub open spec fn env_terminal_usable(terminal_env: Option<String>, env_available: bool) -> bool {
    terminal_env is Some && terminal_env.unwrap()@.len() > 0 && env_available
}

/// The fallback window manager service.
pub struct UnsupportedWMService;

impl UnsupportedWMService {
    pub fn new() -> (s: Self) {
        UnsupportedWMService
    }

    /// The terminal emulators tried, in order.
    pub fn terminal_candidates() -> (r: Vec<&'static str>)
        ensures
            r@.len() == terminal_candidate_list().len(),
            forall|k: int| 0 <= k < r@.len() ==> (#[trigger] r@[k])@ == terminal_candidate_list()[k],
    {
        let r: Vec<&'static str> = vec![
            "alacritty -e", "kitty -e", "wezterm start --", "foot -e", "rio -e", "ghostty -e",
            "gnome-terminal --", "tilix -e", "terminix -e", "mate-terminal -e",
            "xfce4-terminal -e", "lxterminal -e", "konsole -e", "yakuake -e", "qterminal -e",
            "termite -e", "urxvt -e", "rxvt -e", "st -e", "cool-retro-term -e",
            "weston-terminal -e", "havoc -e", "xterm -e", "uxterm -e", "terminator -e",
            "guake -e", "tilda -e",
        ];
        assert(r@ =~= seq![
            "alacritty -e", "kitty -e", "wezterm start --", "foot -e", "rio -e", "ghostty -e",
            "gnome-terminal --", "tilix -e", "terminix -e", "mate-terminal -e",
            "xfce4-terminal -e", "lxterminal -e", "konsole -e", "yakuake -e", "qterminal -e",
            "termite -e", "urxvt -e", "rxvt -e", "st -e", "cool-retro-term -e",
            "weston-terminal -e", "havoc -e", "xterm -e", "uxterm -e", "terminator -e",
            "guake -e", "tilda -e",
        ]);
        r
    }

    /// The program that a command line runs.
    pub fn command_name(t: &str) -> (r: String)
        ensures
            r@ == program_of(t@),
    {
        let c = chars_of(t);
        let ws = split_words(c.as_slice());
        if ws.len() > 0 {
            string_of(ws[0].as_slice())
        } else {
            t.to_string()
        }
    }

    /// The terminal emulator to launch with: `TERMINAL` followed by `-e`
    /// where it is set, not empty and its program is installed; otherwise the
    /// first installed candidate; otherwise `No terminal emulator found`.
    /// `env_available` tells whether `TERMINAL`'s program is installed,
    /// `available[k]` whether candidate `k`'s is.
    pub fn detect_terminal(terminal_env: Option<String>, env_available: bool, available: &Vec<bool>) -> (r: Result<String, String>)
        requires
            available@.len() == terminal_candidate_list().len(),
        ensures
            if env_terminal_usable(terminal_env, env_available) {
                r matches Ok(s) && s@ == terminal_env.unwrap()@ + " -e"@
            } else {
                match first_available(available@, 0) {
                    Some(k) => r matches Ok(s) && s@ == terminal_candidate_list()[k],
                    None => r matches Err(e) && e@ == "No terminal emulator found"@,
                }
            },
    {
        match &terminal_env {
            Some(t) => {
                if t.as_str().unicode_len() > 0 && env_available {
                    return Ok(prefixed(t.as_str(), " -e"));
                }
            },
            None => {},
        }
        let cands = Self::terminal_candidates();
        let mut k: usize = 0;
        while k < available.len()
            invariant
                k <= available@.len(),
                cands@.len() == available@.len(),
                forall|j: int| 0 <= j < cands@.len() ==> (#[trigger] cands@[j])@ == terminal_candidate_list()[j],
                first_available(available@, 0) == first_available(available@, k as int),
                !env_terminal_usable(terminal_env, env_available),
            decreases available.len() - k,
        {
            if available[k] {
                return Ok(cands[k].to_string());
            }
            k = k + 1;
        }
        Err("No terminal emulator found".to_string())
    }

    /// How the fallback service launches an exec line: in the terminal
    /// emulator through `sh -c` where one is wanted, else the program and its
    /// arguments directly. `emulator` is `None` for applications that need no
    /// terminal, else the result of looking for one.
    pub fn plan_launch(exec: &str, emulator: Option<Result<String, String>>) -> (r: Result<LaunchPlan, String>)
        ensures
            emulator is Some && emulator.unwrap() is Err ==> (r matches Err(x) && x@ == emulator.unwrap()->Err_0@),
            emulator is Some && emulator.unwrap() is Ok ==> (r matches Ok(LaunchPlan::Shell(s)) && s@ == emulator.unwrap()->Ok_0@ + " "@ + trimmed(clean_exec(exec@))),
            emulator is None && words(trimmed(clean_exec(exec@))).len() == 0 ==> (r matches Err(e) && e@ == "Empty exec command"@),
            emulator is None && words(trimmed(clean_exec(exec@))).len() > 0 ==> (r matches Ok(LaunchPlan::Program(p, args)) && p@ == words(trimmed(clean_exec(exec@)))[0]
                && args@.len() == words(trimmed(clean_exec(exec@))).len() - 1
                && forall|k: int| 0 <= k < args@.len() ==> (#[trigger] args@[k])@ == words(trimmed(clean_exec(exec@)))[k + 1]),
    {
        let clean = clean_exec_text(exec);
        let t = trim_text(clean.as_slice());
        match emulator {
            Some(Err(e)) => Err(e),
            Some(Ok(term)) => {
                let mut out = chars_of(term.as_str());
                out.push(' ');
                push_chars(t.as_slice(), &mut out);
                proof {
                    reveal_strlit(" ");
                    assert(out@ =~= term@ + " "@ + trimmed(clean_exec(exec@)));
                }
                Ok(LaunchPlan::Shell(string_of(out.as_slice())))
            },
            None => {
                let ws = split_words(t.as_slice());
                if ws.len() == 0 {
                    return Err("Empty exec command".to_string());
                }
                let program = string_of(ws[0].as_slice());
                let mut args: Vec<String> = Vec::new();
                let mut k: usize = 1;
                while k < ws.len()
                    invariant
                        1 <= k <= ws@.len(),
                        ws@.len() == words(t@).len(),
                        forall|i: int| 0 <= i < ws@.len() ==> #[trigger] ws@[i]@ == words(t@)[i],
                        args@.len() == k - 1,
                        forall|i: int| 0 <= i < args@.len() ==> (#[trigger] args@[i])@ == words(t@)[i + 1],
                    decreases ws.len() - k,
                {
                    args.push(string_of(ws[k].as_slice()));
                    k = k + 1;
                }
                proof {
                    assert(ws@[0]@ == words(t@)[0]);
                }
                Ok(LaunchPlan::Program(program, args))
            },
        }
    }

    /// Workspace switching is not available.
    pub fn switch_to_workspace(&self, _index: u8) -> (r: Result<(), String>)
        ensures
            r matches Err(e) && e@ == "Workspace switching not supported"@,
    {
        Err("Workspace switching not supported".to_string())
    }

    /// No workspace is known.
    pub fn get_current_workspaces(&self, _output_name: Option<String>) -> (r: Vec<WorkspaceInfo>)
        ensures
            r@.len() == 0,
    {
        Vec::new()
    }
}

/// How to launch an application.
pub enum LaunchPlan {
    /// Run this line with `sh -c`.
    Shell(String),
    /// Run this program with these arguments.
    Program(String, Vec<String>),
}

/// The window manager service: the detected window manager, the last
/// workspaces it reported, and the signal that announces them.
pub struct WMService {
    wm_type: WMType,
    workspaces: Vec<WorkspaceInfo>,
    workspaces_changed: Signal<Vec<WorkspaceInfo>>,
}

impl WMService {
    pub closed spec fn spec_wm_type(&self) -> WMType {
        self.wm_type
    }

    /// The last workspaces reported.
    pub closed spec fn cached(&self) -> Seq<WorkspaceInfo> {
        self.workspaces@
    }

    pub closed spec fn changed_signal(&self) -> Signal<Vec<WorkspaceInfo>> {
        self.workspaces_changed
    }

    /// A service for the detected window manager, with no workspace yet.
    pub fn new(wm_type: WMType) -> (s: Self)
        ensures
            s.spec_wm_type() == wm_type,
            s.cached().len() == 0,
            s.changed_signal().ids() == Seq::<u64>::empty(),
            s.changed_signal().next_id() == 0,
            s.changed_signal().emissions().len() == 0,
    {
        WMService { wm_type, workspaces: Vec::new(), workspaces_changed: Signal::new() }
    }

    /// The detected window manager.
    pub fn wm_type(&self) -> (t: WMType)
        ensures
            t == self.spec_wm_type(),
    {
        self.wm_type
    }

    /// Connects a handler called with the workspaces whenever they change.
    pub fn connect_workspaces_changed<F: Fn(Vec<WorkspaceInfo>) + Send + 'static>(&mut self, callback: F) -> (h: SignalHandler)
        requires
            old(self).changed_signal().next_id() < u64::MAX,
            forall|v: Vec<WorkspaceInfo>| call_requires(callback, (v,)),
        ensures
            h.spec_id() == old(self).changed_signal().next_id(),
            final(self).changed_signal().ids() == old(self).changed_signal().ids().push(h.spec_id()),
            final(self).changed_signal().next_id() == old(self).changed_signal().next_id() + 1,
            final(self).changed_signal().emissions() == old(self).changed_signal().emissions(),
            final(self).spec_wm_type() == old(self).spec_wm_type(),
            final(self).cached() == old(self).cached(),
    {
        self.workspaces_changed.connect(callback)
    }

    /// Disconnects a workspace handler.
    pub fn disconnect_workspaces_changed(&mut self, handler: SignalHandler)
        ensures
            final(self).changed_signal().ids() == without_id(old(self).changed_signal().ids(), handler.spec_id()),
            final(self).spec_wm_type() == old(self).spec_wm_type(),
            final(self).cached() == old(self).cached(),
    {
        self.workspaces_changed.disconnect(handler);
    }

    /// Niri reported its workspaces: those on the output being followed
    /// (all of them where `output_filter` is `None`) are cached and emitted
    /// once to the connected handlers.
    pub fn workspaces_reported(&mut self, ws: Vec<NiriWorkspace>, output_filter: Option<String>)
        ensures
            final(self).cached().len() == filtered(ws@, crate::text::opt_text(output_filter)).len(),
            forall|k: int| 0 <= k < final(self).cached().len() ==> info_of(
                #[trigger] final(self).cached()[k],
                filtered(ws@, crate::text::opt_text(output_filter))[k],
            ),
            exists|v: Vec<WorkspaceInfo>|
                v@ == final(self).cached() && #[trigger] emitted(old(self).changed_signal(), final(self).changed_signal(), v),
            final(self).spec_wm_type() == old(self).spec_wm_type(),
    {
        let converted = NiriWMService::convert_workspaces(ws, output_filter);
        let copy = copy_workspaces(&converted);
        let ghost g = copy;
        self.workspaces = converted;
        self.workspaces_changed.emit_sync(copy);
        assert(emitted(old(self).changed_signal(), self.changed_signal(), g));
    }

    /// The last workspaces reported.
    pub fn get_workspaces(&self) -> (r: &Vec<WorkspaceInfo>)
        ensures
            r@ == self.cached(),
    {
        &self.workspaces
    }
}

/// A copy of a workspace.
pub fn copy_workspace(w: &WorkspaceInfo) -> (r: WorkspaceInfo)
    ensures
        r == *w,
{
    WorkspaceInfo {
        index: w.index,
        name: w.name.clone(),
        is_active: w.is_active,
        is_focused: w.is_focused,
        is_urgent: w.is_urgent,
        output_name: crate::calendar::event::clone_text(&w.output_name),
    }
}

/// A copy of a list of workspaces.
pub fn copy_workspaces(ws: &Vec<WorkspaceInfo>) -> (r: Vec<WorkspaceInfo>)
    ensures
        r@ == ws@,
{
    let mut out: Vec<WorkspaceInfo> = Vec::new();
    let mut i: usize = 0;
    while i < ws.len()
        invariant
            i <= ws@.len(),
            out@ == ws@.take(i as int),
        decreases ws.len() - i,
    {
        out.push(copy_workspace(&ws[i]));
        assert(ws@.take(i + 1) =~= ws@.take(i as int).push(ws@[i as int]));
        i = i + 1;
    }
    assert(ws@.take(ws@.len() as int) =~= ws@);
    out
}

} // verus!
