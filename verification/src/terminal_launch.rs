//! How a terminal is started and shown: the program it runs, its address,
//! the shell and theme it takes from the settings, and the page a new stack
//! starts on.
use crate::decimal::{decimal_chars, push_decimal_str};
use crate::sorting::names_view;
use crate::text::{chars_of, contains_text, str_eq, text_contains};
use std::collections::HashMap;
use vstd::std_specs::iter::IteratorSpec;
use vstd::prelude::*;
use vstd::string::*;

verus! {

/// The coding agents a terminal can host.
#[derive(Clone, Copy, Debug, PartialEq, Eq, Structural)]
pub enum AgentKind {
    Vibe,
    Claude,
    Codex,
}

/// What a terminal runs: a plain shell or one of the agents.
#[derive(Clone, Copy, Debug, PartialEq, Eq, Structural)]
pub enum TerminalKind {
    Plain,
    Vibe,
    Claude,
    Codex,
}

/// The terminal kind that hosts an agent.
pub open spec fn kind_of_agent(kind: AgentKind) -> TerminalKind {
    match kind {
        AgentKind::Vibe => TerminalKind::Vibe,
        AgentKind::Claude => TerminalKind::Claude,
        AgentKind::Codex => TerminalKind::Codex,
    }
}

impl From<AgentKind> for TerminalKind {
    fn from(kind: AgentKind) -> (r: Self) {
        match kind {
            AgentKind::Vibe => TerminalKind::Vibe,
            AgentKind::Claude => TerminalKind::Claude,
            AgentKind::Codex => TerminalKind::Codex,
        }
    }
}

impl vstd::std_specs::convert::FromSpecImpl<AgentKind> for TerminalKind {
    open spec fn obeys_from_spec() -> bool {
        true
    }

    open spec fn from_spec(kind: AgentKind) -> Self {
        kind_of_agent(kind)
    }
}

/// How a terminal's process is started.
#[derive(Clone, Debug)]
pub struct TerminalLaunch {
    pub command: String,
    pub args: Vec<String>,
    pub cwd: String,
    pub env: Vec<(String, String)>,
    pub kind: TerminalKind,
}

/// The launch that replaces an agent once it exits: the user's shell in the
/// same directory, with no arguments and no extra environment.
pub fn plain_shell_launch(shell: &str, cwd: String) -> (l: TerminalLaunch)
    ensures
        l.command@ == shell@,
        l.args@.len() == 0,
        l.cwd@ == cwd@,
        l.env@.len() == 0,
        l.kind == TerminalKind::Plain,
{
    TerminalLaunch {
        command: shell.to_owned(),
        args: Vec::new(),
        cwd,
        env: Vec::new(),
        kind: TerminalKind::Plain,
    }
}

/// The address under which terminal pages are served.
pub open spec fn terminal_url_base() -> Seq<char> {
    "vmux://terminal/"@
}

/// A terminal's address: the base followed by its process id, or the base
/// alone while it has none.
pub open spec fn spec_terminal_url(pid: Option<u32>) -> Seq<char> {
    match pid {
        Some(p) => terminal_url_base() + decimal_chars(p as nat),
        None => terminal_url_base(),
    }
}

/// A terminal's address (see `spec_terminal_url`).
pub fn terminal_url(pid: Option<u32>) -> (u: String)
    ensures
        u@ == spec_terminal_url(pid),
{
    let mut u = "vmux://terminal/".to_owned();
    proof {
        reveal_strlit("vmux://terminal/");
    }
    match pid {
        Some(p) => {
            push_decimal_str(&mut u, p as u64);
        },
        None => {},
    }
    u
}

/// The address a terminal's page is given when its process id changes:
/// `None` when the page already shows it.
pub fn terminal_url_update(current: &str, pid: Option<u32>) -> (r: Option<String>)
    ensures
        r is None <==> current@ == spec_terminal_url(pid),
        r matches Some(u) ==> u@ == spec_terminal_url(pid),
{
    let next = terminal_url(pid);
    if str_eq(current, next.as_str()) {
        None
    } else {
        Some(next)
    }
}

/// The page a new stack opens when the settings name none: the Vibe agent.
pub open spec fn default_startup_url() -> Seq<char> {
    "vmux://agent/vibe/"@
}

/// The page a new stack opens: the one the settings name, else the Vibe agent.
pub fn resolve_startup_url(startup_url: Option<String>) -> (u: String)
    ensures
        u@ == match startup_url {
            Some(s) => s@,
            None => default_startup_url(),
        },
{
    match startup_url {
        Some(s) => s,
        None => "vmux://agent/vibe/".to_owned(),
    }
}

/// The startup page kept for new stacks: computed again when the settings
/// changed or nothing was computed yet, else kept.
pub fn refresh_startup_url(current: String, settings_changed: bool, startup_url: Option<String>) -> (u:
    String)
    ensures
        settings_changed || current@.len() == 0 ==> u@ == match startup_url {
            Some(s) => s@,
            None => default_startup_url(),
        },
        !(settings_changed || current@.len() == 0) ==> u@ == current@,
{
    if settings_changed || current.as_str().is_empty() {
        resolve_startup_url(startup_url)
    } else {
        current
    }
}

/// The text settings of a terminal theme; its sizes (font size, line height,
/// padding) are kept beside it by the caller.
#[derive(Clone, Debug)]
pub struct ThemeText {
    pub name: String,
    pub color_scheme: String,
    pub font_family: String,
    pub cursor_style: String,
    pub cursor_blink: bool,
    pub shell: String,
}

/// A theme's text settings as mathematical values.
pub struct ThemeView {
    pub name: Seq<char>,
    pub color_scheme: Seq<char>,
    pub font_family: Seq<char>,
    pub cursor_style: Seq<char>,
    pub cursor_blink: bool,
    pub shell: Seq<char>,
}

impl View for ThemeText {
    type V = ThemeView;

    open spec fn view(&self) -> ThemeView {
        ThemeView {
            name: self.name@,
            color_scheme: self.color_scheme@,
            font_family: self.font_family@,
            cursor_style: self.cursor_style@,
            cursor_blink: self.cursor_blink,
            shell: self.shell@,
        }
    }
}

/// The terminal section of the settings, as far as shells and themes go.
#[derive(Clone, Debug)]
pub struct TerminalSettingsText {
    /// A shell named by older settings, used when no theme names one.
    pub shell: Option<String>,
    /// A font family named by older settings, used when no theme names one.
    pub font_family: Option<String>,
    pub default_theme: String,
    pub themes: Vec<ThemeText>,
    pub confirm_close: bool,
}

/// The shell used when neither a theme nor the settings name one: the
/// `SHELL` of the environment, else zsh.
pub open spec fn spec_default_shell(env_shell: Option<Seq<char>>) -> Seq<char> {
    match env_shell {
        Some(s) => s,
        None => "/bin/zsh"@,
    }
}

/// The shell used when neither a theme nor the settings name one (see
/// `spec_default_shell`); `env_shell` is the environment's `SHELL`.
pub fn default_shell(env_shell: Option<String>) -> (s: String)
    ensures
        s@ == spec_default_shell(
            match env_shell {
                Some(e) => Some(e@),
                None => None,
            },
        ),
{
    match env_shell {
        Some(e) => e,
        None => "/bin/zsh".to_owned(),
    }
}

/// The position of the first theme of that name.
pub open spec fn theme_index(themes: Seq<ThemeText>, name: Seq<char>) -> Option<int>
    decreases themes.len(),
{
    if themes.len() == 0 {
        None
    } else if themes[0].name@ == name {
        Some(0)
    } else {
        match theme_index(themes.drop_first(), name) {
            Some(i) => Some(i + 1),
            None => None,
        }
    }
}

proof fn lemma_theme_index(themes: Seq<ThemeText>, name: Seq<char>)
    ensures
        theme_index(themes, name) matches Some(i) ==> 0 <= i < themes.len() && themes[i].name@ == name
            && forall|j: int| 0 <= j < i ==> themes[j].name@ != name,
        theme_index(themes, name) is None ==> forall|j: int|
            0 <= j < themes.len() ==> themes[j].name@ != name,
    decreases themes.len(),
{
    if themes.len() > 0 {
        lemma_theme_index(themes.drop_first(), name);
        assert forall|j: int| 1 <= j < themes.len() implies themes[j] == themes.drop_first()[j - 1] by {}
    }
}

/// The theme built when no theme has the name: the default color scheme,
/// cursor and sizes, with the font family and shell of older settings if
/// they name them.
pub open spec fn fallback_theme(t: TerminalSettingsText, name: Seq<char>, default_shell: Seq<char>) -> ThemeView {
    ThemeView {
        name,
        color_scheme: "catppuccin-mocha"@,
        font_family: match t.font_family {
            Some(f) => f@,
            None => "JetBrainsMono Nerd Font"@,
        },
        cursor_style: "block"@,
        cursor_blink: true,
        shell: match t.shell {
            Some(s) => s@,
            None => default_shell,
        },
    }
}

fn copy_theme(t: &ThemeText) -> (r: ThemeText)
    ensures
        r@ == t@,
{
    ThemeText {
        name: t.name.clone(),
        color_scheme: t.color_scheme.clone(),
        font_family: t.font_family.clone(),
        cursor_style: t.cursor_style.clone(),
        cursor_blink: t.cursor_blink,
        shell: t.shell.clone(),
    }
}

impl TerminalSettingsText {
    /// The theme of that name: the first configured theme with it, with its
    /// position (the caller takes its sizes from there), else the fallback
    /// theme and `None` (the caller uses the default sizes).
    pub fn resolve_theme(&self, name: &str, default_shell: &str) -> (r: (Option<usize>, ThemeText))
        ensures
            match theme_index(self.themes@, name@) {
                Some(i) => r.0 == Some(i as usize) && r.1@ == self.themes@[i]@,
                None => r.0 is None && r.1@ == fallback_theme(*self, name@, default_shell@),
            },
    {
        proof {
            lemma_theme_index(self.themes@, name@);
        }
        let mut i: usize = 0;
        while i < self.themes.len()
            invariant
                i <= self.themes@.len(),
                forall|j: int| 0 <= j < i ==> self.themes@[j].name@ != name@,
                theme_index(self.themes@, name@) matches Some(k) ==> i <= k,
            decreases self.themes@.len() - i,
        {
            proof {
                lemma_theme_index(self.themes@, name@);
            }
            if str_eq(self.themes[i].name.as_str(), name) {
                return (Some(i), copy_theme(&self.themes[i]));
            }
            i = i + 1;
        }
        let font_family = match &self.font_family {
            Some(f) => f.clone(),
            None => "JetBrainsMono Nerd Font".to_owned(),
        };
        let shell = match &self.shell {
            Some(s) => s.clone(),
            None => default_shell.to_owned(),
        };
        (None, ThemeText {
            name: name.to_owned(),
            color_scheme: "catppuccin-mocha".to_owned(),
            font_family,
            cursor_style: "block".to_owned(),
            cursor_blink: true,
            shell,
        })
    }
}

/// The shell of the settings' default theme, or the default shell when the
/// settings have no terminal section.
pub open spec fn spec_terminal_shell(terminal: Option<TerminalSettingsText>, default_shell: Seq<char>) -> Seq<
    char,
> {
    match terminal {
        Some(t) => match theme_index(t.themes@, t.default_theme@) {
            Some(i) => t.themes@[i].shell@,
            None => fallback_theme(t, t.default_theme@, default_shell).shell,
        },
        None => default_shell,
    }
}

/// The shell a terminal starts (see `spec_terminal_shell`).
pub fn terminal_shell(terminal: &Option<TerminalSettingsText>, default_shell: &str) -> (s: String)
    ensures
        s@ == spec_terminal_shell(*terminal, default_shell@),
{
    match terminal {
        Some(t) => {
            let (_, theme) = t.resolve_theme(t.default_theme.as_str(), default_shell);
            theme.shell
        },
        None => default_shell.to_owned(),
    }
}

/// Whether closing a running terminal asks first: yes unless the terminal
/// settings turn it off.
pub fn should_confirm_close(terminal: &Option<TerminalSettingsText>) -> (r: bool)
    ensures
        r == match terminal {
            Some(t) => t.confirm_close,
            None => true,
        },
{
    match terminal {
        Some(t) => t.confirm_close,
        None => true,
    }
}

/// Which terminal holds each process id; terminals are named by a number.
pub struct PidTable {
    pub map: HashMap<u32, u64>,
}

impl PidTable {
    /// An empty table.
    pub fn new() -> (t: Self)
        ensures
            t.map@ == Map::<u32, u64>::empty(),
    {
        PidTable { map: HashMap::new() }
    }

    /// A terminal got a process id: it now holds it.
    pub fn record(&mut self, pid: u32, terminal: u64)
        ensures
            final(self).map@ == old(self).map@.insert(pid, terminal),
    {
        broadcast use vstd::std_specs::hash::group_hash_axioms;

        self.map.insert(pid, terminal);
    }

    /// The terminal that holds a process id.
    pub fn terminal_of(&self, pid: u32) -> (r: Option<u64>)
        ensures
            r == (if self.map@.contains_key(pid) {
                Some(self.map@[pid])
            } else {
                None
            }),
    {
        broadcast use vstd::std_specs::hash::group_hash_axioms;

        match self.map.get(&pid) {
            Some(t) => Some(*t),
            None => None,
        }
    }

    /// A terminal is gone: every process id it held is dropped, the others stay.
    pub fn forget_terminal(&mut self, terminal: u64)
        ensures
            forall|p: u32| #[trigger]
                final(self).map@.contains_key(p) <==> old(self).map@.contains_key(p) && old(
                    self,
                ).map@[p] != terminal,
            forall|p: u32| #[trigger]
                final(self).map@.contains_key(p) ==> final(self).map@[p] == old(self).map@[p],
    {
        broadcast use vstd::std_specs::hash::group_hash_axioms;

        let ghost m0 = self.map@;
        let mut doomed: Vec<u32> = Vec::new();
        for (k, v) in it: self.map.iter()
            invariant
                self.map@ == m0,
                it.seq() == vstd::std_specs::hash::spec_hash_map_iter(&self.map).remaining(),
                forall|j: int|
                    0 <= j < doomed@.len() ==> m0.contains_key(#[trigger] doomed@[j]) && m0[doomed@[j]]
                        == terminal,
                forall|i: int|
                    0 <= i < it.index() && *(#[trigger] it.seq()[i]).1 == terminal ==> doomed@.contains(
                        *it.seq()[i].0,
                    ),
        {
            let ghost before = doomed@;
            if *v == terminal {
                doomed.push(*k);
                assert(doomed@[doomed@.len() - 1] == *k);
            }
            assert forall|x: u32| before.contains(x) implies doomed@.contains(x) by {
                let j = choose|j: int| 0 <= j < before.len() && before[j] == x;
                assert(doomed@[j] == x);
            }
        }
        assert forall|p: u32| m0.contains_key(p) && m0[p] == terminal implies doomed@.contains(p) by {
            let v = vstd::std_specs::hash::spec_hash_map_iter(&self.map).remaining();
            assert(v.contains((&p, &m0[p])));
            let i = choose|i: int| 0 <= i < v.len() && v[i] == (&p, &m0[p]);
            assert(*v[i].1 == terminal);
        }
        let mut i: usize = 0;
        while i < doomed.len()
            invariant
                i <= doomed@.len(),
                forall|j: int|
                    0 <= j < doomed@.len() ==> m0.contains_key(#[trigger] doomed@[j]) && m0[doomed@[j]]
                        == terminal,
                forall|p: u32| m0.contains_key(p) && m0[p] == terminal ==> doomed@.contains(p),
                forall|p: u32| #[trigger]
                    self.map@.contains_key(p) <==> m0.contains_key(p) && (forall|j: int|
                        0 <= j < i ==> #[trigger] doomed@[j] != p),
                forall|p: u32| #[trigger] self.map@.contains_key(p) ==> self.map@[p] == m0[p],
            decreases doomed@.len() - i,
        {
            let k = doomed[i];
            self.map.remove(&k);
            i = i + 1;
        }
        assert forall|p: u32| #[trigger] self.map@.contains_key(p) <==> m0.contains_key(p) && m0[p] != terminal by {
            if m0.contains_key(p) && m0[p] == terminal {
                assert(doomed@.contains(p));
                let j = choose|j: int| 0 <= j < doomed@.len() && doomed@[j] == p;
                assert(doomed@[j] == p);
            }
            if m0.contains_key(p) && m0[p] != terminal {
                assert forall|j: int| 0 <= j < doomed@.len() implies #[trigger] doomed@[j] != p by {
                    assert(m0[doomed@[j]] == terminal);
                }
            }
        }
    }

    /// A terminal lost its process id component. If it still holds one (it
    /// was replaced), that id is dropped; if it is gone, every id it held is.
    pub fn pid_removed(&mut self, terminal: u64, current_pid: Option<u32>)
        ensures
            current_pid matches Some(p) ==> final(self).map@ == old(self).map@.remove(p),
            current_pid is None ==> forall|p: u32| #[trigger]
                final(self).map@.contains_key(p) <==> old(self).map@.contains_key(p) && old(
                    self,
                ).map@[p] != terminal,
            current_pid is None ==> forall|p: u32| #[trigger]
                final(self).map@.contains_key(p) ==> final(self).map@[p] == old(self).map@[p],
    {
        broadcast use vstd::std_specs::hash::group_hash_axioms;

        match current_pid {
            Some(p) => {
                self.map.remove(&p);
            },
            None => {
                self.forget_terminal(terminal);
            },
        }
    }
}

/// Environment pairs as mathematical values.
pub open spec fn env_view(v: Seq<(String, String)>) -> Seq<(Seq<char>, Seq<char>)> {
    v.map_values(|p: (String, String)| (p.0@, p.1@))
}

fn copy_strings(v: &Vec<String>) -> (r: Vec<String>)
    ensures
        names_view(r@) == names_view(v@),
{
    let mut r: Vec<String> = Vec::new();
    let mut i: usize = 0;
    while i < v.len()
        invariant
            i <= v@.len(),
            r@.len() == i,
            names_view(r@) == names_view(v@.subrange(0, i as int)),
        decreases v@.len() - i,
    {
        let ghost before = r@;
        let c = v[i].clone();
        r.push(c);
        assert(r@ == before.push(c));
        assert(v@.subrange(0, i as int + 1) == v@.subrange(0, i as int).push(v@[i as int]));
        assert forall|k: int| 0 <= k <= i implies #[trigger] r@[k]@ == v@[k]@ by {
            if k < i {
                assert(names_view(before)[k] == names_view(v@.subrange(0, i as int))[k]);
            }
        }
        assert(names_view(r@) =~= names_view(v@.subrange(0, i as int + 1)));
        i = i + 1;
    }
    assert(v@.subrange(0, v@.len() as int) =~= v@);
    r
}

fn copy_env(v: &Vec<(String, String)>) -> (r: Vec<(String, String)>)
    ensures
        env_view(r@) == env_view(v@),
{
    let mut r: Vec<(String, String)> = Vec::new();
    let mut i: usize = 0;
    while i < v.len()
        invariant
            i <= v@.len(),
            r@.len() == i,
            env_view(r@) == env_view(v@.subrange(0, i as int)),
        decreases v@.len() - i,
    {
        let ghost before = r@;
        let c = (v[i].0.clone(), v[i].1.clone());
        r.push(c);
        assert(r@ == before.push(c));
        assert(v@.subrange(0, i as int + 1) == v@.subrange(0, i as int).push(v@[i as int]));
        assert forall|k: int| 0 <= k <= i implies #[trigger] r@[k].0@ == v@[k].0@ && r@[k].1@ == v@[k].1@ by {
            if k < i {
                assert(env_view(before)[k] == env_view(v@.subrange(0, i as int))[k]);
            }
        }
        assert(env_view(r@) =~= env_view(v@.subrange(0, i as int + 1)));
        i = i + 1;
    }
    assert(v@.subrange(0, v@.len() as int) =~= v@);
    r
}

/// The terminal size a restarted process starts with.
pub const RESTART_COLS: u16 = 80;
/// The terminal size a restarted process starts with.
pub const RESTART_ROWS: u16 = 24;

/// What restarting a terminal sends to the service: stop the old process,
/// start a new one running `command` and attach to it.
#[derive(Clone, Debug)]
pub struct RestartPlan {
    pub kill: u128,
    pub create: u128,
    pub command: String,
    pub args: Vec<String>,
    pub cwd: String,
    pub env: Vec<(String, String)>,
    pub cols: u16,
    pub rows: u16,
    /// Whether the terminal keeps its launch (whose arguments become
    /// `args`); without one its page is reset to the bare terminal address.
    pub keeps_launch: bool,
}

/// Restarting a terminal: with a launch, the same program again, with the
/// arguments its agent builds for resuming when there is one (`agent_args`)
/// and its own otherwise; without a launch, the user's shell in no
/// particular directory.
pub fn restart_plan(
    old_id: u128,
    new_id: u128,
    launch: &Option<TerminalLaunch>,
    agent_args: Option<Vec<String>>,
    shell: &str,
) -> (p: RestartPlan)
    ensures
        p.kill == old_id,
        p.create == new_id,
        p.cols == RESTART_COLS,
        p.rows == RESTART_ROWS,
        p.keeps_launch == launch is Some,
        launch matches Some(l) ==> {
            &&& p.command@ == l.command@
            &&& p.cwd@ == l.cwd@
            &&& env_view(p.env@) == env_view(l.env@)
            &&& names_view(p.args@) == match agent_args {
                Some(a) => names_view(a@),
                None => names_view(l.args@),
            }
        },
        launch is None ==> {
            &&& p.command@ == shell@
            &&& p.args@.len() == 0
            &&& p.cwd@.len() == 0
            &&& p.env@.len() == 0
        },
{
    match launch {
        Some(l) => {
            let args = match agent_args {
                Some(a) => a,
                None => copy_strings(&l.args),
            };
            RestartPlan {
                kill: old_id,
                create: new_id,
                command: l.command.clone(),
                args,
                cwd: l.cwd.clone(),
                env: copy_env(&l.env),
                cols: RESTART_COLS,
                rows: RESTART_ROWS,
                keeps_launch: true,
            }
        },
        None => RestartPlan {
            kill: old_id,
            create: new_id,
            command: shell.to_owned(),
            args: Vec::new(),
            cwd: String::new(),
            env: Vec::new(),
            cols: RESTART_COLS,
            rows: RESTART_ROWS,
            keeps_launch: false,
        },
    }
}

/// The title of a new or restarted plain terminal: `Terminal (` and the
/// first eight characters of its process id as text, then `)`.
pub fn terminal_title(id_text: &str) -> (t: String)
    requires
        id_text@.len() >= 8,
        forall|i: int| 0 <= i < 8 ==> (id_text@[i] as u32) < 128,
    ensures
        t@ == "Terminal ("@ + id_text@.subrange(0, 8) + ")"@,
{
    let head = id_text.substring_char(0, 8);
    "Terminal (".to_owned().concat(head).concat(")")
}

/// The directory a new terminal starts in: the one asked for, unless it is
/// an address (it holds `://`), else none.
pub open spec fn spec_start_dir(cwd: Option<Seq<char>>) -> Seq<char> {
    match cwd {
        Some(d) => if contains_text(d, "://"@) {
            Seq::empty()
        } else {
            d
        },
        None => Seq::empty(),
    }
}

/// The launch of a new plain terminal: the user's shell, started in the
/// directory asked for (see `spec_start_dir`).
pub fn new_terminal_launch(shell: &str, cwd: Option<String>) -> (l: TerminalLaunch)
    ensures
        l.command@ == shell@,
        l.args@.len() == 0,
        l.cwd@ == spec_start_dir(
            match cwd {
                Some(d) => Some(d@),
                None => None,
            },
        ),
        l.env@.len() == 0,
        l.kind == TerminalKind::Plain,
{
    let dir = match cwd {
        Some(d) => {
            let cs = chars_of(d.as_str());
            let pat = chars_of("://");
            proof {
                reveal_strlit("://");
            }
            if text_contains(&cs, &pat) {
                String::new()
            } else {
                d
            }
        },
        None => String::new(),
    };
    plain_shell_launch(shell, dir)
}

} // verus!
