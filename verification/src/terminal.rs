//! Windows Terminal profiles, shell inference and terminal detection.

use vstd::prelude::*;
use crate::text::{has_sub, lowercase, lowercase_of, contains, str_eq, concat, ends_with};
use crate::version::{split_on, split_char};

verus! {

/// A Windows Terminal profile as read from its `settings.json`.
#[derive(Debug, Clone, PartialEq, Eq)]
pub struct WtProfile {
    pub name: String,
    pub hidden: bool,
    pub commandline: Option<String>,
    pub source: Option<String>,
}

/// A terminal offered to the user.
#[derive(Debug, Clone, PartialEq, Eq)]
pub struct TerminalInfo {
    /// Unique identifier (e.g. "powershell", "cmd", "gitbash", "terminal:Git Bash")
    pub id: String,
    /// Human-readable display name
    pub name: String,
    /// Path to the terminal executable, or empty string if built-in
    pub path: String,
    /// Whether the terminal is available on this system
    pub available: bool,
}

/// The characters of a profile's command line (empty when it has none).
pub open spec fn commandline_chars(p: WtProfile) -> Seq<char> {
    match p.commandline {
        Some(c) => c@,
        None => Seq::empty(),
    }
}

/// The shell type inferred from a lowercased command line `c` and lowercased name `n`.
pub open spec fn classify_shell(c: Seq<char>, n: Seq<char>) -> Seq<char> {
    if has_sub(c, "powershell"@) || has_sub(c, "pwsh"@) || has_sub(n, "powershell"@) || has_sub(n, "pwsh"@) {
        "powershell"@
    } else if has_sub(n, "ubuntu"@) || has_sub(n, "debian"@) || has_sub(n, "wsl"@) {
        "wsl"@
    } else if has_sub(c, "bash"@) || has_sub(c, "git"@) || has_sub(n, "bash"@) || has_sub(n, "git bash"@) {
        "gitbash"@
    } else if has_sub(c, "cmd.exe"@) || has_sub(n, "command prompt"@) || has_sub(n, "cmd"@) {
        "cmd"@
    } else {
        "powershell"@
    }
}

/// The shell type of a profile.
pub open spec fn profile_shell(p: WtProfile) -> Seq<char> {
    classify_shell(lowercase_of(commandline_chars(p)), lowercase_of(p.name@))
}

/// `i` is the first profile in `ps` named `name`.
pub open spec fn is_first_named(ps: Seq<WtProfile>, name: Seq<char>, i: int) -> bool {
    &&& 0 <= i < ps.len()
    &&& ps[i].name@ == name
    &&& forall|j: int| 0 <= j < i ==> ps[j].name@ != name
}

/// The first profile in `ps` named `name`.
pub open spec fn find_profile(ps: Seq<WtProfile>, name: Seq<char>) -> Option<WtProfile> {
    if exists|i: int| is_first_named(ps, name, i) {
        Some(ps[choose|i: int| is_first_named(ps, name, i)])
    } else {
        None
    }
}

/// A profile is listed when it is not hidden and has a name.
pub open spec fn is_listed(p: WtProfile) -> bool {
    !p.hidden && p.name@.len() > 0
}

impl WtProfile {
    /// A field-by-field copy.
    pub fn copy(&self) -> (r: WtProfile)
        ensures
            r == *self,
    {
        WtProfile {
            name: self.name.clone(),
            hidden: self.hidden,
            commandline: match &self.commandline {
                Some(c) => Some(c.clone()),
                None => None,
            },
            source: match &self.source {
                Some(s) => Some(s.clone()),
                None => None,
            },
        }
    }
}

/// Infers the shell type from lowercased command line and name.
/// Returns "powershell", "cmd", "gitbash" or "wsl".
pub fn classify_shell_type(cmd_lower: &str, name_lower: &str) -> (r: &'static str)
    ensures
        r@ == classify_shell(cmd_lower@, name_lower@),
{
    let c = cmd_lower;
    let n = name_lower;
    if contains(c, "powershell") || contains(c, "pwsh") || contains(n, "powershell") || contains(n, "pwsh") {
        "powershell"
    } else if contains(n, "ubuntu") || contains(n, "debian") || contains(n, "wsl") {
        "wsl"
    } else if contains(c, "bash") || contains(c, "git") || contains(n, "bash") || contains(n, "git bash") {
        "gitbash"
    } else if contains(c, "cmd.exe") || contains(n, "command prompt") || contains(n, "cmd") {
        "cmd"
    } else {
        "powershell"
    }
}

/// Infers the shell type of a WT profile from its commandline and name.
/// Returns "powershell", "cmd", "gitbash", or "wsl".
pub fn profile_shell_type(profile: &WtProfile) -> (r: &'static str)
    ensures
        r@ == profile_shell(*profile),
{
    let cmd: &str = match &profile.commandline {
        Some(c) => c.as_str(),
        None => {
            proof { reveal_strlit(""); }
            ""
        },
    };
    assert(cmd@ == commandline_chars(*profile));
    let cmd_lower = lowercase(cmd);
    let name_lower = lowercase(profile.name.as_str());
    classify_shell_type(cmd_lower.as_str(), name_lower.as_str())
}

/// Looks up a profile by name among `profiles`; the first match wins.
pub fn find_wt_profile(name: &str, profiles: &[WtProfile]) -> (r: Option<WtProfile>)
    ensures
        r == find_profile(profiles@, name@),
{
    let mut i: usize = 0;
    while i < profiles.len()
        invariant
            i <= profiles@.len(),
            forall|j: int| 0 <= j < i ==> profiles@[j].name@ != name@,
        decreases profiles@.len() - i,
    {
        if str_eq(profiles[i].name.as_str(), name) {
            proof {
                assert(is_first_named(profiles@, name@, i as int));
                let k = choose|k: int| is_first_named(profiles@, name@, k);
                assert(k == i) by {
                    if k < i { assert(profiles@[k].name@ != name@); }
                    if i < k { assert(profiles@[i as int].name@ != name@); }
                }
            }
            return Some(profiles[i].copy());
        }
        i = i + 1;
    }
    None
}

/// Keeps the profiles that are not hidden and have a name, in order.
pub fn visible_profiles(list: Vec<WtProfile>) -> (r: Vec<WtProfile>)
    ensures
        r@ == listed_profiles(list@),
{
    let mut out: Vec<WtProfile> = Vec::new();
    let ghost pred = |p: WtProfile| is_listed(p);
    for i in 0..list.len()
        invariant
            pred == (|p: WtProfile| is_listed(p)),
            out@ == list@.take(i as int).filter(pred),
    {
        reveal_with_fuel(Seq::<_>::filter, 1);
        assert(list@.take(i + 1).drop_last() =~= list@.take(i as int));
        assert(list@.take(i + 1).last() == list@[i as int]);
        let nm = list[i].name.as_str();
        let empty = nm.is_empty();
        assert(empty == (nm@.len() == 0));
        let keep = !list[i].hidden && !empty;
        assert(keep == pred(list@[i as int]));
        if keep {
            out.push(list[i].copy());
        }
    }
    assert(list@.take(list@.len() as int) =~= list@);
    out
}


// ── Laws of profile lookup ─────────────────────────────────────────────

/// Some profile in `ps` has the name `name` exactly when a first one does.
proof fn lemma_named_has_first(ps: Seq<WtProfile>, name: Seq<char>, j: int)
    requires
        0 <= j < ps.len(),
        ps[j].name@ == name,
    ensures
        exists|i: int| is_first_named(ps, name, i),
    decreases j,
{
    if exists|q: int| 0 <= q < j && ps[q].name@ == name {
        let q = choose|q: int| 0 <= q < j && ps[q].name@ == name;
        lemma_named_has_first(ps, name, q);
    } else {
        assert(is_first_named(ps, name, j));
    }
}

/// The first profile of a name is unique.
proof fn lemma_first_named_unique(ps: Seq<WtProfile>, name: Seq<char>, i: int, k: int)
    requires
        is_first_named(ps, name, i),
        is_first_named(ps, name, k),
    ensures
        i == k,
{
    if i < k { assert(ps[i].name@ == name); }
    if k < i { assert(ps[k].name@ == name); }
}

/// Looking up among `ps` followed by `x`.
proof fn lemma_find_push(ps: Seq<WtProfile>, x: WtProfile, name: Seq<char>)
    ensures
        find_profile(ps, name) is Some ==> find_profile(ps.push(x), name) == find_profile(ps, name),
        find_profile(ps, name) is None && x.name@ == name ==> find_profile(ps.push(x), name) == Some(x),
        find_profile(ps, name) is None && x.name@ != name ==> find_profile(ps.push(x), name) is None,
{
    let qs = ps.push(x);
    if exists|i: int| is_first_named(ps, name, i) {
        let i = choose|i: int| is_first_named(ps, name, i);
        assert(is_first_named(qs, name, i)) by {
            assert forall|j: int| 0 <= j < i implies qs[j].name@ != name by {
                assert(qs[j] == ps[j]);
            }
        }
        let k = choose|k: int| is_first_named(qs, name, k);
        lemma_first_named_unique(qs, name, i, k);
    } else {
        assert forall|j: int| 0 <= j < ps.len() implies ps[j].name@ != name by {
            if ps[j].name@ == name {
                lemma_named_has_first(ps, name, j);
            }
        }
        if x.name@ == name {
            let n = ps.len() as int;
            assert(is_first_named(qs, name, n)) by {
                assert forall|j: int| 0 <= j < n implies qs[j].name@ != name by {
                    assert(qs[j] == ps[j]);
                }
            }
            let k = choose|k: int| is_first_named(qs, name, k);
            lemma_first_named_unique(qs, name, n, k);
        } else {
            assert(!exists|k: int| is_first_named(qs, name, k)) by {
                if exists|k: int| is_first_named(qs, name, k) {
                    let k = choose|k: int| is_first_named(qs, name, k);
                    if k < ps.len() {
                        assert(qs[k] == ps[k]);
                    }
                }
            }
        }
    }
}

/// `i` is the first listed profile named `name` in `list`.
pub open spec fn is_first_listed_named(list: Seq<WtProfile>, name: Seq<char>, i: int) -> bool {
    &&& 0 <= i < list.len()
    &&& is_listed(list[i])
    &&& list[i].name@ == name
    &&& forall|j: int| 0 <= j < i ==> !(is_listed(list[j]) && list[j].name@ == name)
}

/// The listed profiles of a settings list, in order.
pub open spec fn listed_profiles(list: Seq<WtProfile>) -> Seq<WtProfile> {
    list.filter(|p: WtProfile| is_listed(p))
}

proof fn lemma_lookup_listed(list: Seq<WtProfile>, name: Seq<char>)
    ensures
        (exists|i: int| is_first_listed_named(list, name, i)) ==> find_profile(listed_profiles(list), name)
            == Some(list[choose|i: int| is_first_listed_named(list, name, i)]),
        !(exists|i: int| is_first_listed_named(list, name, i)) ==> find_profile(listed_profiles(list), name) is None,
    decreases list.len(),
{
    if list.len() > 0 {
        let front = list.drop_last();
        let x = list.last();
        lemma_lookup_listed(front, name);
        let ff = listed_profiles(front);
        reveal_with_fuel(Seq::<WtProfile>::filter, 1);
        assert(listed_profiles(list) == if is_listed(x) { ff.push(x) } else { ff });
        if is_listed(x) {
            lemma_find_push(ff, x, name);
        }
        if exists|i: int| is_first_listed_named(front, name, i) {
            let i = choose|i: int| is_first_listed_named(front, name, i);
            assert(is_first_listed_named(list, name, i)) by {
                assert forall|j: int| 0 <= j < i implies !(is_listed(list[j]) && list[j].name@ == name) by {
                    assert(list[j] == front[j]);
                }
                assert(list[i] == front[i]);
            }
            let k = choose|k: int| is_first_listed_named(list, name, k);
            assert(k == i) by {
                if k < i { assert(list[k] == front[k]); }
                if i < k { assert(list[i] == front[i]); }
            }
        } else {
            let n = front.len() as int;
            if is_listed(x) && x.name@ == name {
                assert(is_first_listed_named(list, name, n)) by {
                    assert forall|j: int| 0 <= j < n implies !(is_listed(list[j]) && list[j].name@ == name) by {
                        assert(list[j] == front[j]);
                        if is_listed(list[j]) && list[j].name@ == name {
                            lemma_listed_has_first(front, name, j);
                        }
                    }
                }
                let k = choose|k: int| is_first_listed_named(list, name, k);
                assert(k == n) by {
                    if k < n {
                        assert(list[k] == front[k]);
                        lemma_listed_has_first(front, name, k);
                    }
                }
            } else {
                assert(!exists|k: int| is_first_listed_named(list, name, k)) by {
                    if exists|k: int| is_first_listed_named(list, name, k) {
                        let k = choose|k: int| is_first_listed_named(list, name, k);
                        if k < n {
                            assert(list[k] == front[k]);
                            lemma_listed_has_first(front, name, k);
                        }
                    }
                }
            }
        }
    }
}

proof fn lemma_listed_has_first(list: Seq<WtProfile>, name: Seq<char>, j: int)
    requires
        0 <= j < list.len(),
        is_listed(list[j]),
        list[j].name@ == name,
    ensures
        exists|i: int| is_first_listed_named(list, name, i),
    decreases j,
{
    if exists|q: int| 0 <= q < j && is_listed(list[q]) && list[q].name@ == name {
        let q = choose|q: int| 0 <= q < j && is_listed(list[q]) && list[q].name@ == name;
        lemma_listed_has_first(list, name, q);
    } else {
        assert(is_first_listed_named(list, name, j));
    }
}

/// Looking a profile up among the listed profiles of a settings list finds the
/// first listed (not hidden, named) profile with that name, in settings order;
/// there is none exactly when no listed profile has that name, so an empty
/// name finds nothing.
pub proof fn law_lookup_among_listed_profiles(list: Seq<WtProfile>, name: Seq<char>)
    ensures
        ({
            let r = find_profile(listed_profiles(list), name);
            &&& r matches Some(p) ==> p.name@ == name && is_listed(p) && exists|i: int|
                is_first_listed_named(list, name, i) && list[i] == p
            &&& r is None <==> forall|i: int| 0 <= i < list.len() ==> !(is_listed(list[i]) && #[trigger] list[i].name@ == name)
            &&& name.len() == 0 ==> r is None
        }),
{
    lemma_lookup_listed(list, name);
    if exists|i: int| 0 <= i < list.len() && is_listed(list[i]) && list[i].name@ == name {
        let j = choose|i: int| 0 <= i < list.len() && is_listed(list[i]) && list[i].name@ == name;
        lemma_listed_has_first(list, name, j);
    }
}

// ── Detection ──────────────────────────────────────────────────────────

/// The spec view of a [`TerminalInfo`].
pub struct TerminalView {
    pub id: Seq<char>,
    pub name: Seq<char>,
    pub path: Seq<char>,
    pub available: bool,
}

impl View for TerminalInfo {
    type V = TerminalView;

    open spec fn view(&self) -> TerminalView {
        TerminalView { id: self.id@, name: self.name@, path: self.path@, available: self.available }
    }
}

/// What the system offers, as probed on the machine: executables found on
/// `PATH`, the well-known Windows PowerShell location, Git Bash and the
/// listed Windows Terminal profiles.
#[derive(Debug, Clone)]
pub struct SystemProbe {
    /// `pwsh.exe` found on `PATH`.
    pub pwsh_path: Option<String>,
    /// `powershell.exe` found on `PATH`.
    pub powershell_path: Option<String>,
    /// The file at [`system_powershell_path`] exists.
    pub system_powershell_exists: bool,
    /// `cmd.exe` found on `PATH`.
    pub cmd_path: Option<String>,
    /// The Git Bash executable.
    pub bash_path: Option<String>,
    /// `wt.exe` found on `PATH`.
    pub wt_path: Option<String>,
    /// The listed Windows Terminal profiles.
    pub wt_profiles: Vec<WtProfile>,
}

/// The well-known location of Windows PowerShell.
pub open spec fn system_powershell() -> Seq<char> {
    "C:\\Windows\\System32\\WindowsPowerShell\\v1.0\\powershell.exe"@
}

/// The view of an optional string.
pub open spec fn opt_string(o: Option<String>) -> Option<Seq<char>> {
    match o {
        Some(s) => Some(s@),
        None => None,
    }
}

/// A terminal entry: available with its path when a path was found.
pub open spec fn entry(id: Seq<char>, name: Seq<char>, path: Option<Seq<char>>) -> TerminalView {
    match path {
        Some(p) => TerminalView { id, name, path: p, available: true },
        None => TerminalView { id, name, path: Seq::empty(), available: false },
    }
}

/// The entry of a Windows Terminal profile.
pub open spec fn profile_entry(p: WtProfile) -> TerminalView {
    TerminalView {
        id: "terminal:"@ + p.name@,
        name: "Windows Terminal: "@ + p.name@,
        path: Seq::empty(),
        available: true,
    }
}

/// The PowerShell entry.
pub open spec fn powershell_entry(probe: SystemProbe) -> TerminalView {
    let found = if probe.pwsh_path is Some { opt_string(probe.pwsh_path) } else { opt_string(probe.powershell_path) };
    match found {
        Some(p) => entry(
            "powershell"@,
            if has_sub(lowercase_of(p), "pwsh"@) { "PowerShell"@ } else { "Windows PowerShell"@ },
            found,
        ),
        None => if probe.system_powershell_exists {
            entry("powershell"@, "Windows PowerShell"@, Some(system_powershell()))
        } else {
            entry("powershell"@, "Windows PowerShell"@, None)
        },
    }
}

/// The terminals offered for a probe: PowerShell, Command Prompt and Git Bash,
/// then, when `wt.exe` was found, Windows Terminal and one entry per profile.
pub open spec fn detected(probe: SystemProbe) -> Seq<TerminalView> {
    let base = seq![
        powershell_entry(probe),
        entry("cmd"@, "Command Prompt"@, Some(match probe.cmd_path { Some(c) => c@, None => "cmd.exe"@ })),
        entry("gitbash"@, "Git Bash"@, opt_string(probe.bash_path)),
    ];
    if probe.wt_path is Some {
        base + seq![entry("terminal"@, "Windows Terminal"@, opt_string(probe.wt_path))]
            + probe.wt_profiles@.map_values(|p: WtProfile| profile_entry(p))
    } else {
        base
    }
}

/// The views of a list of terminals.
pub open spec fn terminal_views(v: Seq<TerminalInfo>) -> Seq<TerminalView> {
    v.map_values(|t: TerminalInfo| t@)
}

/// The well-known location of Windows PowerShell.
pub fn system_powershell_path() -> (r: &'static str)
    ensures
        r@ == system_powershell(),
{
    "C:\\Windows\\System32\\WindowsPowerShell\\v1.0\\powershell.exe"
}

fn copy_opt(o: &Option<String>) -> (r: Option<String>)
    ensures
        r == *o,
{
    match o {
        Some(s) => Some(s.clone()),
        None => None,
    }
}

/// A terminal entry: available with its path when a path was found.
fn terminal(id: &str, name: &str, path: Option<String>) -> (r: TerminalInfo)
    ensures
        r@ == entry(id@, name@, opt_string(path)),
{
    match path {
        Some(p) => TerminalInfo { id: id.to_owned(), name: name.to_owned(), path: p, available: true },
        None => TerminalInfo { id: id.to_owned(), name: name.to_owned(), path: String::new(), available: false },
    }
}

/// Detects the terminals that the probed system offers.
pub fn detect_terminals(probe: &SystemProbe) -> (r: Vec<TerminalInfo>)
    ensures
        terminal_views(r@) == detected(*probe),
{
    let mut terminals: Vec<TerminalInfo> = Vec::new();

    // ── PowerShell ──────────────────────────────────────────────────
    let ps_path = if probe.pwsh_path.is_some() { copy_opt(&probe.pwsh_path) } else { copy_opt(&probe.powershell_path) };
    match ps_path {
        Some(p) => {
            let lower = lowercase(p.as_str());
            let ps_name = if contains(lower.as_str(), "pwsh") { "PowerShell" } else { "Windows PowerShell" };
            terminals.push(terminal("powershell", ps_name, Some(p)));
        },
        None => {
            if probe.system_powershell_exists {
                let sys = system_powershell_path();
                terminals.push(terminal("powershell", "Windows PowerShell", Some(sys.to_owned())));
            } else {
                terminals.push(terminal("powershell", "Windows PowerShell", None));
            }
        },
    }

    // ── CMD ─────────────────────────────────────────────────────────
    let cmd_path = match &probe.cmd_path {
        Some(c) => c.clone(),
        None => "cmd.exe".to_owned(),
    };
    terminals.push(terminal("cmd", "Command Prompt", Some(cmd_path)));

    // ── Git Bash ────────────────────────────────────────────────────
    terminals.push(terminal("gitbash", "Git Bash", copy_opt(&probe.bash_path)));
    assert(terminal_views(terminals@) =~= seq![
        powershell_entry(*probe),
        entry("cmd"@, "Command Prompt"@, Some(match probe.cmd_path { Some(c) => c@, None => "cmd.exe"@ })),
        entry("gitbash"@, "Git Bash"@, opt_string(probe.bash_path)),
    ]);

    // ── Windows Terminal + sub-profiles ──────────────────────────────
    if probe.wt_path.is_some() {
        terminals.push(terminal("terminal", "Windows Terminal", copy_opt(&probe.wt_path)));
        let ghost base = terminal_views(terminals@);
        let profiles = &probe.wt_profiles;
        for i in 0..profiles.len()
            invariant
                terminal_views(terminals@) == base + profiles@.take(i as int).map_values(|p: WtProfile| profile_entry(p)),
        {
            let name = profiles[i].name.as_str();
            let ghost prev = terminals@;
            terminals.push(TerminalInfo {
                id: concat("terminal:", name),
                name: concat("Windows Terminal: ", name),
                path: String::new(),
                available: true,
            });
            assert(terminals@ == prev.push(terminals@.last()));
            assert(terminals@.last()@ == profile_entry(profiles@[i as int]));
            assert(terminal_views(terminals@) =~= terminal_views(prev).push(profile_entry(profiles@[i as int])));
            assert(profiles@.take(i + 1) == profiles@.take(i as int).push(profiles@[i as int]));
            assert(profiles@.take(i + 1).map_values(|p: WtProfile| profile_entry(p)) =~= profiles@.take(i as int).map_values(|p: WtProfile| profile_entry(p)).push(profile_entry(profiles@[i as int])));
            assert(terminal_views(terminals@) =~= base + profiles@.take(i + 1).map_values(|p: WtProfile| profile_entry(p)));
        }
        assert(profiles@.take(profiles@.len() as int) == profiles@);
    }
    terminals
}

// ── Executable lookup ──────────────────────────────────────────────────

/// The file name searched for an executable: `exe_name` with `ext` appended
/// unless it already ends with it.
pub open spec fn exe_name_with(exe_name: Seq<char>, ext: Seq<char>) -> Seq<char> {
    if ext.is_suffix_of(exe_name) { exe_name } else { exe_name + ext }
}

/// The file name searched for an executable (`ext` is ".exe" on Windows, "" elsewhere).
pub fn exe_file_name(exe_name: &str, ext: &str) -> (r: String)
    ensures
        r@ == exe_name_with(exe_name@, ext@),
{
    if ends_with(exe_name, ext) {
        exe_name.to_owned()
    } else {
        concat(exe_name, ext)
    }
}

/// The usual Git Bash locations, in the order they are tried.
pub open spec fn bash_install_paths() -> Seq<Seq<char>> {
    seq![
        "C:\\Program Files\\Git\\bin\\bash.exe"@,
        "D:\\Program Files\\Git\\bin\\bash.exe"@,
        "E:\\Program Files\\Git\\bin\\bash.exe"@,
        "F:\\Program Files\\Git\\bin\\bash.exe"@,
        "C:\\Program Files (x86)\\Git\\bin\\bash.exe"@,
        "D:\\Program Files (x86)\\Git\\bin\\bash.exe"@,
    ]
}

/// The usual Git Bash locations, in the order they are tried.
pub fn bash_install_candidates() -> (r: Vec<String>)
    ensures
        r.deep_view() == bash_install_paths(),
{
    let mut v: Vec<String> = Vec::new();
    v.push("C:\\Program Files\\Git\\bin\\bash.exe".to_owned());
    v.push("D:\\Program Files\\Git\\bin\\bash.exe".to_owned());
    v.push("E:\\Program Files\\Git\\bin\\bash.exe".to_owned());
    v.push("F:\\Program Files\\Git\\bin\\bash.exe".to_owned());
    v.push("C:\\Program Files (x86)\\Git\\bin\\bash.exe".to_owned());
    v.push("D:\\Program Files (x86)\\Git\\bin\\bash.exe".to_owned());
    assert(v.deep_view() =~= bash_install_paths());
    v
}

/// A `PATH` entry that may hold Git Bash: not under System32 (the WSL
/// launcher) nor WindowsApps.
pub open spec fn is_bash_dir(dir: Seq<char>) -> bool {
    !has_sub(lowercase_of(dir), "system32"@) && !has_sub(lowercase_of(dir), "windowsapps"@)
}

/// The `PATH` entries searched for `bash.exe`, in order.
pub fn bash_search_dirs(path_var: &str) -> (r: Vec<String>)
    ensures
        r.deep_view() == split_on(path_var@, ';').filter(|d: Seq<char>| is_bash_dir(d)),
{
    let dirs = split_char(path_var, ';');
    let ghost dv = dirs.deep_view();
    let ghost pred = |d: Seq<char>| is_bash_dir(d);
    let mut out: Vec<String> = Vec::new();
    for i in 0..dirs.len()
        invariant
            dv == dirs.deep_view(),
            pred == (|d: Seq<char>| is_bash_dir(d)),
            out.deep_view() == dv.take(i as int).filter(pred),
    {
        reveal_with_fuel(Seq::<_>::filter, 1);
        let ghost before = out.deep_view();
        assert(dv.take(i + 1).drop_last() =~= dv.take(i as int));
        assert(dv.take(i + 1).last() == dirs@[i as int]@);
        let lower = lowercase(dirs[i].as_str());
        let keep = !contains(lower.as_str(), "system32") && !contains(lower.as_str(), "windowsapps");
        assert(keep == pred(dirs@[i as int]@));
        if keep {
            out.push(dirs[i].clone());
            assert(out.deep_view() =~= before.push(dirs@[i as int]@));
        } else {
            assert(out.deep_view() =~= before);
        }
    }
    assert(dv.take(dv.len() as int) =~= dv);
    out
}

} // verus!
