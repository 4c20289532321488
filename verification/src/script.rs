//! Chain-script building and terminal-argument construction.
//!
//! Everything here is a pure function of its arguments: what the system offers
//! (Windows Terminal profiles, the Git Bash executable, the keep-open setting)
//! comes in through [`SpawnEnv`].

use vstd::prelude::*;
use crate::storage::{Command, CommandStep, copy_steps};
use crate::terminal::{WtProfile, find_profile, profile_shell, find_wt_profile, profile_shell_type};
use crate::text::{after_first, decimal, digit_char, str_eq, starts_with, after_first_char, push_decimal, concat};

verus! {

/// What the system contributes to the arguments of a terminal command.
#[derive(Debug, Clone)]
pub struct SpawnEnv {
    /// Keep the terminal window open after the command finishes.
    pub keep_open: bool,
    /// The Git Bash executable, when one was found.
    pub bash_path: Option<String>,
    /// The listed Windows Terminal profiles.
    pub wt_profiles: Vec<WtProfile>,
}

// ── Specifications ─────────────────────────────────────────────────────

/// The four terminal identifiers that name a shell directly.
pub open spec fn is_plain_terminal(t: Seq<char>) -> bool {
    t == "powershell"@ || t == "cmd"@ || t == "gitbash"@ || t == "wsl"@
}

/// A terminal identifier of the Windows Terminal family (`terminal`, `terminal:<profile>`).
pub open spec fn is_wt_terminal(t: Seq<char>) -> bool {
    "terminal"@.is_prefix_of(t)
}

/// The terminal identifiers that can be launched.
pub open spec fn is_known_terminal(t: Seq<char>) -> bool {
    is_plain_terminal(t) || is_wt_terminal(t)
}

/// The shell behind a Windows Terminal identifier: the profile after the
/// first `:`, looked up among `profiles`; PowerShell when there is no
/// profile name or no such profile.
pub open spec fn wt_shell(t: Seq<char>, profiles: Seq<WtProfile>) -> Seq<char> {
    let pname = after_first(t, ':');
    if pname.len() == 0 {
        "powershell"@
    } else {
        match find_profile(profiles, pname) {
            Some(p) => profile_shell(p),
            None => "powershell"@,
        }
    }
}

/// The shell type for a terminal identifier.
pub open spec fn shell_for(t: Seq<char>, profiles: Seq<WtProfile>) -> Seq<char> {
    if is_plain_terminal(t) {
        t
    } else if is_wt_terminal(t) {
        wt_shell(t, profiles)
    } else {
        "powershell"@
    }
}

/// The separator that waits `delay` seconds in `shell`.
pub open spec fn delay_sep(shell: Seq<char>, delay: nat) -> Seq<char> {
    if shell == "powershell"@ {
        "; Start-Sleep -Seconds "@ + decimal(delay) + "; "@
    } else if shell == "cmd"@ {
        " & timeout /t "@ + decimal(delay) + " /nobreak >nul & "@
    } else {
        " && sleep "@ + decimal(delay) + " && "@
    }
}

/// The separator between two commands that do not wait.
pub open spec fn bare_sep(shell: Seq<char>) -> Seq<char> {
    if shell == "powershell"@ {
        "; "@
    } else if shell == "cmd"@ {
        " & "@
    } else {
        " && "@
    }
}

/// The separator after a step with the given delay.
pub open spec fn step_sep(shell: Seq<char>, delay: nat) -> Seq<char> {
    if delay > 0 {
        delay_sep(shell, delay)
    } else {
        bare_sep(shell)
    }
}

/// Step `i` of the chain: its command, then the separator unless it is the last step.
pub open spec fn chain_part(steps: Seq<CommandStep>, i: int, shell: Seq<char>) -> Seq<char> {
    if i < steps.len() - 1 {
        steps[i].cmd@ + step_sep(shell, steps[i].delay_sec as nat)
    } else {
        steps[i].cmd@
    }
}

/// The first `n` parts of the chain.
pub open spec fn chain_prefix(steps: Seq<CommandStep>, n: nat, shell: Seq<char>) -> Seq<char>
    decreases n,
{
    if n == 0 {
        Seq::empty()
    } else {
        chain_prefix(steps, (n - 1) as nat, shell) + chain_part(steps, n - 1, shell)
    }
}

/// The chained script of `steps` for `shell`.
pub open spec fn chained(steps: Seq<CommandStep>, shell: Seq<char>) -> Seq<char> {
    chain_prefix(steps, steps.len(), shell)
}

/// The steps a command runs: its own steps, or its command line as a single step.
pub open spec fn command_steps_ok(cmd: Command, steps: Seq<CommandStep>) -> bool {
    if cmd.steps@.len() == 0 {
        &&& steps.len() == 1
        &&& steps[0].cmd@ == cmd.command@
        &&& steps[0].delay_sec == 0
        &&& steps[0].note@ == Seq::<char>::empty()
    } else {
        steps == cmd.steps@
    }
}

/// Program and arguments that run `command` in `shell`.
/// `wt`: the command runs inside `wt.exe`.
pub open spec fn invocation(
    shell: Seq<char>,
    command: Seq<char>,
    keep: bool,
    wt: bool,
    bash_path: Option<String>,
) -> (Seq<char>, Seq<Seq<char>>) {
    if shell == "cmd"@ {
        ("cmd.exe"@, seq![if keep { "/k"@ } else { "/c"@ }, command])
    } else if shell == "gitbash"@ {
        let program = match bash_path {
            Some(b) => b@,
            None => if wt { "bash"@ } else { "bash.exe"@ },
        };
        let sep = if wt { "\\;"@ } else { ";"@ };
        (program, seq!["-c"@, if keep { command + sep + " exec bash"@ } else { command }])
    } else if shell == "wsl"@ {
        ("wsl.exe"@, seq!["--"@, "bash"@, "-c"@, if keep { command + "; exec bash"@ } else { command }])
    } else {
        (
            "powershell.exe"@,
            (if keep { seq!["-NoExit"@] } else { Seq::empty() }) + seq!["-Command"@, "& {"@ + command + "}"@],
        )
    }
}

/// The prefix that opens a tab in an existing Windows Terminal window.
pub open spec fn tab_prefix(use_existing: bool, group: Option<Seq<char>>) -> Seq<Seq<char>> {
    if group is Some && group->0.len() > 0 {
        seq!["--window"@, "OS:"@ + group->0, "new-tab"@]
    } else if use_existing {
        seq!["-w"@, "0"@, "new-tab"@]
    } else {
        Seq::empty()
    }
}

/// Program and arguments for a terminal command; `tab` asks for a `wt.exe new-tab`
/// segment (empty program) in place of a standalone process.
pub open spec fn terminal_args(
    command: Seq<char>,
    terminal: Seq<char>,
    use_existing: bool,
    group: Option<Seq<char>>,
    tab: bool,
    env: SpawnEnv,
) -> Result<(Seq<char>, Seq<Seq<char>>), Seq<char>> {
    if is_plain_terminal(terminal) {
        let inv = invocation(terminal, command, env.keep_open, tab, env.bash_path);
        if tab {
            Ok((Seq::empty(), seq!["new-tab"@, inv.0] + inv.1))
        } else {
            Ok(inv)
        }
    } else if is_wt_terminal(terminal) {
        let pname = after_first(terminal, ':');
        let inv = invocation(wt_shell(terminal, env.wt_profiles@), command, env.keep_open, true, env.bash_path);
        if tab {
            Ok((Seq::empty(), seq!["new-tab"@, inv.0] + inv.1))
        } else {
            Ok((
                "wt.exe"@,
                tab_prefix(use_existing, group)
                    + (if pname.len() > 0 { seq!["-p"@, pname, "--"@] } else { Seq::empty() })
                    + seq![inv.0] + inv.1,
            ))
        }
    } else {
        Err("Unknown terminal type: "@ + terminal)
    }
}

/// The view of an optional string slice.
pub open spec fn opt_str(o: Option<&str>) -> Option<Seq<char>> {
    match o {
        Some(s) => Some(s@),
        None => None,
    }
}

/// The view of a program-and-arguments result.
pub open spec fn args_view(r: Result<(String, Vec<String>), String>) -> Result<(Seq<char>, Seq<Seq<char>>), Seq<char>> {
    match r {
        Ok((p, a)) => Ok((p@, a.deep_view())),
        Err(e) => Err(e@),
    }
}

/// The view of an arguments result.
pub open spec fn list_view(r: Result<Vec<String>, String>) -> Result<Seq<Seq<char>>, Seq<char>> {
    match r {
        Ok(a) => Ok(a.deep_view()),
        Err(e) => Err(e@),
    }
}

/// The arguments of the `new-tab` segment for `command` in `terminal`.
pub open spec fn tab_args(command: Seq<char>, terminal: Seq<char>, env: SpawnEnv) -> Result<Seq<Seq<char>>, Seq<char>> {
    match terminal_args(command, terminal, false, None, true, env) {
        Ok(pa) => Ok(pa.1),
        Err(e) => Err(e),
    }
}


/// The arguments for one `wt.exe` call that opens the first `n` commands as tabs,
/// in a window named `OS:<group>` when `group` is not empty.
pub open spec fn batch_prefix(
    cmds: Seq<(String, String)>,
    group: Seq<char>,
    env: SpawnEnv,
    n: nat,
) -> Result<Seq<Seq<char>>, Seq<char>>
    decreases n,
{
    if n == 0 {
        Ok(if group.len() > 0 { seq!["--window"@, "OS:"@ + group] } else { Seq::empty() })
    } else {
        match batch_prefix(cmds, group, env, (n - 1) as nat) {
            Err(e) => Err(e),
            Ok(a) => match tab_args(cmds[n - 1].0@, cmds[n - 1].1@, env) {
                Err(e) => Err(e),
                Ok(t) => Ok(a + (if n > 1 { seq![";"@] } else { Seq::empty() }) + t),
            },
        }
    }
}

/// The `wt.exe` arguments for a batch of `(command, terminal)` pairs; an empty
/// batch needs no window and has no arguments.
pub open spec fn batch_args(cmds: Seq<(String, String)>, group: Seq<char>, env: SpawnEnv) -> Result<Seq<Seq<char>>, Seq<char>> {
    if cmds.len() == 0 {
        Ok(Seq::empty())
    } else {
        batch_prefix(cmds, group, env, cmds.len())
    }
}


/// Once a prefix of the batch fails, every longer prefix fails the same way.
proof fn lemma_batch_err_persists(cmds: Seq<(String, String)>, group: Seq<char>, env: SpawnEnv, k: nat, m: nat)
    requires
        k <= m,
        batch_prefix(cmds, group, env, k) is Err,
    ensures
        batch_prefix(cmds, group, env, m) == batch_prefix(cmds, group, env, k),
    decreases m - k,
{
    if k < m {
        lemma_batch_err_persists(cmds, group, env, k, (m - 1) as nat);
    }
}

// ── Shell resolution ───────────────────────────────────────────────────

/// The shell behind a `terminal…` identifier.
fn wt_profile_shell(terminal: &str, profiles: &[WtProfile]) -> (r: &'static str)
    ensures
        r@ == wt_shell(terminal@, profiles@),
{
    let pname = after_first_char(terminal, ':');
    if pname.is_empty() {
        "powershell"
    } else {
        match find_wt_profile(pname, profiles) {
            Some(p) => profile_shell_type(&p),
            None => "powershell",
        }
    }
}

/// Resolves the shell type string for a terminal identifier; `terminal:<profile>`
/// identifiers are looked up among `profiles`.
pub fn shell_of(terminal: &str, profiles: &[WtProfile]) -> (r: &'static str)
    ensures
        r@ == shell_for(terminal@, profiles@),
{
    if str_eq(terminal, "powershell") {
        "powershell"
    } else if str_eq(terminal, "cmd") {
        "cmd"
    } else if str_eq(terminal, "gitbash") {
        "gitbash"
    } else if str_eq(terminal, "wsl") {
        "wsl"
    } else if starts_with(terminal, "terminal") {
        wt_profile_shell(terminal, profiles)
    } else {
        "powershell"
    }
}

// ── Chain scripts ──────────────────────────────────────────────────────

/// Appends the separator that follows a step with `delay` seconds.
fn push_step_sep(out: &mut String, shell: &str, delay: u64)
    ensures
        final(out)@ == old(out)@ + step_sep(shell@, delay as nat),
{
    let ps = str_eq(shell, "powershell");
    let cmd = str_eq(shell, "cmd");
    if delay > 0 {
        if ps {
            out.append("; Start-Sleep -Seconds ");
            push_decimal(out, delay);
            out.append("; ");
        } else if cmd {
            out.append(" & timeout /t ");
            push_decimal(out, delay);
            out.append(" /nobreak >nul & ");
        } else {
            out.append(" && sleep ");
            push_decimal(out, delay);
            out.append(" && ");
        }
    } else if ps {
        out.append("; ");
    } else if cmd {
        out.append(" & ");
    } else {
        out.append(" && ");
    }
}

/// Builds a shell-chained script from command steps with delay separators.
/// The delay is attached to the step BEFORE it. The last step's delay is NOT used.
/// Uses `&&` for gitbash to avoid wt.exe parsing `;` as action separator.
pub fn build_chained_script(steps: &[CommandStep], shell: &str) -> (r: String)
    ensures
        r@ == chained(steps@, shell@),
{
    let mut out = String::new();
    let n = steps.len();
    for i in 0..n
        invariant
            n == steps@.len(),
            out@ == chain_prefix(steps@, i as nat, shell@),
    {
        out.append(steps[i].cmd.as_str());
        if i < n - 1 {
            push_step_sep(&mut out, shell, steps[i].delay_sec);
        }
    }
    out
}

/// The command steps of a command (legacy commands run their command line as one step).
pub fn steps_for_command(cmd: &Command) -> (r: Vec<CommandStep>)
    ensures
        command_steps_ok(*cmd, r@),
{
    if cmd.steps.len() == 0 {
        let mut v: Vec<CommandStep> = Vec::new();
        v.push(CommandStep { cmd: cmd.command.clone(), delay_sec: 0, note: String::new() });
        v
    } else {
        copy_steps(cmd.steps.as_slice())
    }
}

// ── Argument building ──────────────────────────────────────────────────

/// Which flavor of arguments to produce for a resolved terminal command.
enum SpawnMode {
    /// Standalone process: `(program, args)` for a new process.
    Standalone,
    /// A `wt.exe new-tab <shell> …` segment for batching into one WT window.
    WtTab,
}

/// An owned copy of `s`.
fn owned(s: &str) -> (r: String)
    ensures
        r@ == s@,
{
    s.to_owned()
}

/// Builds the prefix args for opening a tab in an existing WT window.
/// If `group` is set, `--window "OS:<name>"` targets the group's named window;
/// otherwise, if `use_existing` is true, `-w 0` targets the most recent window.
fn wt_tab_prefix(use_existing: bool, group: Option<&str>) -> (r: Vec<String>)
    ensures
        r.deep_view() == tab_prefix(use_existing, opt_str(group)),
{
    let mut v: Vec<String> = Vec::new();
    if let Some(name) = group {
        if !name.is_empty() {
            v.push(owned("--window"));
            v.push(concat("OS:", name));
            v.push(owned("new-tab"));
            assert(v.deep_view() =~= tab_prefix(use_existing, opt_str(group)));
            return v;
        }
    }
    if use_existing {
        v.push(owned("-w"));
        v.push(owned("0"));
        v.push(owned("new-tab"));
    }
    assert(v.deep_view() =~= tab_prefix(use_existing, opt_str(group)));
    v
}

/// Resolves the concrete shell program and args that actually run `command`.
///
/// `wt` = the command runs inside `wt.exe`, which changes gitbash `;` escaping
/// (needs `\;`) and the bash executable fallback (`bash` vs `bash.exe`).
fn shell_invocation(
    shell: &str,
    command: &str,
    keep: bool,
    wt: bool,
    bash_path: &Option<String>,
) -> (r: (String, Vec<String>))
    ensures
        (r.0@, r.1.deep_view()) == invocation(shell@, command@, keep, wt, *bash_path),
{
    let ghost expected = invocation(shell@, command@, keep, wt, *bash_path);
    let mut args: Vec<String> = Vec::new();
    if str_eq(shell, "cmd") {
        args.push(if keep { owned("/k") } else { owned("/c") });
        args.push(owned(command));
        assert(args.deep_view() =~= expected.1);
        (owned("cmd.exe"), args)
    } else if str_eq(shell, "gitbash") {
        let program = match bash_path {
            Some(b) => b.clone(),
            None => if wt { owned("bash") } else { owned("bash.exe") },
        };
        let sep = if wt { "\\;" } else { ";" };
        args.push(owned("-c"));
        if keep {
            let with_sep = concat(command, sep);
            args.push(concat(with_sep.as_str(), " exec bash"));
        } else {
            args.push(owned(command));
        }
        assert(args.deep_view() =~= expected.1);
        (program, args)
    } else if str_eq(shell, "wsl") {
        args.push(owned("--"));
        args.push(owned("bash"));
        args.push(owned("-c"));
        if keep {
            args.push(concat(command, "; exec bash"));
        } else {
            args.push(owned(command));
        }
        assert(args.deep_view() =~= expected.1);
        (owned("wsl.exe"), args)
    } else {
        if keep {
            args.push(owned("-NoExit"));
        }
        args.push(owned("-Command"));
        let open = concat("& {", command);
        args.push(concat(open.as_str(), "}"));
        assert(args.deep_view() =~= expected.1);
        (owned("powershell.exe"), args)
    }
}

/// Appends `b` to `a`, keeping the views in step.
fn extend_strings(a: &mut Vec<String>, b: Vec<String>)
    ensures
        final(a).deep_view() == old(a).deep_view() + b.deep_view(),
{
    let mut b = b;
    let ghost bv = b.deep_view();
    let ghost av = a.deep_view();
    a.append(&mut b);
    assert(a.deep_view() =~= av + bv);
}

/// Unified terminal-argument builder behind `build_spawn_args` and
/// `build_wt_tab_args`, so the per-terminal match lives in exactly one place.
///
/// For `SpawnMode::Standalone` the returned program is the real executable.
/// For `SpawnMode::WtTab` the program is empty and the args are a `new-tab` segment.
fn build_terminal_args(
    command: &str,
    terminal: &str,
    use_existing_window: bool,
    group_name: Option<&str>,
    mode: SpawnMode,
    env: &SpawnEnv,
) -> (r: Result<(String, Vec<String>), String>)
    ensures
        args_view(r) == terminal_args(
            command@,
            terminal@,
            use_existing_window,
            opt_str(group_name),
            mode is WtTab,
            *env,
        ),
{
    let keep = env.keep_open;
    let tab = match mode {
        SpawnMode::Standalone => false,
        SpawnMode::WtTab => true,
    };
    let ghost expected = terminal_args(command@, terminal@, use_existing_window, opt_str(group_name), tab, *env);
    let plain = str_eq(terminal, "powershell") || str_eq(terminal, "cmd") || str_eq(terminal, "gitbash")
        || str_eq(terminal, "wsl");
    if plain {
        let (program, inner) = shell_invocation(terminal, command, keep, tab, &env.bash_path);
        if tab {
            let mut args: Vec<String> = Vec::new();
            args.push(owned("new-tab"));
            args.push(program);
            let ghost head = args.deep_view();
            assert(head =~= seq!["new-tab"@, program@]);
            extend_strings(&mut args, inner);
            proof { reveal_strlit(""); }
            assert(args.deep_view() == expected->Ok_0.1);
            Ok((String::new(), args))
        } else {
            Ok((program, inner))
        }
    } else if starts_with(terminal, "terminal") {
        let profile_name = after_first_char(terminal, ':');
        let shell = wt_profile_shell(terminal, env.wt_profiles.as_slice());
        // Everything under `terminal*` runs inside wt.exe.
        let (shell_program, shell_args) = shell_invocation(shell, command, keep, true, &env.bash_path);
        if tab {
            let mut args: Vec<String> = Vec::new();
            args.push(owned("new-tab"));
            args.push(shell_program);
            let ghost head = args.deep_view();
            assert(head =~= seq!["new-tab"@, shell_program@]);
            extend_strings(&mut args, shell_args);
            proof { reveal_strlit(""); }
            assert(args.deep_view() == expected->Ok_0.1);
            Ok((String::new(), args))
        } else {
            let mut args = wt_tab_prefix(use_existing_window, group_name);
            if !profile_name.is_empty() {
                let mut p: Vec<String> = Vec::new();
                p.push(owned("-p"));
                p.push(owned(profile_name));
                p.push(owned("--"));
                assert(p.deep_view() =~= seq!["-p"@, profile_name@, "--"@]);
                extend_strings(&mut args, p);
            }
            let mut q: Vec<String> = Vec::new();
            q.push(shell_program);
            assert(q.deep_view() =~= seq![shell_program@]);
            extend_strings(&mut args, q);
            extend_strings(&mut args, shell_args);
            assert(args.deep_view() == expected->Ok_0.1);
            Ok((owned("wt.exe"), args))
        }
    } else {
        Err(concat("Unknown terminal type: ", terminal))
    }
}

/// Builds the (program, args) pair for spawning a terminal command.
pub fn build_spawn_args(
    command: &str,
    terminal: &str,
    use_existing_window: bool,
    group_name: Option<&str>,
    env: &SpawnEnv,
) -> (r: Result<(String, Vec<String>), String>)
    ensures
        args_view(r) == terminal_args(command@, terminal@, use_existing_window, opt_str(group_name), false, *env),
{
    build_terminal_args(command, terminal, use_existing_window, group_name, SpawnMode::Standalone, env)
}

/// Builds the args of a single wt.exe `new-tab` segment (no program prefix).
pub fn build_wt_tab_args(command: &str, terminal: &str, env: &SpawnEnv) -> (r: Result<Vec<String>, String>)
    ensures
        list_view(r) == tab_args(command@, terminal@, *env),
{
    match build_terminal_args(command, terminal, false, None, SpawnMode::WtTab, env) {
        Ok((_program, args)) => Ok(args),
        Err(e) => Err(e),
    }
}

/// Builds the `wt.exe` arguments that open `commands` (pairs of command and
/// terminal) as tabs of a single Windows Terminal window. When `group_name` is
/// not empty the window is named `OS:<group_name>` for later targeting.
pub fn build_batch_args(commands: &[(String, String)], group_name: &str, env: &SpawnEnv) -> (r: Result<Vec<String>, String>)
    ensures
        list_view(r) == batch_args(commands@, group_name@, *env),
{
    let mut all_args: Vec<String> = Vec::new();
    if commands.len() == 0 {
        assert(all_args.deep_view() =~= Seq::<Seq<char>>::empty());
        return Ok(all_args);
    }
    if !group_name.is_empty() {
        all_args.push(owned("--window"));
        all_args.push(concat("OS:", group_name));
    }
    assert(all_args.deep_view() =~= batch_prefix(commands@, group_name@, *env, 0)->Ok_0);
    let n = commands.len();
    for i in 0..n
        invariant
            n == commands@.len(),
            batch_prefix(commands@, group_name@, *env, i as nat) == Ok::<Seq<Seq<char>>, Seq<char>>(all_args.deep_view()),
    {
        let ghost before = all_args.deep_view();
        if i > 0 {
            all_args.push(owned(";"));
        }
        let ghost mid = all_args.deep_view();
        assert(mid =~= before + (if i > 0 { seq![";"@] } else { Seq::<Seq<char>>::empty() }));
        match build_wt_tab_args(commands[i].0.as_str(), commands[i].1.as_str(), env) {
            Ok(tab) => {
                extend_strings(&mut all_args, tab);
            },
            Err(e) => {
                proof {
                    lemma_batch_err_persists(commands@, group_name@, *env, (i + 1) as nat, n as nat);
                }
                return Err(e);
            },
        }
    }
    Ok(all_args)
}

// ── Laws ───────────────────────────────────────────────────────────────

/// No steps give an empty script.
pub proof fn law_chain_empty(shell: Seq<char>)
    ensures
        chained(Seq::<CommandStep>::empty(), shell) == Seq::<char>::empty(),
{
}

/// A single step gives exactly its command: its delay is never used.
pub proof fn law_chain_single(steps: Seq<CommandStep>, shell: Seq<char>)
    requires
        steps.len() == 1,
    ensures
        chained(steps, shell) == steps[0].cmd@,
{
    assert(chain_prefix(steps, 0, shell) == Seq::<char>::empty());
    assert(chained(steps, shell) =~= steps[0].cmd@);
}

proof fn lemma_prefix_same(s1: Seq<CommandStep>, s2: Seq<CommandStep>, shell: Seq<char>, n: nat)
    requires
        n <= s1.len(),
        s1.len() == s2.len(),
        forall|i: int| 0 <= i < s1.len() ==> #[trigger] s1[i].cmd@ == s2[i].cmd@,
        forall|i: int| 0 <= i < s1.len() - 1 ==> #[trigger] s1[i].delay_sec == s2[i].delay_sec,
    ensures
        chain_prefix(s1, n, shell) == chain_prefix(s2, n, shell),
    decreases n,
{
    if n > 0 {
        lemma_prefix_same(s1, s2, shell, (n - 1) as nat);
        assert(s1[n - 1].cmd@ == s2[n - 1].cmd@);
        if n - 1 < s1.len() - 1 {
            assert(s1[n - 1].delay_sec == s2[n - 1].delay_sec);
        }
        assert(chain_part(s1, n - 1, shell) == chain_part(s2, n - 1, shell));
    }
}

/// The script depends only on the step commands and on the delays of all but
/// the last step: the delay is attached to the step before the next one, so the
/// last step's delay (and every note) is not used.
pub proof fn law_chain_ignores_last_delay(s1: Seq<CommandStep>, s2: Seq<CommandStep>, shell: Seq<char>)
    requires
        s1.len() == s2.len(),
        forall|i: int| 0 <= i < s1.len() ==> #[trigger] s1[i].cmd@ == s2[i].cmd@,
        forall|i: int| 0 <= i < s1.len() - 1 ==> #[trigger] s1[i].delay_sec == s2[i].delay_sec,
    ensures
        chained(s1, shell) == chained(s2, shell),
{
    lemma_prefix_same(s1, s2, shell, s1.len());
}

proof fn lemma_prefix_concat_left(a: Seq<CommandStep>, b: Seq<CommandStep>, shell: Seq<char>, n: nat)
    requires
        n < a.len(),
        b.len() > 0,
    ensures
        chain_prefix(a + b, n, shell) == chain_prefix(a, n, shell),
    decreases n,
{
    if n > 0 {
        lemma_prefix_concat_left(a, b, shell, (n - 1) as nat);
        assert((a + b)[n - 1] == a[n - 1]);
        assert(chain_part(a + b, n - 1, shell) == chain_part(a, n - 1, shell));
    }
}

proof fn lemma_prefix_concat_right(a: Seq<CommandStep>, b: Seq<CommandStep>, shell: Seq<char>, k: nat)
    requires
        a.len() > 0,
        b.len() > 0,
        k <= b.len(),
    ensures
        chain_prefix(a + b, a.len() + k, shell)
            == chained(a, shell) + step_sep(shell, a.last().delay_sec as nat) + chain_prefix(b, k, shell),
    decreases k,
{
    let ab = a + b;
    if k == 0 {
        let m = (a.len() - 1) as nat;
        lemma_prefix_concat_left(a, b, shell, m);
        assert(ab[m as int] == a.last());
        assert(chain_part(ab, m as int, shell) == a.last().cmd@ + step_sep(shell, a.last().delay_sec as nat));
        assert(chain_part(a, m as int, shell) == a.last().cmd@);
        assert(chain_prefix(ab, a.len(), shell) == chain_prefix(ab, m, shell) + chain_part(ab, m as int, shell));
        assert(chained(a, shell) == chain_prefix(a, m, shell) + chain_part(a, m as int, shell));
        assert(chain_prefix(b, 0, shell) == Seq::<char>::empty());
        assert(chain_prefix(ab, a.len() + k, shell) =~= chained(a, shell) + step_sep(shell, a.last().delay_sec as nat)
            + chain_prefix(b, k, shell));
    } else {
        lemma_prefix_concat_right(a, b, shell, (k - 1) as nat);
        let j = a.len() + k - 1;
        assert(ab[j] == b[k - 1]);
        assert(chain_part(ab, j, shell) == chain_part(b, k - 1, shell));
        assert(chain_prefix(ab, a.len() + k, shell) == chain_prefix(ab, (a.len() + k - 1) as nat, shell) + chain_part(ab, j, shell));
        assert(chain_prefix(b, k, shell) == chain_prefix(b, (k - 1) as nat, shell) + chain_part(b, k - 1, shell));
        assert(chain_prefix(ab, a.len() + k, shell) =~= chained(a, shell) + step_sep(shell, a.last().delay_sec as nat)
            + chain_prefix(b, k, shell));
    }
}

/// Appending steps appends their script, joined by the separator that the last
/// earlier step's delay calls for.
pub proof fn law_chain_concat(a: Seq<CommandStep>, b: Seq<CommandStep>, shell: Seq<char>)
    requires
        a.len() > 0,
        b.len() > 0,
    ensures
        chained(a + b, shell) == chained(a, shell) + step_sep(shell, a.last().delay_sec as nat) + chained(b, shell),
{
    lemma_prefix_concat_right(a, b, shell, b.len());
    assert((a + b).len() == a.len() + b.len());
}

proof fn lemma_prefix_starts(steps: Seq<CommandStep>, shell: Seq<char>, n: nat)
    requires
        1 <= n <= steps.len(),
    ensures
        steps[0].cmd@.is_prefix_of(chain_prefix(steps, n, shell)),
    decreases n,
{
    let c = steps[0].cmd@;
    if n == 1 {
        assert(chain_prefix(steps, 0, shell) == Seq::<char>::empty());
        assert(chain_prefix(steps, 1, shell) =~= chain_part(steps, 0, shell));
        assert(c =~= chain_part(steps, 0, shell).subrange(0, c.len() as int));
    } else {
        lemma_prefix_starts(steps, shell, (n - 1) as nat);
        let p = chain_prefix(steps, (n - 1) as nat, shell);
        let q = chain_prefix(steps, n, shell);
        assert(q == p + chain_part(steps, n - 1, shell));
        assert(c =~= q.subrange(0, c.len() as int));
    }
}

/// A non-empty chain starts with the first step's command.
pub proof fn law_chain_starts_with_first(steps: Seq<CommandStep>, shell: Seq<char>)
    requires
        steps.len() > 0,
    ensures
        steps[0].cmd@.is_prefix_of(chained(steps, shell)),
{
    lemma_prefix_starts(steps, shell, steps.len());
}


proof fn lemma_decimal_digits(n: nat)
    ensures
        forall|i: int| 0 <= i < decimal(n).len() ==> '0' <= #[trigger] decimal(n)[i] <= '9',
    decreases n,
{
    if n >= 10 {
        lemma_decimal_digits(n / 10);
        let d = decimal(n / 10);
        assert(decimal(n) == d.push(digit_char(n % 10)));
        assert forall|i: int| 0 <= i < decimal(n).len() implies '0' <= #[trigger] decimal(n)[i] <= '9' by {
            if i < d.len() {
                assert(decimal(n)[i] == d[i]);
            }
        }
    }
}

/// For Git Bash, WSL and other shells the separators use `&&`, never `;`,
/// which `wt.exe` would take as its own action separator.
pub proof fn law_bash_separators_avoid_semicolon(shell: Seq<char>, delay: nat)
    requires
        shell != "powershell"@,
        shell != "cmd"@,
    ensures
        forall|i: int| 0 <= i < step_sep(shell, delay).len() ==> #[trigger] step_sep(shell, delay)[i] != ';',
{
    reveal_strlit(" && sleep ");
    reveal_strlit(" && ");
    lemma_decimal_digits(delay);
    let s = step_sep(shell, delay);
    if delay > 0 {
        let a = " && sleep "@;
        let d = decimal(delay);
        let b = " && "@;
        assert(s == a + d + b);
        assert forall|i: int| 0 <= i < s.len() implies #[trigger] s[i] != ';' by {
            if i < a.len() {
                assert(s[i] == a[i]);
            } else if i < a.len() + d.len() {
                assert(s[i] == d[i - a.len()]);
            } else {
                assert(s[i] == b[i - a.len() - d.len()]);
            }
        }
    }
}


/// Every identifier of the Windows Terminal family (`terminal…`) is distinct
/// from the four plain terminal names.
pub proof fn law_wt_terminal_is_not_plain(t: Seq<char>)
    requires
        is_wt_terminal(t),
    ensures
        !is_plain_terminal(t),
{
    reveal_strlit("terminal");
    reveal_strlit("powershell");
    reveal_strlit("cmd");
    reveal_strlit("gitbash");
    reveal_strlit("wsl");
    assert(t[0] == "terminal"@[0]);
    assert("powershell"@[0] == 'p');
    assert("cmd"@[0] == 'c');
    assert("gitbash"@[0] == 'g');
    assert("wsl"@[0] == 'w');
}

/// A standalone Windows Terminal launch targets the group's named window
/// `OS:<group>` whenever a non-empty group is given, whether or not the
/// latest window was asked for; `-w 0` (the latest window) is used only when
/// there is no such group and the latest window was asked for; with neither,
/// a named profile comes first.
pub proof fn law_group_window_targeting(
    command: Seq<char>,
    terminal: Seq<char>,
    use_existing: bool,
    group: Option<Seq<char>>,
    env: SpawnEnv,
)
    requires
        is_wt_terminal(terminal),
    ensures
        terminal_args(command, terminal, use_existing, group, false, env) is Ok,
        ({
            let pa = terminal_args(command, terminal, use_existing, group, false, env)->Ok_0;
            let named = group is Some && group->0.len() > 0;
            &&& pa.0 == "wt.exe"@
            &&& named ==> pa.1.len() >= 3 && pa.1.take(3) == seq!["--window"@, "OS:"@ + group->0, "new-tab"@]
            &&& !named && use_existing ==> pa.1.len() >= 3 && pa.1.take(3) == seq!["-w"@, "0"@, "new-tab"@]
            &&& !named && !use_existing && after_first(terminal, ':').len() > 0 ==> pa.1.len() > 0 && pa.1[0] == "-p"@
        }),
{
    law_wt_terminal_is_not_plain(terminal);
    let pa = terminal_args(command, terminal, use_existing, group, false, env)->Ok_0;
    let pname = after_first(terminal, ':');
    let inv = invocation(wt_shell(terminal, env.wt_profiles@), command, env.keep_open, true, env.bash_path);
    let rest = (if pname.len() > 0 { seq!["-p"@, pname, "--"@] } else { Seq::<Seq<char>>::empty() }) + seq![inv.0] + inv.1;
    assert(pa.1 =~= tab_prefix(use_existing, group) + rest);
    if group is Some && group->0.len() > 0 {
        assert(pa.1.take(3) =~= seq!["--window"@, "OS:"@ + group->0, "new-tab"@]);
    } else if use_existing {
        assert(pa.1.take(3) =~= seq!["-w"@, "0"@, "new-tab"@]);
    } else if pname.len() > 0 {
        assert(pa.1[0] == "-p"@);
    }
}

/// Git Bash runs the executable that was found, inside `wt.exe` as well as
/// standalone; only when none was found does it fall back to `bash` (inside
/// `wt.exe`) or `bash.exe` (standalone).
pub proof fn law_found_bash_is_used(command: Seq<char>, keep: bool, wt: bool, bash_path: Option<String>)
    ensures
        bash_path matches Some(b) ==> invocation("gitbash"@, command, keep, wt, bash_path).0 == b@,
        bash_path is None && wt ==> invocation("gitbash"@, command, keep, wt, bash_path).0 == "bash"@,
        bash_path is None && !wt ==> invocation("gitbash"@, command, keep, wt, bash_path).0 == "bash.exe"@,
{
    reveal_strlit("gitbash");
    reveal_strlit("cmd");
    assert("gitbash"@ != "cmd"@) by {
        assert("gitbash"@.len() != "cmd"@.len());
    }
}

/// A tab whose shell is Git Bash runs the found Git Bash executable, and a
/// standalone `gitbash` launch does too.
pub proof fn law_tab_and_standalone_use_found_bash(command: Seq<char>, terminal: Seq<char>, env: SpawnEnv)
    requires
        is_known_terminal(terminal),
        shell_for(terminal, env.wt_profiles@) == "gitbash"@,
        env.bash_path is Some,
    ensures
        tab_args(command, terminal, env) is Ok,
        tab_args(command, terminal, env)->Ok_0.len() >= 2,
        tab_args(command, terminal, env)->Ok_0[0] == "new-tab"@,
        tab_args(command, terminal, env)->Ok_0[1] == env.bash_path->0@,
        terminal == "gitbash"@ ==> terminal_args(command, terminal, false, None, false, env) is Ok
            && terminal_args(command, terminal, false, None, false, env)->Ok_0.0 == env.bash_path->0@,
{
    law_tab_runs_shell_of(command, terminal, env);
    law_found_bash_is_used(command, env.keep_open, true, env.bash_path);
    law_found_bash_is_used(command, env.keep_open, false, env.bash_path);
}

/// Steps without a delay are still separated: the separator is never empty,
/// and for every shell other than PowerShell and CMD it is exactly ` && `.
pub proof fn law_no_delay_separator(shell: Seq<char>)
    ensures
        step_sep(shell, 0).len() > 0,
        shell != "powershell"@ && shell != "cmd"@ ==> step_sep(shell, 0) == " && "@,
        shell == "powershell"@ ==> step_sep(shell, 0) == "; "@,
        shell == "cmd"@ ==> step_sep(shell, 0) == " & "@,
{
    reveal_strlit("; ");
    reveal_strlit(" & ");
    reveal_strlit(" && ");
    reveal_strlit("powershell");
    reveal_strlit("cmd");
    assert("cmd"@ != "powershell"@) by {
        assert("cmd"@.len() != "powershell"@.len());
    }
}

/// Two commands are never glued together: the script of two steps is the
/// first command, a non-empty separator, then the second command; without a
/// delay, shells other than PowerShell and CMD join them with ` && `.
pub proof fn law_two_steps_are_separated(steps: Seq<CommandStep>, shell: Seq<char>)
    requires
        steps.len() == 2,
    ensures
        exists|sep: Seq<char>| sep.len() > 0 && chained(steps, shell) == steps[0].cmd@ + sep + steps[1].cmd@,
        steps[0].delay_sec == 0 && shell != "powershell"@ && shell != "cmd"@ ==> chained(steps, shell)
            == steps[0].cmd@ + " && "@ + steps[1].cmd@,
{
    law_no_delay_separator(shell);
    let sep = step_sep(shell, steps[0].delay_sec as nat);
    assert(sep.len() > 0) by {
        if steps[0].delay_sec > 0 {
            let d = decimal(steps[0].delay_sec as nat);
            reveal_strlit("; Start-Sleep -Seconds ");
            reveal_strlit(" & timeout /t ");
            reveal_strlit(" && sleep ");
        }
    }
    assert(chain_prefix(steps, 0, shell) == Seq::<char>::empty());
    assert(chain_prefix(steps, 1, shell) == chain_prefix(steps, 0, shell) + chain_part(steps, 0, shell));
    assert(chained(steps, shell) == chain_prefix(steps, 1, shell) + chain_part(steps, 1, shell));
    assert(chained(steps, shell) =~= steps[0].cmd@ + sep + steps[1].cmd@);
}

/// Every command has at least one step to run.
pub proof fn law_command_has_steps(cmd: Command, steps: Seq<CommandStep>)
    requires
        command_steps_ok(cmd, steps),
    ensures
        steps.len() > 0,
{
}

/// The shell type is always one of `powershell`, `cmd`, `gitbash`, `wsl`.
pub proof fn law_shell_is_known(t: Seq<char>, profiles: Seq<WtProfile>)
    ensures
        is_plain_terminal(shell_for(t, profiles)),
{
}

/// `terminal` and `terminal:` with no profile, or with a profile that is not
/// among `profiles`, run PowerShell.
pub proof fn law_wt_defaults_to_powershell(t: Seq<char>, profiles: Seq<WtProfile>)
    requires
        is_wt_terminal(t),
        !is_plain_terminal(t),
        after_first(t, ':').len() == 0 || find_profile(profiles, after_first(t, ':')) is None,
    ensures
        shell_for(t, profiles) == "powershell"@,
{
}

/// Only known terminal identifiers are launched; any other one is refused with
/// the same message whether it was asked for a standalone process or a tab.
pub proof fn law_unknown_terminal_refused(
    command: Seq<char>,
    terminal: Seq<char>,
    use_existing: bool,
    group: Option<Seq<char>>,
    tab: bool,
    env: SpawnEnv,
)
    ensures
        terminal_args(command, terminal, use_existing, group, tab, env) is Err <==> !is_known_terminal(terminal),
        !is_known_terminal(terminal) ==> terminal_args(command, terminal, use_existing, group, tab, env)
            == Err::<(Seq<char>, Seq<Seq<char>>), Seq<char>>("Unknown terminal type: "@ + terminal),
{
}

/// A Windows Terminal tab runs the shell that `shell_of` reports, invoked as
/// inside `wt.exe`.
pub proof fn law_tab_runs_shell_of(command: Seq<char>, terminal: Seq<char>, env: SpawnEnv)
    requires
        is_known_terminal(terminal),
    ensures
        ({
            let inv = invocation(shell_for(terminal, env.wt_profiles@), command, env.keep_open, true, env.bash_path);
            tab_args(command, terminal, env) == Ok::<Seq<Seq<char>>, Seq<char>>(seq!["new-tab"@, inv.0] + inv.1)
        }),
{
}

/// Window targeting (existing window, group window) only concerns Windows
/// Terminal: a plain terminal runs its own shell as a standalone process.
pub proof fn law_plain_terminal_standalone(
    command: Seq<char>,
    terminal: Seq<char>,
    use_existing: bool,
    group: Option<Seq<char>>,
    env: SpawnEnv,
)
    requires
        is_plain_terminal(terminal),
    ensures
        terminal_args(command, terminal, use_existing, group, false, env)
            == Ok::<(Seq<char>, Seq<Seq<char>>), Seq<char>>(invocation(terminal, command, env.keep_open, false, env.bash_path)),
{
}

} // verus!
