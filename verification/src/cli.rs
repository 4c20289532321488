//! The command-line interface: reading the arguments that follow `--cli`, and
//! the program that runs a command directly in a terminal.

use vstd::prelude::*;
use crate::script::{is_wt_terminal, wt_shell};
use crate::terminal::{WtProfile, find_profile, find_wt_profile, profile_shell_type};
use crate::text::{after_first, after_first_char, concat, join, join_strings, starts_with, str_eq, strings_from};

verus! {

/// A request on the command line.
#[derive(Debug, Clone, PartialEq, Eq)]
pub enum CliRequest {
    /// No subcommand: print the help.
    Help,
    /// `list`
    List,
    /// `add <name> <command> <terminal> [--auto]`
    Add { name: String, command: String, terminal: String, auto_start: bool },
    /// `delete <id>`
    Delete { id: String },
    /// `run-all`
    RunAll,
    /// `status`
    Status,
    /// `enable`
    Enable,
    /// `disable`
    Disable,
    /// `exec <terminal> <command…>`
    Exec { terminal: String, command: String },
    /// `run <id>`
    Run { id: String },
    /// A known subcommand with too few arguments.
    Usage { subcommand: String },
    /// An unknown subcommand.
    Unknown { subcommand: String },
}

/// The spec view of a [`CliRequest`].
pub enum CliView {
    Help,
    List,
    Add { name: Seq<char>, command: Seq<char>, terminal: Seq<char>, auto_start: bool },
    Delete { id: Seq<char> },
    RunAll,
    Status,
    Enable,
    Disable,
    Exec { terminal: Seq<char>, command: Seq<char> },
    Run { id: Seq<char> },
    Usage { subcommand: Seq<char> },
    Unknown { subcommand: Seq<char> },
}

impl View for CliRequest {
    type V = CliView;

    open spec fn view(&self) -> CliView {
        match self {
            CliRequest::Help => CliView::Help,
            CliRequest::List => CliView::List,
            CliRequest::Add { name, command, terminal, auto_start } => CliView::Add {
                name: name@,
                command: command@,
                terminal: terminal@,
                auto_start: *auto_start,
            },
            CliRequest::Delete { id } => CliView::Delete { id: id@ },
            CliRequest::RunAll => CliView::RunAll,
            CliRequest::Status => CliView::Status,
            CliRequest::Enable => CliView::Enable,
            CliRequest::Disable => CliView::Disable,
            CliRequest::Exec { terminal, command } => CliView::Exec { terminal: terminal@, command: command@ },
            CliRequest::Run { id } => CliView::Run { id: id@ },
            CliRequest::Usage { subcommand } => CliView::Usage { subcommand: subcommand@ },
            CliRequest::Unknown { subcommand } => CliView::Unknown { subcommand: subcommand@ },
        }
    }
}

/// The request that the arguments after `--cli` make.
pub open spec fn cli_request(args: Seq<Seq<char>>) -> CliView {
    if args.len() == 0 {
        CliView::Help
    } else {
        let sub = args[0];
        if sub == "list"@ {
            CliView::List
        } else if sub == "add"@ {
            if args.len() < 4 {
                CliView::Usage { subcommand: sub }
            } else {
                CliView::Add {
                    name: args[1],
                    command: args[2],
                    terminal: args[3],
                    auto_start: args.len() > 4 && args[4] == "--auto"@,
                }
            }
        } else if sub == "delete"@ {
            if args.len() < 2 { CliView::Usage { subcommand: sub } } else { CliView::Delete { id: args[1] } }
        } else if sub == "run-all"@ {
            CliView::RunAll
        } else if sub == "status"@ {
            CliView::Status
        } else if sub == "enable"@ {
            CliView::Enable
        } else if sub == "disable"@ {
            CliView::Disable
        } else if sub == "exec"@ {
            if args.len() < 3 {
                CliView::Usage { subcommand: sub }
            } else {
                CliView::Exec { terminal: args[1], command: join(args.skip(2), " "@) }
            }
        } else if sub == "run"@ {
            if args.len() < 2 { CliView::Usage { subcommand: sub } } else { CliView::Run { id: args[1] } }
        } else {
            CliView::Unknown { subcommand: sub }
        }
    }
}

/// Reads the arguments that follow `--cli`.
pub fn parse_cli(args: &[String]) -> (r: CliRequest)
    ensures
        r@ == cli_request(args@.map_values(|s: String| s@)),
{
    let ghost v = args@.map_values(|s: String| s@);
    if args.len() == 0 {
        return CliRequest::Help;
    }
    let sub = args[0].as_str();
    assert(sub@ == v[0]);
    if str_eq(sub, "list") {
        CliRequest::List
    } else if str_eq(sub, "add") {
        if args.len() < 4 {
            CliRequest::Usage { subcommand: sub.to_owned() }
        } else {
            let auto_start = args.len() > 4 && str_eq(args[4].as_str(), "--auto");
            CliRequest::Add {
                name: args[1].clone(),
                command: args[2].clone(),
                terminal: args[3].clone(),
                auto_start,
            }
        }
    } else if str_eq(sub, "delete") {
        if args.len() < 2 {
            CliRequest::Usage { subcommand: sub.to_owned() }
        } else {
            CliRequest::Delete { id: args[1].clone() }
        }
    } else if str_eq(sub, "run-all") {
        CliRequest::RunAll
    } else if str_eq(sub, "status") {
        CliRequest::Status
    } else if str_eq(sub, "enable") {
        CliRequest::Enable
    } else if str_eq(sub, "disable") {
        CliRequest::Disable
    } else if str_eq(sub, "exec") {
        if args.len() < 3 {
            CliRequest::Usage { subcommand: sub.to_owned() }
        } else {
            let rest = strings_from(args, 2);
            assert(rest@.map_values(|s: String| s@) =~= v.skip(2));
            // Join remaining args as the command string (handles spaces without quoting)
            let command = join_strings(rest.as_slice(), " ");
            CliRequest::Exec { terminal: args[1].clone(), command }
        }
    } else if str_eq(sub, "run") {
        if args.len() < 2 {
            CliRequest::Usage { subcommand: sub.to_owned() }
        } else {
            CliRequest::Run { id: args[1].clone() }
        }
    } else {
        CliRequest::Unknown { subcommand: sub.to_owned() }
    }
}

/// PowerShell arguments that run `command` and keep the window.
pub open spec fn ps_args(command: Seq<char>) -> Seq<Seq<char>> {
    seq!["-NoExit"@, "-Command"@, "& {"@ + command + "}"@]
}

/// Program and arguments with which the command line runs `command` in
/// `terminal`; `None` for a terminal it does not know.
pub open spec fn cli_invocation_spec(
    command: Seq<char>,
    terminal: Seq<char>,
    profiles: Seq<WtProfile>,
    bash_path: Option<String>,
) -> Option<(Seq<char>, Seq<Seq<char>>)> {
    if terminal == "powershell"@ {
        Some(("powershell.exe"@, ps_args(command)))
    } else if terminal == "cmd"@ {
        Some(("cmd.exe"@, seq!["/k"@, command]))
    } else if terminal == "gitbash"@ {
        Some(("bash.exe"@, seq!["-i"@, "-c"@, command]))
    } else if is_wt_terminal(terminal) {
        let pname = after_first(terminal, ':');
        if pname.len() == 0 {
            Some(("wt.exe"@, seq!["powershell.exe"@] + ps_args(command)))
        } else {
            let shell = wt_shell(terminal, profiles);
            let head = seq!["-p"@, pname, "--"@];
            if shell == "gitbash"@ {
                let bash = match bash_path { Some(b) => b@, None => "bash"@ };
                Some(("wt.exe"@, head + seq![bash, "-i"@, "-c"@, command]))
            } else if shell == "cmd"@ {
                Some(("wt.exe"@, head + seq!["cmd.exe"@, "/k"@, command]))
            } else {
                Some(("wt.exe"@, head + seq!["powershell.exe"@] + ps_args(command)))
            }
        }
    } else {
        None
    }
}

/// For `terminal:<profile>` with a non-empty profile name, the command line
/// opens `wt.exe -p <profile> --` and then runs: `cmd.exe /k` exactly when the
/// profile's shell is CMD; the Git Bash that was found (`bash` when none was)
/// with `-i -c` when it is Git Bash; and PowerShell with `-NoExit -Command
/// "& {command}"` for every other shell (WSL and PowerShell profiles, and
/// profiles that are not listed).
pub proof fn law_cli_profile_shell_choice(
    command: Seq<char>,
    terminal: Seq<char>,
    profiles: Seq<WtProfile>,
    bash_path: Option<String>,
)
    requires
        is_wt_terminal(terminal),
        after_first(terminal, ':').len() > 0,
    ensures
        ({
            let r = cli_invocation_spec(command, terminal, profiles, bash_path);
            let pname = after_first(terminal, ':');
            let shell = wt_shell(terminal, profiles);
            let ps = seq!["powershell.exe"@, "-NoExit"@, "-Command"@, "& {"@ + command + "}"@];
            let pa = r->Some_0;
            let args = pa.1;
            &&& r is Some
            &&& pa.0 == "wt.exe"@
            &&& args.len() >= 3
            &&& args.take(3) == seq!["-p"@, pname, "--"@]
            &&& shell == "cmd"@ ==> args.skip(3) == seq!["cmd.exe"@, "/k"@, command]
            &&& shell == "gitbash"@ ==> args.skip(3) == seq![
                match bash_path { Some(b) => b@, None => "bash"@ }, "-i"@, "-c"@, command]
            &&& shell != "cmd"@ && shell != "gitbash"@ ==> args.skip(3) == ps
            &&& shell == "wsl"@ ==> args.skip(3) == ps
            &&& shell == "powershell"@ ==> args.skip(3) == ps
            &&& find_profile(profiles, pname) is None ==> args.skip(3) == ps
            &&& args.skip(3)[0] == "cmd.exe"@ && shell != "gitbash"@ ==> shell == "cmd"@
        }),
{
    crate::script::law_wt_terminal_is_not_plain(terminal);
    reveal_strlit("cmd");
    reveal_strlit("wsl");
    reveal_strlit("gitbash");
    reveal_strlit("powershell");
    reveal_strlit("cmd.exe");
    reveal_strlit("powershell.exe");
    assert("wsl"@ != "cmd"@) by { assert("wsl"@[0] != "cmd"@[0]); }
    assert("wsl"@ != "gitbash"@) by { assert("wsl"@.len() != "gitbash"@.len()); }
    assert("powershell"@ != "cmd"@) by { assert("powershell"@.len() != "cmd"@.len()); }
    assert("cmd"@ != "gitbash"@) by { assert("cmd"@.len() != "gitbash"@.len()); }
    assert("powershell"@ != "gitbash"@) by { assert("powershell"@.len() != "gitbash"@.len()); }
    assert("powershell.exe"@ != "cmd.exe"@) by { assert("powershell.exe"@.len() != "cmd.exe"@.len()); }
    let r = cli_invocation_spec(command, terminal, profiles, bash_path);
    let pname = after_first(terminal, ':');
    let shell = wt_shell(terminal, profiles);
    let head = seq!["-p"@, pname, "--"@];
    let ps = seq!["powershell.exe"@, "-NoExit"@, "-Command"@, "& {"@ + command + "}"@];
    let args = r->Some_0.1;
    if shell == "gitbash"@ {
        let bash = match bash_path { Some(b) => b@, None => "bash"@ };
        assert(args == head + seq![bash, "-i"@, "-c"@, command]);
        assert(args.take(3) =~= head);
        assert(args.skip(3) =~= seq![bash, "-i"@, "-c"@, command]);
    } else if shell == "cmd"@ {
        assert(args == head + seq!["cmd.exe"@, "/k"@, command]);
        assert(args.take(3) =~= head);
        assert(args.skip(3) =~= seq!["cmd.exe"@, "/k"@, command]);
    } else {
        assert(args =~= head + ps);
        assert(args.take(3) =~= head);
        assert(args.skip(3) =~= ps);
    }
}

fn owned(s: &str) -> (r: String)
    ensures
        r@ == s@,
{
    s.to_owned()
}

fn push_ps_args(v: &mut Vec<String>, command: &str)
    ensures
        final(v).deep_view() == old(v).deep_view() + ps_args(command@),
{
    let ghost before = v.deep_view();
    v.push(owned("-NoExit"));
    v.push(owned("-Command"));
    let open = concat("& {", command);
    v.push(concat(open.as_str(), "}"));
    assert(v.deep_view() =~= before + ps_args(command@));
}

/// Program and arguments with which the command line runs `command` in
/// `terminal` (`None` when the terminal is unknown).
pub fn cli_invocation(
    command: &str,
    terminal: &str,
    profiles: &[WtProfile],
    bash_path: &Option<String>,
) -> (r: Option<(String, Vec<String>)>)
    ensures
        match r {
            Some((p, a)) => cli_invocation_spec(command@, terminal@, profiles@, *bash_path) == Some((p@, a.deep_view())),
            None => cli_invocation_spec(command@, terminal@, profiles@, *bash_path) is None,
        },
{
    let mut args: Vec<String> = Vec::new();
    if str_eq(terminal, "powershell") {
        push_ps_args(&mut args, command);
        assert(args.deep_view() =~= ps_args(command@));
        Some((owned("powershell.exe"), args))
    } else if str_eq(terminal, "cmd") {
        args.push(owned("/k"));
        args.push(owned(command));
        assert(args.deep_view() =~= seq!["/k"@, command@]);
        Some((owned("cmd.exe"), args))
    } else if str_eq(terminal, "gitbash") {
        args.push(owned("-i"));
        args.push(owned("-c"));
        args.push(owned(command));
        assert(args.deep_view() =~= seq!["-i"@, "-c"@, command@]);
        Some((owned("bash.exe"), args))
    } else if starts_with(terminal, "terminal") {
        let profile_name = after_first_char(terminal, ':');
        if profile_name.is_empty() {
            args.push(owned("powershell.exe"));
            push_ps_args(&mut args, command);
            assert(args.deep_view() =~= seq!["powershell.exe"@] + ps_args(command@));
            Some((owned("wt.exe"), args))
        } else {
            let shell = match find_wt_profile(profile_name, profiles) {
                Some(p) => profile_shell_type(&p),
                None => "powershell",
            };
            assert(shell@ == wt_shell(terminal@, profiles@));
            args.push(owned("-p"));
            args.push(owned(profile_name));
            args.push(owned("--"));
            let ghost head = args.deep_view();
            assert(head =~= seq!["-p"@, profile_name@, "--"@]);
            if str_eq(shell, "gitbash") {
                let bash = match bash_path {
                    Some(b) => b.clone(),
                    None => owned("bash"),
                };
                args.push(bash);
                args.push(owned("-i"));
                args.push(owned("-c"));
                args.push(owned(command));
            } else if str_eq(shell, "cmd") {
                args.push(owned("cmd.exe"));
                args.push(owned("/k"));
                args.push(owned(command));
            } else {
                args.push(owned("powershell.exe"));
                push_ps_args(&mut args, command);
            }
            assert(args.deep_view() =~= cli_invocation_spec(command@, terminal@, profiles@, *bash_path)->Some_0.1);
            Some((owned("wt.exe"), args))
        }
    } else {
        None
    }
}

} // verus!
