//! What the command handlers decide: new and edited commands, the script a
//! command runs, and how a group of commands is launched.

use vstd::prelude::*;
use crate::storage::{Command, CommandStep};
use crate::script::{build_chained_script, chained, shell_for, shell_of, steps_for_command};
use crate::terminal::WtProfile;
use crate::text::starts_with;

verus! {

/// `std::path::PathBuf`, carried through as an opaque value.
#[verifier::external_type_specification]
#[verifier::external_body]
pub struct ExPathBuf(std::path::PathBuf);

/// The application's data directory.
pub struct AppDataDir(pub std::path::PathBuf);

/// A lower-case hexadecimal digit.
pub open spec fn is_lower_hex(c: char) -> bool {
    ('0' <= c && c <= '9') || ('a' <= c && c <= 'f')
}

/// The text of a version-4 UUID in lower-case hyphenated form:
/// `xxxxxxxx-xxxx-4xxx-yxxx-xxxxxxxxxxxx` with `y` one of `8 9 a b`.
pub open spec fn is_uuid_v4_text(s: Seq<char>) -> bool {
    &&& s.len() == 36
    &&& forall|i: int|
        0 <= i < 36 ==> if i == 8 || i == 13 || i == 18 || i == 23 {
            #[trigger] s[i] == '-'
        } else if i == 14 {
            s[i] == '4'
        } else if i == 19 {
            s[i] == '8' || s[i] == '9' || s[i] == 'a' || s[i] == 'b'
        } else {
            is_lower_hex(s[i])
        }
}

/// A fresh version-4 UUID in its hyphenated text form
/// (`uuid::Uuid::new_v4` then `to_string`). The value is random; the contract
/// states the form every outcome has: `new_v4` sets the version nibble to 4
/// and the variant bits to `10`, and `Display` writes the lower-case
/// hyphenated form. Nothing is stated of which value comes out.
#[verifier::external_body]
fn new_id() -> (r: String)
    ensures
        is_uuid_v4_text(r@),
{
    uuid::Uuid::new_v4().to_string()
}

/// Positions `from..to` of `s` hold ASCII digits.
pub open spec fn digits_at(s: Seq<char>, from: int, to: int) -> bool {
    forall|i: int| from <= i < to ==> '0' <= #[trigger] s[i] <= '9'
}

/// `s` is an RFC 3339 UTC time whose year field takes `y` characters: four
/// digits, or a sign and four to six digits for years outside 0–9999; then
/// `-MM-DDTHH:MM:SS`, optional fractional seconds of 3, 6 or 9 digits, and
/// the offset `+00:00`.
pub open spec fn rfc3339_utc_with_year(s: Seq<char>, y: int) -> bool {
    &&& (y == 4 && digits_at(s, 0, 4)) || (5 <= y <= 7 && (s[0] == '+' || s[0] == '-') && digits_at(s, 1, y))
    &&& s.len() >= y + 21
    &&& s[y] == '-' && digits_at(s, y + 1, y + 3)
    &&& s[y + 3] == '-' && digits_at(s, y + 4, y + 6)
    &&& s[y + 6] == 'T' && digits_at(s, y + 7, y + 9)
    &&& s[y + 9] == ':' && digits_at(s, y + 10, y + 12)
    &&& s[y + 12] == ':' && digits_at(s, y + 13, y + 15)
    &&& ({
        let frac = s.len() - 6 - (y + 15);
        frac == 0 || ((frac == 4 || frac == 7 || frac == 10) && s[y + 15] == '.' && digits_at(s, y + 16, s.len() - 6))
    })
    &&& s.subrange(s.len() - 6, s.len() as int) == "+00:00"@
}

/// `s` is an RFC 3339 UTC time as chrono writes it (`to_rfc3339`).
pub open spec fn is_rfc3339_utc(s: Seq<char>) -> bool {
    exists|y: int| 4 <= y <= 7 && #[trigger] rfc3339_utc_with_year(s, y)
}

/// The current UTC time as an RFC 3339 string: the system clock read through
/// `std::time::SystemTime::now`, turned into a `chrono::DateTime<Utc>` with
/// `From<SystemTime>` (which also handles clocks before 1970) and written by
/// `DateTime::to_rfc3339`. The value depends on the clock; the contract states
/// the form every outcome has (see `rfc3339_utc_with_year`): `write_rfc3339`
/// writes years 0–9999 as four digits and others with a sign, then two-digit
/// fields, fractional seconds as chosen by `SecondsFormat::AutoSi`, and the
/// zero offset as `+00:00`. The conversion only fails for clocks beyond
/// chrono's range of about 262,000 years, which system clocks do not reach.
#[verifier::external_body]
fn now_rfc3339() -> (r: String)
    ensures
        is_rfc3339_utc(r@),
        r@.len() >= 25,
        "+00:00"@.is_suffix_of(r@),
{
    chrono::DateTime::<chrono::Utc>::from(std::time::SystemTime::now()).to_rfc3339()
}

/// The current UTC time as an RFC 3339 string, the form in which the store
/// keeps creation, update and execution times.
pub fn current_timestamp() -> (r: String)
    ensures
        is_rfc3339_utc(r@),
        r@.len() >= 25,
        "+00:00"@.is_suffix_of(r@),
{
    now_rfc3339()
}

/// A command created at `now` with identifier `id` and never executed.
pub fn command_with_identity(
    id: String,
    now: String,
    name: String,
    command: String,
    terminal: String,
    auto_start: bool,
    group_name: String,
    steps: Vec<CommandStep>,
    note: String,
) -> (r: Command)
    ensures
        r.id == id,
        r.name == name,
        r.command == command,
        r.terminal == terminal,
        r.auto_start == auto_start,
        r.group_name == group_name,
        r.steps == steps,
        r.created_at == now,
        r.updated_at == now,
        r.note == note,
        r.last_executed_at@ == Seq::<char>::empty(),
{
    Command {
        id,
        name,
        command,
        terminal,
        auto_start,
        group_name,
        steps,
        created_at: now.clone(),
        updated_at: now,
        note,
        last_executed_at: String::new(),
    }
}

/// A new command with a fresh identifier, created and updated now, never executed.
pub fn new_command(
    name: String,
    command: String,
    terminal: String,
    auto_start: bool,
    group_name: String,
    steps: Vec<CommandStep>,
    note: String,
) -> (r: Command)
    ensures
        is_uuid_v4_text(r.id@),
        r.name == name,
        r.command == command,
        r.terminal == terminal,
        r.auto_start == auto_start,
        r.group_name == group_name,
        r.steps == steps,
        r.created_at == r.updated_at,
        is_rfc3339_utc(r.created_at@),
        r.created_at@.len() >= 25,
        "+00:00"@.is_suffix_of(r.created_at@),
        r.note == note,
        r.last_executed_at@ == Seq::<char>::empty(),
{
    let now = current_timestamp();
    command_with_identity(new_id(), now, name, command, terminal, auto_start, group_name, steps, note)
}

/// `existing` with its user-editable fields replaced; identity and timestamps kept.
pub fn edited_command(
    existing: Command,
    name: String,
    command: String,
    terminal: String,
    auto_start: bool,
    group_name: String,
    steps: Vec<CommandStep>,
    note: String,
) -> (r: Command)
    ensures
        r.id == existing.id,
        r.created_at == existing.created_at,
        r.updated_at == existing.updated_at,
        r.last_executed_at == existing.last_executed_at,
        r.name == name,
        r.command == command,
        r.terminal == terminal,
        r.auto_start == auto_start,
        r.group_name == group_name,
        r.steps == steps,
        r.note == note,
{
    let mut c = existing;
    c.name = name;
    c.command = command;
    c.terminal = terminal;
    c.auto_start = auto_start;
    c.group_name = group_name;
    c.steps = steps;
    c.note = note;
    c
}

/// The chained script a command runs in its terminal's shell; a command
/// without steps runs its command line as its single step.
pub open spec fn command_script_spec(cmd: Command, profiles: Seq<WtProfile>) -> Seq<char> {
    if cmd.steps@.len() == 0 {
        cmd.command@
    } else {
        chained(cmd.steps@, shell_for(cmd.terminal@, profiles))
    }
}

/// The text a command runs: its chained script, or its command line when the
/// script is empty.
pub open spec fn effective_spec(cmd: Command, profiles: Seq<WtProfile>) -> Seq<char> {
    let s = command_script_spec(cmd, profiles);
    if s.len() == 0 { cmd.command@ } else { s }
}

/// The chained script for a command, resolved through its terminal's shell.
pub fn command_script(cmd: &Command, profiles: &[WtProfile]) -> (r: String)
    ensures
        r@ == command_script_spec(*cmd, profiles@),
{
    let steps = steps_for_command(cmd);
    let shell = shell_of(cmd.terminal.as_str(), profiles);
    let r = build_chained_script(steps.as_slice(), shell);
    proof {
        if cmd.steps@.len() == 0 {
            crate::script::law_chain_single(steps@, shell@);
        }
    }
    r
}

/// The script to run for a command by id; a command whose script is empty has
/// no steps to run.
pub fn script_to_execute(cmd: &Command, profiles: &[WtProfile]) -> (r: Result<String, String>)
    ensures
        r is Err <==> command_script_spec(*cmd, profiles@).len() == 0,
        r matches Ok(s) ==> s@ == command_script_spec(*cmd, profiles@),
        r matches Err(e) ==> e@ == "No steps defined"@,
{
    let s = command_script(cmd, profiles);
    if s.as_str().is_empty() {
        Err("No steps defined".to_owned())
    } else {
        Ok(s)
    }
}

/// The text a command runs: its chained script, or its command line when the
/// script is empty.
pub fn effective_command(cmd: &Command, profiles: &[WtProfile]) -> (r: String)
    ensures
        r@ == effective_spec(*cmd, profiles@),
{
    let s = command_script(cmd, profiles);
    if s.as_str().is_empty() {
        cmd.command.clone()
    } else {
        s
    }
}

/// Pairs of (text to run, terminal) for `cmds`, in order.
pub open spec fn resolved_spec(cmds: Seq<Command>, profiles: Seq<WtProfile>) -> Seq<(Seq<char>, Seq<char>)> {
    cmds.map_values(|c: Command| (effective_spec(c, profiles), c.terminal@))
}

/// The view of (text, terminal) pairs.
pub open spec fn pairs_view(v: Seq<(String, String)>) -> Seq<(Seq<char>, Seq<char>)> {
    v.map_values(|p: (String, String)| (p.0@, p.1@))
}

/// Resolves each command into the text it runs and its terminal.
pub fn resolve_commands(cmds: &[Command], profiles: &[WtProfile]) -> (r: Vec<(String, String)>)
    ensures
        pairs_view(r@) == resolved_spec(cmds@, profiles@),
{
    let mut out: Vec<(String, String)> = Vec::new();
    for i in 0..cmds.len()
        invariant
            pairs_view(out@) == resolved_spec(cmds@.take(i as int), profiles@),
    {
        let e = effective_command(&cmds[i], profiles);
        let ghost prev = out@;
        out.push((e, cmds[i].terminal.clone()));
        assert(cmds@.take(i + 1) == cmds@.take(i as int).push(cmds@[i as int]));
        assert(pairs_view(out@) =~= pairs_view(prev).push((effective_spec(cmds@[i as int], profiles@), cmds@[i as int].terminal@)));
        assert(pairs_view(out@) =~= resolved_spec(cmds@.take(i + 1), profiles@));
    }
    assert(cmds@.take(cmds@.len() as int) == cmds@);
    out
}

/// Every command runs in Windows Terminal (`terminal` or `terminal:<profile>`).
pub open spec fn all_wt(cmds: Seq<Command>) -> bool {
    forall|i: int| 0 <= i < cmds.len() ==> "terminal"@.is_prefix_of(#[trigger] cmds[i].terminal@)
}

/// A group counts as all Windows Terminal exactly when each of its commands,
/// at every position, has a terminal starting with `terminal`; a single
/// command elsewhere, first, last or in between, makes the group mixed.
pub proof fn law_all_wt_means_every_command(cmds: Seq<Command>, k: int)
    requires
        0 <= k < cmds.len(),
    ensures
        all_wt(cmds) ==> "terminal"@.is_prefix_of(cmds[k].terminal@),
        !"terminal"@.is_prefix_of(cmds[k].terminal@) ==> !all_wt(cmds),
        all_wt(cmds) <==> (forall|i: int| 0 <= i < cmds.len() ==> "terminal"@.is_prefix_of(#[trigger] cmds[i].terminal@)),
{
}

/// How a group of commands is launched.
#[derive(Debug, Clone, PartialEq, Eq)]
pub enum GroupLaunch {
    /// The group has no commands.
    Nothing,
    /// All commands run in Windows Terminal: one window, one tab each.
    OneWindow(Vec<(String, String)>),
    /// Mixed terminals: each command in its own process.
    Separately(Vec<(String, String)>),
}

/// Plans the launch of a group: nothing for an empty group, one Windows
/// Terminal window when every command uses Windows Terminal, else one process
/// per command; each entry is (text to run, terminal), in the group's order.
pub fn plan_group(cmds: &[Command], profiles: &[WtProfile]) -> (r: GroupLaunch)
    ensures
        cmds@.len() == 0 <==> r is Nothing,
        r matches GroupLaunch::OneWindow(v) ==> all_wt(cmds@) && pairs_view(v@) == resolved_spec(cmds@, profiles@),
        r matches GroupLaunch::Separately(v) ==> !all_wt(cmds@) && pairs_view(v@) == resolved_spec(cmds@, profiles@),
        cmds@.len() > 0 && all_wt(cmds@) ==> r is OneWindow,
        r is OneWindow ==> forall|i: int| 0 <= i < cmds@.len() ==> "terminal"@.is_prefix_of(#[trigger] cmds@[i].terminal@),
        (exists|i: int| 0 <= i < cmds@.len() && !"terminal"@.is_prefix_of(#[trigger] cmds@[i].terminal@)) ==> r is Separately,
{
    if cmds.len() == 0 {
        return GroupLaunch::Nothing;
    }
    let resolved = resolve_commands(cmds, profiles);
    let mut every = true;
    for i in 0..cmds.len()
        invariant
            every == (forall|j: int| 0 <= j < i ==> "terminal"@.is_prefix_of(#[trigger] cmds@[j].terminal@)),
    {
        if !starts_with(cmds[i].terminal.as_str(), "terminal") {
            every = false;
        }
    }
    if every {
        GroupLaunch::OneWindow(resolved)
    } else {
        GroupLaunch::Separately(resolved)
    }
}

} // verus!
