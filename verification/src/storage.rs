//! The saved-command model and the decisions the command store makes on
//! what the database hands back.

use vstd::prelude::*;


verus! {

/// One step of a multi-step command: a command line and the pause after it.
#[derive(Debug, Clone, PartialEq, Eq)]
pub struct CommandStep {
    pub cmd: String,
    pub delay_sec: u64,
    pub note: String,
}

/// A saved command.
#[derive(Debug, Clone, PartialEq, Eq)]
pub struct Command {
    pub id: String,
    pub name: String,
    pub command: String,
    pub terminal: String,
    pub auto_start: bool,
    pub group_name: String,
    pub steps: Vec<CommandStep>,
    pub created_at: String,
    pub updated_at: String,
    pub note: String,
    pub last_executed_at: String,
}

impl CommandStep {
    /// A field-by-field copy.
    pub fn copy(&self) -> (r: CommandStep)
        ensures
            r == *self,
    {
        CommandStep { cmd: self.cmd.clone(), delay_sec: self.delay_sec, note: self.note.clone() }
    }
}

/// A copy of `steps`, element by element.
pub fn copy_steps(steps: &[CommandStep]) -> (r: Vec<CommandStep>)
    ensures
        r@ == steps@,
{
    let mut out: Vec<CommandStep> = Vec::new();
    for i in 0..steps.len()
        invariant
            out@ == steps@.take(i as int),
    {
        out.push(steps[i].copy());
        assert(steps@.take(i + 1) == steps@.take(i as int).push(steps@[i as int]));
    }
    assert(steps@.take(steps@.len() as int) == steps@);
    out
}

} // verus!

verus! {

/// The message for an id that names no saved command.
pub open spec fn not_found_message(id: Seq<char>) -> Seq<char> {
    "Command '"@ + id + "' not found"@
}

/// The outcome of a change addressed to one command by `id`, from the number
/// of rows it touched: none means there is no such command.
pub fn affected_to_result(affected: usize, id: &str) -> (r: Result<(), String>)
    ensures
        affected == 0 <==> r is Err,
        r matches Err(e) ==> e@ == not_found_message(id@),
{
    if affected == 0 {
        let head = crate::text::concat("Command '", id);
        Err(crate::text::concat(head.as_str(), "' not found"))
    } else {
        Ok(())
    }
}

/// The stored form of the auto-start flag.
pub fn auto_start_flag(auto_start: bool) -> (r: i32)
    ensures
        r == (if auto_start { 1i32 } else { 0i32 }),
{
    if auto_start { 1 } else { 0 }
}

/// Reads the stored auto-start flag: any non-zero value is set.
pub fn auto_start_from_flag(flag: i32) -> (r: bool)
    ensures
        r == (flag != 0),
{
    flag != 0
}

/// Reading back the stored flag gives the flag that was stored.
pub proof fn law_auto_start_flag_round_trip(auto_start: bool)
    ensures
        ((if auto_start { 1i32 } else { 0i32 }) != 0) == auto_start,
{
}

} // verus!
