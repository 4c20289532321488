use openstart::commands::{
    command_with_identity, current_timestamp, edited_command, effective_command, new_command, plan_group, resolve_commands,
    script_to_execute, GroupLaunch,
};
use openstart::settings::{default_close_to_tray, default_delay, default_keep_open, AppSettings};
use openstart::storage::{affected_to_result, auto_start_flag, auto_start_from_flag, Command, CommandStep};
use openstart::terminal::WtProfile;

fn cmd(id: &str, command: &str, terminal: &str, steps: Vec<CommandStep>) -> Command {
    Command {
        id: id.into(),
        name: format!("Test {}", id),
        command: command.into(),
        terminal: terminal.into(),
        auto_start: false,
        group_name: "g".into(),
        steps,
        created_at: "2024-01-01T00:00:00+00:00".into(),
        updated_at: "2024-01-01T00:00:00+00:00".into(),
        note: String::new(),
        last_executed_at: String::new(),
    }
}

fn step(c: &str, d: u64) -> CommandStep {
    CommandStep { cmd: c.into(), delay_sec: d, note: String::new() }
}

#[test]
fn new_command_fills_identity() {
    let c = new_command("n".into(), "echo".into(), "cmd".into(), true, "grp".into(), vec![step("a", 1)], "note".into());
    assert_eq!(c.id.len(), 36);
    for (i, ch) in c.id.chars().enumerate() {
        match i {
            8 | 13 | 18 | 23 => assert_eq!(ch, '-'),
            14 => assert_eq!(ch, '4'),
            19 => assert!(matches!(ch, '8' | '9' | 'a' | 'b')),
            _ => assert!(ch.is_ascii_digit() || ('a'..='f').contains(&ch), "id {}", c.id),
        }
    }
    assert!(c.created_at.ends_with("+00:00"), "created_at {}", c.created_at);
    assert!(c.created_at.len() >= 25);
    assert_eq!(c.name, "n");
    assert_eq!(c.command, "echo");
    assert_eq!(c.terminal, "cmd");
    assert!(c.auto_start);
    assert_eq!(c.group_name, "grp");
    assert_eq!(c.steps, vec![step("a", 1)]);
    assert_eq!(c.note, "note");
    assert!(!c.created_at.is_empty());
    assert_eq!(c.created_at, c.updated_at);
    assert!(c.last_executed_at.is_empty());
    let d = new_command("n".into(), "echo".into(), "cmd".into(), true, "grp".into(), vec![], "note".into());
    assert_ne!(c.id, d.id);
}

fn assert_rfc3339_utc(s: &str) {
    let c: Vec<char> = s.chars().collect();
    assert!(c.len() >= 25, "{}", s);
    for (i, ch) in c.iter().enumerate().take(19) {
        match i {
            4 | 7 => assert_eq!(*ch, '-', "{}", s),
            10 => assert_eq!(*ch, 'T', "{}", s),
            13 | 16 => assert_eq!(*ch, ':', "{}", s),
            _ => assert!(ch.is_ascii_digit(), "{}", s),
        }
    }
    assert!(s.ends_with("+00:00"), "{}", s);
    let frac = c.len() - 6 - 19;
    assert!(frac == 0 || ((frac == 4 || frac == 7 || frac == 10) && c[19] == '.'), "{}", s);
    if frac > 0 {
        assert!(c[20..c.len() - 6].iter().all(|ch| ch.is_ascii_digit()), "{}", s);
    }
}

#[test]
fn timestamps_have_rfc3339_utc_form() {
    assert_rfc3339_utc(&current_timestamp());
    let c = new_command("n".into(), "c".into(), "cmd".into(), false, "".into(), vec![], "".into());
    assert_rfc3339_utc(&c.created_at);
}

#[test]
fn command_with_identity_exact() {
    let c = command_with_identity(
        "id-1".into(),
        "T".into(),
        "n".into(),
        "c".into(),
        "wsl".into(),
        false,
        "".into(),
        vec![],
        "".into(),
    );
    assert_eq!(c.id, "id-1");
    assert_eq!(c.created_at, "T");
    assert_eq!(c.updated_at, "T");
    assert_eq!(c.last_executed_at, "");
}

#[test]
fn edited_command_keeps_identity() {
    let mut old = cmd("x", "old", "cmd", vec![]);
    old.last_executed_at = "L".into();
    let e = edited_command(old, "new name".into(), "new".into(), "wsl".into(), true, "h".into(), vec![step("s", 0)], "nn".into());
    assert_eq!(e.id, "x");
    assert_eq!(e.created_at, "2024-01-01T00:00:00+00:00");
    assert_eq!(e.updated_at, "2024-01-01T00:00:00+00:00");
    assert_eq!(e.last_executed_at, "L");
    assert_eq!(e.name, "new name");
    assert_eq!(e.command, "new");
    assert_eq!(e.terminal, "wsl");
    assert!(e.auto_start);
    assert_eq!(e.group_name, "h");
    assert_eq!(e.steps, vec![step("s", 0)]);
    assert_eq!(e.note, "nn");
}

#[test]
fn script_to_execute_cases() {
    let c = cmd("1", "npm start", "powershell", vec![]);
    assert_eq!(script_to_execute(&c, &[]), Ok("npm start".to_string()));
    let c = cmd("2", "ignored", "cmd", vec![step("a", 2), step("b", 0)]);
    assert_eq!(script_to_execute(&c, &[]), Ok("a & timeout /t 2 /nobreak >nul & b".to_string()));
    let c = cmd("3", "", "cmd", vec![]);
    assert_eq!(script_to_execute(&c, &[]), Err("No steps defined".to_string()));
    let c = cmd("4", "fallback", "cmd", vec![step("", 0)]);
    assert_eq!(script_to_execute(&c, &[]), Err("No steps defined".to_string()));
    assert_eq!(effective_command(&c, &[]), "fallback");
}

#[test]
fn effective_command_uses_profile_shell() {
    let profiles =
        vec![WtProfile { name: "Ubuntu".into(), hidden: false, commandline: Some("wsl.exe".into()), source: None }];
    let c = cmd("1", "x", "terminal:Ubuntu", vec![step("a", 5), step("b", 0)]);
    assert_eq!(effective_command(&c, &profiles), "a && sleep 5 && b");
    assert_eq!(effective_command(&c, &[]), "a; Start-Sleep -Seconds 5; b");
}

#[test]
fn plan_group_one_window_when_all_wt() {
    let cmds = vec![cmd("1", "a", "terminal", vec![]), cmd("2", "b", "terminal:X", vec![])];
    assert_eq!(
        plan_group(&cmds, &[]),
        GroupLaunch::OneWindow(vec![("a".into(), "terminal".into()), ("b".into(), "terminal:X".into())])
    );
    let mixed = vec![cmd("1", "a", "terminal", vec![]), cmd("2", "b", "cmd", vec![])];
    assert_eq!(
        plan_group(&mixed, &[]),
        GroupLaunch::Separately(vec![("a".into(), "terminal".into()), ("b".into(), "cmd".into())])
    );
    assert_eq!(plan_group(&[], &[]), GroupLaunch::Nothing);
    assert_eq!(resolve_commands(&mixed, &[]).len(), 2);
}

#[test]
fn affected_rows_decide() {
    assert_eq!(affected_to_result(1, "cmd-1"), Ok(()));
    assert_eq!(affected_to_result(0, "does-not-exist"), Err("Command 'does-not-exist' not found".to_string()));
}

#[test]
fn auto_start_flag_round_trip() {
    assert_eq!(auto_start_flag(true), 1);
    assert_eq!(auto_start_flag(false), 0);
    assert!(auto_start_from_flag(auto_start_flag(true)));
    assert!(!auto_start_from_flag(auto_start_flag(false)));
    assert!(auto_start_from_flag(-3));
}

#[test]
fn settings_defaults() {
    let s = AppSettings::default();
    assert_eq!(
        s,
        AppSettings { app_autostart: false, startup_delay_seconds: 3, close_to_tray: true, keep_terminal_open: true }
    );
    assert_eq!(default_delay(), 3);
    assert!(default_close_to_tray());
    assert!(default_keep_open());
}
