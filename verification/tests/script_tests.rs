use openstart::script::{
    build_batch_args, build_chained_script, build_spawn_args, build_wt_tab_args, shell_of, steps_for_command,
    SpawnEnv,
};
use openstart::storage::{Command, CommandStep};
use openstart::terminal::WtProfile;

fn step(cmd: &str, delay_sec: u64) -> CommandStep {
    CommandStep { cmd: cmd.into(), delay_sec, note: String::new() }
}

fn env(keep_open: bool) -> SpawnEnv {
    SpawnEnv { keep_open, bash_path: None, wt_profiles: vec![] }
}

fn profile(name: &str, commandline: Option<&str>) -> WtProfile {
    WtProfile { name: name.into(), hidden: false, commandline: commandline.map(|s| s.to_string()), source: None }
}

fn strs(v: &[&str]) -> Vec<String> {
    v.iter().map(|s| s.to_string()).collect()
}

#[test]
fn build_chained_script_powershell_with_delays() {
    let steps = vec![
        CommandStep { cmd: "echo a".into(), delay_sec: 2, note: String::new() },
        CommandStep { cmd: "echo b".into(), delay_sec: 3, note: String::new() },
        CommandStep { cmd: "echo c".into(), delay_sec: 0, note: String::new() },
    ];
    let script = build_chained_script(&steps, "powershell");
    assert!(script.contains("Start-Sleep -Seconds 2"), "powershell: should have delay after step 0, got: {script}");
    assert!(script.contains("Start-Sleep -Seconds 3"), "powershell: should have delay after step 1, got: {script}");
    assert!(!script.contains("Start-Sleep -Seconds 0"), "powershell: last step delay 0 should be absent, got: {script}");
    assert!(script.starts_with("echo a"), "powershell: should start with first step, got: {script}");
}

#[test]
fn build_chained_script_cmd_with_delays() {
    let steps = vec![
        CommandStep { cmd: "dir".into(), delay_sec: 1, note: String::new() },
        CommandStep { cmd: "echo done".into(), delay_sec: 5, note: String::new() },
    ];
    let script = build_chained_script(&steps, "cmd");
    assert!(script.contains("timeout /t 1 /nobreak"), "cmd: should have delay after step 0, got: {script}");
    assert!(!script.contains("timeout /t 5"), "cmd: last step delay should be absent, got: {script}");
}

#[test]
fn build_chained_script_gitbash_single_no_delay() {
    let steps = vec![CommandStep { cmd: "ls -la".into(), delay_sec: 0, note: String::new() }];
    let script = build_chained_script(&steps, "gitbash");
    assert_eq!(script, "ls -la", "gitbash single step no delay should be just the command");
}

#[test]
fn build_chained_script_gitbash_two_steps_no_delay() {
    let steps = vec![
        CommandStep { cmd: "echo a".into(), delay_sec: 0, note: String::new() },
        CommandStep { cmd: "echo b".into(), delay_sec: 0, note: String::new() },
    ];
    let script = build_chained_script(&steps, "gitbash");
    assert_eq!(script, "echo a && echo b", "gitbash two steps no delay should use && between");
}

#[test]
fn build_chained_script_empty() {
    let steps: Vec<CommandStep> = vec![];
    let script = build_chained_script(&steps, "powershell");
    assert!(script.is_empty(), "empty steps should produce empty string");
}

#[test]
fn build_chained_script_gitbash_with_delays() {
    let steps = vec![
        CommandStep { cmd: "echo x".into(), delay_sec: 1, note: String::new() },
        CommandStep { cmd: "echo y".into(), delay_sec: 2, note: String::new() },
        CommandStep { cmd: "echo z".into(), delay_sec: 0, note: String::new() },
    ];
    let script = build_chained_script(&steps, "gitbash");
    assert!(script.contains(" && sleep 1 && "), "gitbash: expected ' && sleep 1 && ', got: {script}");
    assert!(script.contains(" && sleep 2 && "), "gitbash: expected ' && sleep 2 && ', got: {script}");
    assert!(!script.contains("sleep 0"), "gitbash: last step delay 0 should not produce sleep");
}

#[test]
fn shell_of_known_types() {
    assert_eq!(shell_of("powershell", &[]), "powershell");
    assert_eq!(shell_of("cmd", &[]), "cmd");
    assert_eq!(shell_of("gitbash", &[]), "gitbash");
}

#[test]
fn shell_of_wsl() {
    assert_eq!(shell_of("wsl", &[]), "wsl");
}

#[test]
fn build_chained_script_wsl_with_delays() {
    let steps = vec![
        CommandStep { cmd: "echo x".into(), delay_sec: 1, note: String::new() },
        CommandStep { cmd: "echo y".into(), delay_sec: 2, note: String::new() },
    ];
    let script = build_chained_script(&steps, "wsl");
    assert!(script.contains(" && sleep 1 && "), "wsl: expected ' && sleep 1 && ', got: {script}");
    assert!(!script.contains("sleep 2"), "wsl: last step delay should be absent, got: {script}");
}

#[test]
fn shell_of_terminal_defaults_to_powershell() {
    assert_eq!(shell_of("terminal", &[]), "powershell");
}

#[test]
fn shell_of_terminal_profile_unknown_defaults_to_powershell() {
    // Non-existent profile → fallback to powershell
    assert_eq!(shell_of("terminal:NonExistentProfile12345", &[]), "powershell");
}

// ── Further cases ──────────────────────────────────────────────────────

#[test]
fn chained_script_exact_powershell() {
    let steps = vec![step("echo a", 2), step("echo b", 0), step("echo c", 7)];
    assert_eq!(build_chained_script(&steps, "powershell"), "echo a; Start-Sleep -Seconds 2; echo b; echo c");
}

#[test]
fn chained_script_exact_cmd() {
    let steps = vec![step("dir", 10), step("echo done", 0)];
    assert_eq!(build_chained_script(&steps, "cmd"), "dir & timeout /t 10 /nobreak >nul & echo done");
    let steps = vec![step("a", 0), step("b", 0)];
    assert_eq!(build_chained_script(&steps, "cmd"), "a & b");
}

#[test]
fn chained_script_large_delay_decimal() {
    let steps = vec![step("a", 18446744073709551615), step("b", 0)];
    assert_eq!(build_chained_script(&steps, "gitbash"), "a && sleep 18446744073709551615 && b");
    let steps = vec![step("a", 105), step("b", 0)];
    assert_eq!(build_chained_script(&steps, "unknown-shell"), "a && sleep 105 && b");
}

#[test]
fn chained_script_last_delay_ignored_law() {
    let a = vec![step("x", 4), step("y", 0)];
    let b = vec![step("x", 4), step("y", 99)];
    assert_eq!(build_chained_script(&a, "cmd"), build_chained_script(&b, "cmd"));
}

#[test]
fn chained_script_concat_law() {
    let a = vec![step("one", 3)];
    let b = vec![step("two", 0), step("three", 0)];
    let mut ab = vec![step("one", 3)];
    ab.extend(vec![step("two", 0), step("three", 0)]);
    let joined = format!(
        "{}{}{}",
        build_chained_script(&a, "powershell"),
        "; Start-Sleep -Seconds 3; ",
        build_chained_script(&b, "powershell")
    );
    assert_eq!(build_chained_script(&ab, "powershell"), joined);
}

#[test]
fn steps_for_legacy_command_is_single_step() {
    let cmd = Command {
        id: "1".into(),
        name: "n".into(),
        command: "npm start".into(),
        terminal: "cmd".into(),
        auto_start: false,
        group_name: String::new(),
        steps: vec![],
        created_at: String::new(),
        updated_at: String::new(),
        note: "a note".into(),
        last_executed_at: String::new(),
    };
    let steps = steps_for_command(&cmd);
    assert_eq!(steps.len(), 1);
    assert_eq!(steps[0].cmd, "npm start");
    assert_eq!(steps[0].delay_sec, 0);
    assert_eq!(steps[0].note, "");
}

#[test]
fn steps_for_multi_step_command_are_its_steps() {
    let cmd = Command {
        id: "1".into(),
        name: "n".into(),
        command: "ignored".into(),
        terminal: "cmd".into(),
        auto_start: false,
        group_name: String::new(),
        steps: vec![step("a", 1), step("b", 2)],
        created_at: String::new(),
        updated_at: String::new(),
        note: String::new(),
        last_executed_at: String::new(),
    };
    let steps = steps_for_command(&cmd);
    assert_eq!(steps, vec![step("a", 1), step("b", 2)]);
}

#[test]
fn shell_of_profiles_resolve() {
    let profiles = vec![
        profile("Ubuntu", Some("wsl.exe -d Ubuntu")),
        profile("Git Bash", Some("C:\\Program Files\\Git\\bin\\bash.exe")),
        profile("Command Prompt", Some("%SystemRoot%\\System32\\cmd.exe")),
        profile("PowerShell 7", Some("pwsh.exe")),
    ];
    assert_eq!(shell_of("terminal:Ubuntu", &profiles), "wsl");
    assert_eq!(shell_of("terminal:Git Bash", &profiles), "gitbash");
    assert_eq!(shell_of("terminal:Command Prompt", &profiles), "cmd");
    assert_eq!(shell_of("terminal:PowerShell 7", &profiles), "powershell");
    assert_eq!(shell_of("terminal:", &profiles), "powershell");
    assert_eq!(shell_of("something-else", &profiles), "powershell");
}

#[test]
fn spawn_args_plain_terminals() {
    let e = env(true);
    assert_eq!(
        build_spawn_args("echo hi", "cmd", false, None, &e).unwrap(),
        ("cmd.exe".to_string(), strs(&["/k", "echo hi"]))
    );
    assert_eq!(
        build_spawn_args("echo hi", "cmd", false, None, &env(false)).unwrap(),
        ("cmd.exe".to_string(), strs(&["/c", "echo hi"]))
    );
    assert_eq!(
        build_spawn_args("ls", "powershell", true, Some("g"), &e).unwrap(),
        ("powershell.exe".to_string(), strs(&["-NoExit", "-Command", "& {ls}"]))
    );
    assert_eq!(
        build_spawn_args("ls", "gitbash", false, None, &e).unwrap(),
        ("bash.exe".to_string(), strs(&["-c", "ls; exec bash"]))
    );
    assert_eq!(
        build_spawn_args("ls", "wsl", false, None, &e).unwrap(),
        ("wsl.exe".to_string(), strs(&["--", "bash", "-c", "ls; exec bash"]))
    );
}

#[test]
fn spawn_args_gitbash_uses_found_bash() {
    let e = SpawnEnv { keep_open: false, bash_path: Some("D:\\Git\\bin\\bash.exe".into()), wt_profiles: vec![] };
    assert_eq!(
        build_spawn_args("make", "gitbash", false, None, &e).unwrap(),
        ("D:\\Git\\bin\\bash.exe".to_string(), strs(&["-c", "make"]))
    );
}

#[test]
fn spawn_args_windows_terminal() {
    let e = SpawnEnv {
        keep_open: true,
        bash_path: None,
        wt_profiles: vec![profile("Git Bash", Some("bash.exe --login"))],
    };
    assert_eq!(
        build_spawn_args("ls", "terminal:Git Bash", true, Some("dev"), &e).unwrap(),
        (
            "wt.exe".to_string(),
            strs(&["--window", "OS:dev", "new-tab", "-p", "Git Bash", "--", "bash", "-c", "ls\\; exec bash"])
        )
    );
    assert_eq!(
        build_spawn_args("ls", "terminal", true, None, &e).unwrap(),
        ("wt.exe".to_string(), strs(&["-w", "0", "new-tab", "powershell.exe", "-NoExit", "-Command", "& {ls}"]))
    );
    assert_eq!(
        build_spawn_args("ls", "terminal", false, Some(""), &e).unwrap(),
        ("wt.exe".to_string(), strs(&["powershell.exe", "-NoExit", "-Command", "& {ls}"]))
    );
}

#[test]
fn spawn_args_unknown_terminal() {
    assert_eq!(build_spawn_args("ls", "xterm", false, None, &env(true)), Err("Unknown terminal type: xterm".to_string()));
    assert_eq!(build_wt_tab_args("ls", "xterm", &env(true)), Err("Unknown terminal type: xterm".to_string()));
}

#[test]
fn wt_tab_args_segments() {
    let e = env(false);
    assert_eq!(build_wt_tab_args("dir", "cmd", &e).unwrap(), strs(&["new-tab", "cmd.exe", "/c", "dir"]));
    assert_eq!(build_wt_tab_args("ls", "gitbash", &env(true)).unwrap(), strs(&["new-tab", "bash", "-c", "ls\\; exec bash"]));
    assert_eq!(
        build_wt_tab_args("x", "terminal", &e).unwrap(),
        strs(&["new-tab", "powershell.exe", "-Command", "& {x}"])
    );
}

#[test]
fn batch_args_join_tabs() {
    let e = env(false);
    let cmds = vec![("dir".to_string(), "cmd".to_string()), ("x".to_string(), "terminal".to_string())];
    assert_eq!(
        build_batch_args(&cmds, "grp", &e).unwrap(),
        strs(&[
            "--window", "OS:grp", "new-tab", "cmd.exe", "/c", "dir", ";", "new-tab", "powershell.exe", "-Command",
            "& {x}"
        ])
    );
    assert_eq!(build_batch_args(&cmds[..1], "", &e).unwrap(), strs(&["new-tab", "cmd.exe", "/c", "dir"]));
    assert_eq!(build_batch_args(&[], "grp", &e).unwrap(), Vec::<String>::new());
    let bad = vec![("dir".to_string(), "cmd".to_string()), ("x".to_string(), "nope".to_string())];
    assert_eq!(build_batch_args(&bad, "grp", &e), Err("Unknown terminal type: nope".to_string()));
}
