use openstart::terminal::{
    bash_install_candidates, bash_search_dirs, classify_shell_type, detect_terminals, exe_file_name,
    find_wt_profile, profile_shell_type, system_powershell_path, visible_profiles, SystemProbe, TerminalInfo,
    WtProfile,
};

fn profile(name: &str, hidden: bool, commandline: Option<&str>) -> WtProfile {
    WtProfile { name: name.into(), hidden, commandline: commandline.map(|s| s.to_string()), source: None }
}

fn info(id: &str, name: &str, path: &str, available: bool) -> TerminalInfo {
    TerminalInfo { id: id.into(), name: name.into(), path: path.into(), available }
}

fn probe() -> SystemProbe {
    SystemProbe {
        pwsh_path: None,
        powershell_path: None,
        system_powershell_exists: false,
        cmd_path: None,
        bash_path: None,
        wt_path: None,
        wt_profiles: vec![],
    }
}

#[test]
fn profile_shell_type_rules() {
    assert_eq!(profile_shell_type(&profile("Windows PowerShell", false, None)), "powershell");
    assert_eq!(profile_shell_type(&profile("Anything", false, Some("C:\\pwsh\\PWSH.EXE"))), "powershell");
    assert_eq!(profile_shell_type(&profile("Debian", false, Some("wsl.exe -d Debian"))), "wsl");
    assert_eq!(profile_shell_type(&profile("Mine", false, Some("C:/Git/bin/BASH.exe"))), "gitbash");
    assert_eq!(profile_shell_type(&profile("Command Prompt", false, None)), "cmd");
    assert_eq!(profile_shell_type(&profile("Azure Cloud Shell", false, None)), "powershell");
    // PowerShell wins over everything else.
    assert_eq!(profile_shell_type(&profile("Ubuntu pwsh", false, None)), "powershell");
}

#[test]
fn classify_shell_type_on_lowercased_text() {
    assert_eq!(classify_shell_type("cmd.exe", "x"), "cmd");
    assert_eq!(classify_shell_type("", "git bash"), "gitbash");
    assert_eq!(classify_shell_type("", "ubuntu-22.04"), "wsl");
    assert_eq!(classify_shell_type("", ""), "powershell");
}

#[test]
fn find_wt_profile_first_match() {
    let ps = vec![profile("A", false, Some("one")), profile("B", false, None), profile("A", false, Some("two"))];
    assert_eq!(find_wt_profile("A", &ps), Some(profile("A", false, Some("one"))));
    assert_eq!(find_wt_profile("B", &ps), Some(profile("B", false, None)));
    assert_eq!(find_wt_profile("C", &ps), None);
}

#[test]
fn visible_profiles_drop_hidden_and_unnamed() {
    let ps = vec![profile("A", false, None), profile("", false, None), profile("H", true, None), profile("B", false, None)];
    assert_eq!(visible_profiles(ps), vec![profile("A", false, None), profile("B", false, None)]);
}

#[test]
fn detect_terminals_minimal_system() {
    let list = detect_terminals(&probe());
    assert_eq!(
        list,
        vec![
            info("powershell", "Windows PowerShell", "", false),
            info("cmd", "Command Prompt", "cmd.exe", true),
            info("gitbash", "Git Bash", "", false),
        ]
    );
}

#[test]
fn detect_terminals_full_system() {
    let mut p = probe();
    p.pwsh_path = Some("C:\\Program Files\\PowerShell\\7\\pwsh.exe".into());
    p.powershell_path = Some("C:\\ignored\\powershell.exe".into());
    p.cmd_path = Some("C:\\Windows\\System32\\cmd.exe".into());
    p.bash_path = Some("C:\\Program Files\\Git\\bin\\bash.exe".into());
    p.wt_path = Some("C:\\wt.exe".into());
    p.wt_profiles = vec![profile("Ubuntu", false, None), profile("Git Bash", false, None)];
    let list = detect_terminals(&p);
    assert_eq!(
        list,
        vec![
            info("powershell", "PowerShell", "C:\\Program Files\\PowerShell\\7\\pwsh.exe", true),
            info("cmd", "Command Prompt", "C:\\Windows\\System32\\cmd.exe", true),
            info("gitbash", "Git Bash", "C:\\Program Files\\Git\\bin\\bash.exe", true),
            info("terminal", "Windows Terminal", "C:\\wt.exe", true),
            info("terminal:Ubuntu", "Windows Terminal: Ubuntu", "", true),
            info("terminal:Git Bash", "Windows Terminal: Git Bash", "", true),
        ]
    );
}

#[test]
fn detect_terminals_windows_powershell_fallbacks() {
    let mut p = probe();
    p.powershell_path = Some("C:\\WINDOWS\\powershell.exe".into());
    assert_eq!(detect_terminals(&p)[0], info("powershell", "Windows PowerShell", "C:\\WINDOWS\\powershell.exe", true));
    let mut q = probe();
    q.system_powershell_exists = true;
    assert_eq!(
        detect_terminals(&q)[0],
        info("powershell", "Windows PowerShell", system_powershell_path(), true)
    );
    assert_eq!(system_powershell_path(), r"C:\Windows\System32\WindowsPowerShell\v1.0\powershell.exe");
}

#[test]
fn detect_terminals_profiles_need_wt() {
    let mut p = probe();
    p.wt_profiles = vec![profile("Ubuntu", false, None)];
    assert_eq!(detect_terminals(&p).len(), 3);
}

#[test]
fn exe_file_name_appends_extension_once() {
    assert_eq!(exe_file_name("pwsh", ".exe"), "pwsh.exe");
    assert_eq!(exe_file_name("pwsh.exe", ".exe"), "pwsh.exe");
    assert_eq!(exe_file_name("bash", ""), "bash");
}

#[test]
fn bash_candidates_in_order() {
    let c = bash_install_candidates();
    assert_eq!(c.len(), 6);
    assert_eq!(c[0], r"C:\Program Files\Git\bin\bash.exe");
    assert_eq!(c[3], r"F:\Program Files\Git\bin\bash.exe");
    assert_eq!(c[4], r"C:\Program Files (x86)\Git\bin\bash.exe");
    assert_eq!(c[5], r"D:\Program Files (x86)\Git\bin\bash.exe");
}

#[test]
fn bash_search_dirs_skip_system_dirs() {
    let dirs = bash_search_dirs(r"C:\Windows\SYSTEM32;D:\tools\bin;;C:\Users\me\AppData\Local\Microsoft\WindowsApps;E:\git");
    assert_eq!(dirs, vec![r"D:\tools\bin".to_string(), String::new(), r"E:\git".to_string()]);
}

#[test]
fn lookup_among_listed_profiles() {
    let settings = vec![
        profile("A", true, Some("hidden")),
        profile("", false, Some("unnamed")),
        profile("A", false, Some("first listed")),
        profile("A", false, Some("second listed")),
    ];
    let listed = visible_profiles(settings);
    assert_eq!(find_wt_profile("A", &listed), Some(profile("A", false, Some("first listed"))));
    assert_eq!(find_wt_profile("", &listed), None);
    assert_eq!(find_wt_profile("B", &listed), None);
}
