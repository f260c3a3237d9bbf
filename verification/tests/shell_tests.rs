use llm_term::shell::Shell;

#[test]
fn detect_bash_from_path() {
    assert_eq!(Shell::classify("/bin/bash"), Shell::BornAgainShell);
}

#[test]
fn detect_zsh_from_path() {
    assert_eq!(Shell::classify("/bin/zsh"), Shell::Zsh);
}

#[test]
fn detect_dash_from_path() {
    assert_eq!(Shell::classify("/usr/bin/dash"), Shell::DebianAlmquistShell);
}

#[test]
fn detect_fish_from_path() {
    assert_eq!(Shell::classify("/usr/bin/fish"), Shell::Fish);
}

#[test]
fn detect_ksh_from_path() {
    assert_eq!(Shell::classify("/bin/ksh"), Shell::KornShell);
}

#[test]
fn detect_powershell() {
    assert_eq!(Shell::classify("powershell"), Shell::Powershell);
}

#[test]
fn detect_tcsh_matches_csh_substring() {
    assert_eq!(Shell::classify("/bin/tcsh"), Shell::CShell);
}

#[test]
fn detect_plain_sh_falls_back_to_bash() {
    assert_eq!(Shell::classify("/bin/sh"), Shell::BornAgainShell);
    assert_eq!(Shell::classify("sh"), Shell::BornAgainShell);
}

#[test]
fn detect_unmatched_value_is_unknown() {
    assert_eq!(Shell::classify("/usr/bin/python"), Shell::Unknown);
    assert_eq!(Shell::classify(""), Shell::Unknown);
}

#[test]
fn detect_uses_from_impl() {
    let s: Shell = "/bin/bash".into();
    assert_eq!(s, Shell::BornAgainShell);
}

#[test]
fn invocation_pairs_are_fixed() {
    let cases = [
        (Shell::Powershell, "powershell", "-Command"),
        (Shell::BornAgainShell, "sh", "-c"),
        (Shell::Zsh, "zsh", "-c"),
        (Shell::Fish, "fish", "-c"),
        (Shell::DebianAlmquistShell, "dash", "-c"),
        (Shell::KornShell, "ksh", "-c"),
        (Shell::CShell, "csh", "-c"),
        (Shell::Unknown, "sh", "-c"),
    ];
    for (shell, program, flag) in cases {
        let (p, f) = shell.to_shell_command_and_command_arg("ls -la");
        assert_eq!(p, program);
        assert_eq!(f, flag);
    }
}

#[test]
fn unknown_shell_invoked_like_bash() {
    let unknown = Shell::Unknown.to_shell_command_and_command_arg("true");
    let bash = Shell::BornAgainShell.to_shell_command_and_command_arg("true");
    assert_eq!(unknown, bash);
}

#[test]
fn system_prompt_names_shell_and_os() {
    let p = Shell::Zsh.to_system_prompt("linux");
    assert!(p.starts_with(
        "You are a professional IT worker who only speaks in commands full, Z Shell (zsh) compatible, CLI command running on the linux operating system."
    ));
    assert!(p.contains("return an empty string"));
    assert!(p.contains("current directory of the user"));
}

#[test]
fn system_prompt_unknown_shell_has_empty_label() {
    let p = Shell::Unknown.to_system_prompt("linux");
    assert!(p.starts_with("You are a professional IT worker who only speaks in commands full,  compatible,"));
}
