use llm_term::model::Model;
use llm_term::runner::{
    confirm_execution, exit_code_for, extract_command, plan_from_outcome, BackendOutcome,
    RunnerStep,
};
use llm_term::shell::Shell;
use llm_term::text::{str_contains, trim, u32_to_dec};

#[test]
fn empty_choice_list_yields_no_command() {
    assert_eq!(extract_command(&vec![]), None);
    let step = plan_from_outcome(BackendOutcome::Completed(vec![]));
    assert_eq!(step, RunnerStep::NoCommand);
}

#[test]
fn choice_without_message_yields_no_command() {
    let step = plan_from_outcome(BackendOutcome::Completed(vec![None]));
    assert_eq!(step, RunnerStep::NoCommand);
}

#[test]
fn blank_reply_yields_no_command() {
    let step = plan_from_outcome(BackendOutcome::Completed(vec![Some("  \n".to_string())]));
    assert_eq!(step, RunnerStep::NoCommand);
}

#[test]
fn backend_failure_is_reported_not_executed() {
    let step = plan_from_outcome(BackendOutcome::Failed("connection refused".to_string()));
    assert_eq!(step, RunnerStep::ReportError("connection refused".to_string()));
    assert_eq!(exit_code_for(&step), 1);
}

#[test]
fn successful_steps_exit_zero() {
    assert_eq!(exit_code_for(&RunnerStep::NoCommand), 0);
    assert_eq!(exit_code_for(&RunnerStep::Propose("ls".to_string())), 0);
}

#[test]
fn first_choice_is_taken_and_trimmed() {
    let choices = vec![Some("  ls -la \n".to_string()), Some("pwd".to_string())];
    assert_eq!(extract_command(&choices), Some("ls -la".to_string()));
}

#[test]
fn end_to_end_list_files_confirmed() {
    // The stubbed backend answers the prompt "list files" with "ls -la".
    let step = plan_from_outcome(BackendOutcome::Completed(vec![Some("ls -la\n".to_string())]));
    let command = match step {
        RunnerStep::Propose(c) => c,
        other => panic!("expected a proposal, got {:?}", other),
    };
    assert_eq!(command, "ls -la");
    assert!(confirm_execution("y"));
    let shell = Shell::classify("/bin/sh");
    let (program, flag) = shell.to_shell_command_and_command_arg(&command);
    assert_eq!(program, "sh");
    assert_eq!(flag, "-c");
}

#[test]
fn end_to_end_list_files_cancelled() {
    let step = plan_from_outcome(BackendOutcome::Completed(vec![Some("ls -la".to_string())]));
    assert_eq!(step, RunnerStep::Propose("ls -la".to_string()));
    assert!(!confirm_execution("n"));
    assert_eq!(exit_code_for(&step), 0);
}

#[test]
fn confirmation_accepts_only_y() {
    assert!(confirm_execution("y"));
    assert!(confirm_execution("Y\n"));
    assert!(confirm_execution("  y  "));
    assert!(!confirm_execution("yes"));
    assert!(!confirm_execution("n"));
    assert!(!confirm_execution(""));
    assert!(!confirm_execution("q"));
}

#[test]
fn trim_removes_surrounding_whitespace() {
    assert_eq!(trim("  ls -la \t\n"), "ls -la");
    assert_eq!(trim(""), "");
    assert_eq!(trim(" \n\t"), "");
    assert_eq!(trim("pwd"), "pwd");
}

#[test]
fn substring_search_finds_and_misses() {
    assert!(str_contains("/usr/local/bin/bash", "bash"));
    assert!(str_contains("abc", ""));
    assert!(!str_contains("abc", "abcd"));
    assert!(!str_contains("zsh", "bash"));
}

#[test]
fn decimal_rendering_is_plain() {
    assert_eq!(u32_to_dec(0), "0");
    assert_eq!(u32_to_dec(7), "7");
    assert_eq!(u32_to_dec(4096), "4096");
    assert_eq!(u32_to_dec(120), "120");
}

#[test]
fn model_equality_follows_content() {
    assert_eq!(Model::Ollama("a".to_string()), Model::Ollama("a".to_string()));
    assert_ne!(Model::Ollama("a".to_string()), Model::Ollama("b".to_string()));
    assert_ne!(Model::OpenAiGpt4o, Model::OpenAiGpt4oMini);
}
