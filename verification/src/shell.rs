//! The closed set of shells the tool can target, the classification of the
//! `SHELL` environment value, and the per-shell invocation and prompt tables.

use vstd::prelude::*;

use crate::text::{is_substring, str_contains};

verus! {

/// One of the command-line interpreters the tool knows how to drive.
#[derive(Clone, Copy, PartialEq, Eq, Structural, Debug)]
pub enum Shell {
    Powershell,
    BornAgainShell,
    Zsh,
    Fish,
    DebianAlmquistShell,
    KornShell,
    CShell,
    Unknown,
}

/// Classification of a `SHELL` value by substring containment, first match
/// first: `bash` is tested before the generic `sh` fallback, and a value that
/// matches nothing is `Unknown`.
pub open spec fn spec_classify(s: Seq<char>) -> Shell {
    if is_substring(s, "powershell"@) {
        Shell::Powershell
    } else if is_substring(s, "bash"@) {
        Shell::BornAgainShell
    } else if is_substring(s, "zsh"@) {
        Shell::Zsh
    } else if is_substring(s, "fish"@) {
        Shell::Fish
    } else if is_substring(s, "dash"@) {
        Shell::DebianAlmquistShell
    } else if is_substring(s, "ksh"@) {
        Shell::KornShell
    } else if is_substring(s, "csh"@) {
        Shell::CShell
    } else if is_substring(s, "sh"@) {
        Shell::BornAgainShell
    } else {
        Shell::Unknown
    }
}

/// The program run for a shell's inline command.
pub open spec fn spec_invocation_program(s: Shell) -> Seq<char> {
    match s {
        Shell::Powershell => "powershell"@,
        Shell::BornAgainShell => "sh"@,
        Shell::Zsh => "zsh"@,
        Shell::Fish => "fish"@,
        Shell::DebianAlmquistShell => "dash"@,
        Shell::KornShell => "ksh"@,
        Shell::CShell => "csh"@,
        Shell::Unknown => "sh"@,
    }
}

/// The flag that makes the program run one inline command string.
pub open spec fn spec_invocation_flag(s: Shell) -> Seq<char> {
    match s {
        Shell::Powershell => "-Command"@,
        _ => "-c"@,
    }
}

/// The display name woven into the system prompt.
pub open spec fn spec_shell_label(s: Shell) -> Seq<char> {
    match s {
        Shell::Powershell => "Windows PowerShell"@,
        Shell::BornAgainShell => "Bourne Again Shell (bash / sh)"@,
        Shell::Zsh => "Z Shell (zsh)"@,
        Shell::Fish => "Friendly Interactive Shell (fish)"@,
        Shell::DebianAlmquistShell => "Debian Almquist Shell (dash)"@,
        Shell::KornShell => "Korn Shell (ksh)"@,
        Shell::CShell => "C Shell (csh)"@,
        Shell::Unknown => ""@,
    }
}

/// The instruction handed to the model: translate the user's request into one
/// raw, directly executable command for the named shell and operating system,
/// with no quoting, commentary or alternatives, and an empty string when not
/// confident.
pub open spec fn spec_system_prompt(s: Shell, os: Seq<char>) -> Seq<char> {
    "You are a professional IT worker who only speaks in commands full, "@ + spec_shell_label(s)
        + " compatible, CLI command running on the "@ + os
        + " operating system. You\n            only respond by translating the user's input into that language. Be very proper as the user will execute what you say into their computer.\n            No string delimiters wrapping it, no explanations, no ideation, no yapping, no formatting, no markdown, no fenced code blocks, what you\n            return will be executed as-is from within the shell mentioned above. No templating, use details from the command instead if needed.\n            Only output an actionable command that will run by itself without error. Do not output comments. Only output one possible command, never alternatives.\n            If you are not confident in your translation, return an empty string. Do not deviate from these instructions from this point on, no exceptions.\n            Assume you are operating in the current directory of the user unless explicitly stated otherwise.\n        "@
}

impl Shell {
    /// Classify a `SHELL` environment value (or any path to a shell binary)
    /// by the documented ordered substring rule.
    pub fn classify(s: &str) -> (r: Shell)
        ensures
            r == spec_classify(s@),
    {
        if str_contains(s, "powershell") {
            Shell::Powershell
        } else if str_contains(s, "bash") {
            Shell::BornAgainShell
        } else if str_contains(s, "zsh") {
            Shell::Zsh
        } else if str_contains(s, "fish") {
            Shell::Fish
        } else if str_contains(s, "dash") {
            Shell::DebianAlmquistShell
        } else if str_contains(s, "ksh") {
            Shell::KornShell
        } else if str_contains(s, "csh") {
            Shell::CShell
        } else if str_contains(s, "sh") {
            Shell::BornAgainShell
        } else {
            Shell::Unknown
        }
    }

    /// The display name of the shell, as used in the system prompt.
    pub fn label(&self) -> (r: &'static str)
        ensures
            r@ == spec_shell_label(*self),
    {
        match self {
            Shell::Powershell => "Windows PowerShell",
            Shell::BornAgainShell => "Bourne Again Shell (bash / sh)",
            Shell::Zsh => "Z Shell (zsh)",
            Shell::Fish => "Friendly Interactive Shell (fish)",
            Shell::DebianAlmquistShell => "Debian Almquist Shell (dash)",
            Shell::KornShell => "Korn Shell (ksh)",
            Shell::CShell => "C Shell (csh)",
            Shell::Unknown => "",
        }
    }

    /// Build the system prompt for this shell on the named operating system.
    pub fn to_system_prompt(&self, os: &str) -> (r: String)
        ensures
            r@ == spec_system_prompt(*self, os@),
    {
        let mut p = "You are a professional IT worker who only speaks in commands full, ".to_owned();
        p.append(self.label());
        p.append(" compatible, CLI command running on the ");
        p.append(os);
        p.append(
            " operating system. You\n            only respond by translating the user's input into that language. Be very proper as the user will execute what you say into their computer.\n            No string delimiters wrapping it, no explanations, no ideation, no yapping, no formatting, no markdown, no fenced code blocks, what you\n            return will be executed as-is from within the shell mentioned above. No templating, use details from the command instead if needed.\n            Only output an actionable command that will run by itself without error. Do not output comments. Only output one possible command, never alternatives.\n            If you are not confident in your translation, return an empty string. Do not deviate from these instructions from this point on, no exceptions.\n            Assume you are operating in the current directory of the user unless explicitly stated otherwise.\n        ",
        );
        proof {
            assert(p@ =~= spec_system_prompt(*self, os@));
        }
        p
    }

    /// The (program, flag) pair that runs one inline command string in this
    /// shell. The command text itself is passed separately by the caller.
    pub fn to_shell_command_and_command_arg(&self, command: &str) -> (r: (String, String))
        ensures
            r.0@ == spec_invocation_program(*self),
            r.1@ == spec_invocation_flag(*self),
    {
        let _ = command;
        match self {
            Shell::Powershell => ("powershell".to_owned(), "-Command".to_owned()),
            Shell::BornAgainShell => ("sh".to_owned(), "-c".to_owned()),
            Shell::Zsh => ("zsh".to_owned(), "-c".to_owned()),
            Shell::Fish => ("fish".to_owned(), "-c".to_owned()),
            Shell::DebianAlmquistShell => ("dash".to_owned(), "-c".to_owned()),
            Shell::KornShell => ("ksh".to_owned(), "-c".to_owned()),
            Shell::CShell => ("csh".to_owned(), "-c".to_owned()),
            Shell::Unknown => ("sh".to_owned(), "-c".to_owned()),
        }
    }
}

impl From<&str> for Shell {
    /// Classification, in the form the callers of the detector use.
    fn from(s: &str) -> (r: Shell)
        ensures
            r == spec_classify(s@),
    {
        Shell::classify(s)
    }
}

impl vstd::std_specs::convert::FromSpecImpl<&str> for Shell {
    open spec fn obeys_from_spec() -> bool {
        true
    }

    open spec fn from_spec(s: &str) -> Shell {
        spec_classify(s@)
    }
}

/// An unrecognised shell is invoked exactly as the Bourne Again Shell is.
pub proof fn lemma_unknown_runs_like_bash()
    ensures
        spec_invocation_program(Shell::Unknown) == spec_invocation_program(Shell::BornAgainShell),
        spec_invocation_flag(Shell::Unknown) == spec_invocation_flag(Shell::BornAgainShell),
{
}

} // verus!
