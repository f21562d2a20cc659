//! The helper commands: recovery-file generation and shell completions.

use vstd::prelude::*;
use crate::text::{concat2, concat3, push_str, string_from_chars};
use crate::util::views;

verus! {

/// The shells that completion scripts can be written for.
#[derive(Debug, Clone, Copy, PartialEq, Eq, Structural)]
pub enum Shell {
    Bash,
    Elvish,
    Fish,
    PowerShell,
    Zsh,
}

/// The helper commands. Paths are given as the text the user typed.
#[derive(Debug, Clone)]
pub enum Command {
    /// Generate a recovery file with a random keypair for demos/tests.
    GenerateRecovery {
        /// Path where the recovery file should be written.
        output: String,
        /// Passphrase for the recovery file; asked for where absent.
        passphrase: Option<String>,
    },
    /// Emit shell completion scripts for the CLI.
    Completions {
        /// Target shell.
        shell: Shell,
        /// Output path; where absent, the script goes to standard output.
        outfile: Option<String>,
    },
}

/// The name by which a shell is given on the command line and printed,
/// as `clap_complete::Shell`'s `Display` writes it.
pub open spec fn spec_shell_name(shell: Shell) -> Seq<char> {
    match shell {
        Shell::Bash => "bash"@,
        Shell::Elvish => "elvish"@,
        Shell::Fish => "fish"@,
        Shell::PowerShell => "powershell"@,
        Shell::Zsh => "zsh"@,
    }
}

impl Shell {
    /// The shell's name.
    pub fn name(&self) -> (n: String)
        ensures
            n@ == spec_shell_name(*self),
    {
        match self {
            Shell::Bash => "bash".to_owned(),
            Shell::Elvish => "elvish".to_owned(),
            Shell::Fish => "fish".to_owned(),
            Shell::PowerShell => "powershell".to_owned(),
            Shell::Zsh => "zsh".to_owned(),
        }
    }
}

/// The prompt for the passphrase of a new recovery file at `output`.
pub fn recovery_prompt(output: &str) -> (p: String)
    ensures
        p@ == "Enter a passphrase to protect "@ + output@ + " (input hidden): "@,
{
    concat3("Enter a passphrase to protect ", output, " (input hidden): ")
}

/// The lines that `tools generate-recovery` prints once the file is written.
pub open spec fn spec_recovery_report(
    output: Seq<char>,
    passphrase: Seq<char>,
    public_key: Seq<char>,
) -> Seq<Seq<char>> {
    seq![
        "Recovery file written to "@ + output,
        "Keep this passphrase safe: "@ + passphrase,
        "User Pubky public key: "@ + public_key,
    ]
}

/// The lines that `tools generate-recovery` prints once the file is written.
pub fn recovery_report(output: &str, passphrase: &str, public_key: &str) -> (lines: Vec<String>)
    ensures
        views(lines@) == spec_recovery_report(output@, passphrase@, public_key@),
{
    let mut lines: Vec<String> = Vec::new();
    lines.push(concat2("Recovery file written to ", output));
    lines.push(concat2("Keep this passphrase safe: ", passphrase));
    lines.push(concat2("User Pubky public key: ", public_key));
    assert(views(lines@) =~= spec_recovery_report(output@, passphrase@, public_key@));
    lines
}

/// The line that `tools completions` prints once the script is written to
/// `path`.
pub fn completion_report(shell: Shell, path: &str) -> (s: String)
    ensures
        s@ == "Completion script for "@ + spec_shell_name(shell) + " written to "@ + path@,
{
    let name = shell.name();
    let mut v: Vec<char> = Vec::new();
    push_str(&mut v, "Completion script for ");
    push_str(&mut v, name.as_str());
    push_str(&mut v, " written to ");
    push_str(&mut v, path);
    string_from_chars(v.as_slice())
}

} // verus!
