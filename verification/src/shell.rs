//! Shell dialects and the command lines written for them.

use rattler_shell::shell::Bash;
use rattler_shell::shell::CmdExe;
use rattler_shell::shell::Fish;
use rattler_shell::shell::NuShell;
use rattler_shell::shell::Shell;
use rattler_shell::shell::ShellEnum;
use rattler_shell::shell::Xonsh;
use rattler_shell::shell::Zsh;
use vstd::prelude::*;
use vstd::string::*;

verus! {

/// The shell dialects a script can be written for.
#[derive(Clone, Copy, Debug, PartialEq, Eq, Structural)]
pub enum ShellKind {
    Bash,
    Zsh,
    Xonsh,
    CmdExe,
    PowerShell,
    Fish,
    NuShell,
}

/// The token by which a script of the given dialect hands all of its own
/// arguments on to a command.
pub open spec fn catch_all_arg(shell: ShellKind) -> Seq<char> {
    match shell {
        ShellKind::CmdExe => "%*"@,
        ShellKind::PowerShell => "@args"@,
        _ => "\"$@\""@,
    }
}

/// The line that runs `program` with `arguments` in a script of the given
/// dialect. The command interpreter's line starts with `@`, which keeps the
/// line itself from being echoed.
pub open spec fn command_line(
    shell: ShellKind,
    program: Seq<char>,
    arguments: Seq<char>,
) -> Seq<char> {
    let line = (program.push(' ') + arguments).push('\n');
    match shell {
        ShellKind::CmdExe => seq!['@'] + line,
        _ => line,
    }
}

/// Returns the token that forwards all arguments passed to a script.
pub fn get_catch_all_arg(shell: ShellKind) -> (token: &'static str)
    ensures
        token@ == catch_all_arg(shell),
{
    match shell {
        ShellKind::CmdExe => "%*",
        ShellKind::PowerShell => "@args",
        _ => "\"$@\"",
    }
}

/// Appends to `script` the line that runs `program` with `arguments`, for
/// any dialect but PowerShell.
///
/// Calls `rattler_shell::shell::Shell::run_command` on the `ShellEnum` variant
/// that stands for `shell`, with the two-element command `[program,
/// arguments]`. The contract restates what that method writes: the elements
/// joined by one space and ended by a line feed, behind an `@` for the command
/// interpreter and bare for every other dialect. Writing into a `String`
/// cannot fail. PowerShell is left out: the outside crate builds its
/// PowerShell value only by starting a process that looks for the shell, and
/// nothing here starts a process.
#[verifier::external_body]
pub(crate) fn run_command(shell: ShellKind, script: &mut String, program: &str, arguments: &str)
    requires
        shell != ShellKind::PowerShell,
    ensures
        final(script)@ == old(script)@ + command_line(shell, program@, arguments@),
{
    let writer: ShellEnum = match shell {
        ShellKind::Bash => Bash::default().into(),
        ShellKind::Zsh => Zsh.into(),
        ShellKind::Xonsh => Xonsh.into(),
        ShellKind::CmdExe => CmdExe.into(),
        ShellKind::Fish => Fish.into(),
        ShellKind::NuShell => NuShell.into(),
        ShellKind::PowerShell => return,
    };
    writer.run_command(script, [program, arguments]).expect("a String takes every write");
}

/// Appends to `script` the line that runs `program` with `arguments`.
///
/// The line for PowerShell is written here: it is the plain line, the
/// command and its arguments with a space between them. For every other
/// dialect the shell's own writer is called.
pub fn append_command(shell: ShellKind, script: &mut String, program: &str, arguments: &str)
    ensures
        final(script)@ == old(script)@ + command_line(shell, program@, arguments@),
{
    match shell {
        ShellKind::PowerShell => {
            let ghost before = script@;
            script.append(program);
            script.append(" ");
            script.append(arguments);
            script.append("\n");
            proof {
                reveal_strlit(" ");
                reveal_strlit("\n");
                assert(script@ =~= before + command_line(shell, program@, arguments@));
            }
        },
        _ => run_command(shell, script, program, arguments),
    }
}

} // verus!
