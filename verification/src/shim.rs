//! The text of the scripts that make programs of an environment callable.
//!
//! Every script starts with the activation script of the environment and
//! ends with one line that runs the program, handing on all arguments. For
//! the command interpreter the whole is wrapped so that nothing is echoed and
//! no change to a variable outlives the script. Nothing is written here: the
//! result is a list of files for the caller to write.

use crate::error::GlobalError;
use crate::error::GlobalErrorView;
use crate::mapping::ScriptExecMapping;
use crate::mapping::ScriptExecMappingView;
use crate::path::Platform;
use crate::shell::catch_all_arg;
use crate::shell::command_line;
use crate::shell::get_catch_all_arg;
use crate::shell::append_command;
use crate::shell::ShellKind;
use crate::text::views;
use vstd::prelude::*;
use vstd::string::*;

verus! {

/// One script to be written to the public script directory.
#[derive(Debug, PartialEq, Eq)]
pub struct ShimFile {
    /// Where the script is written. A file that is already there is replaced.
    pub path: String,
    /// The text of the script.
    pub contents: String,
    /// The permission bits to set on the file once it is written, where the
    /// platform has such bits.
    pub mode: Option<u32>,
}

/// The mathematical content of a [`ShimFile`].
pub struct ShimFileView {
    pub path: Seq<char>,
    pub contents: Seq<char>,
    pub mode: Option<u32>,
}

impl View for ShimFile {
    type V = ShimFileView;

    open spec fn view(&self) -> ShimFileView {
        ShimFileView { path: self.path@, contents: self.contents@, mode: self.mode }
    }
}

/// The shell whose dialect the scripts of a platform are written in.
pub open spec fn script_shell(platform: Platform) -> ShellKind {
    match platform {
        Platform::Unix => ShellKind::Bash,
        Platform::Windows => ShellKind::CmdExe,
    }
}

/// What is done to the search path when an environment is activated.
#[derive(Clone, Copy, Debug, PartialEq, Eq, Structural)]
pub enum PathModification {
    /// The directories of the environment stand in place of the search path.
    Replace,
    /// They are put behind what the search path holds.
    Append,
    /// They are put in front of what the search path holds.
    Prepend,
}

/// What the activation of an environment is computed from.
#[derive(Debug, PartialEq, Eq)]
pub struct ActivationRequest {
    /// The root of the environment to activate.
    pub prefix_root: String,
    /// The shell that the commands are written for.
    pub shell: ShellKind,
    /// The environment that is active now and has to be left first.
    pub active_prefix: Option<String>,
    /// The search path to start from.
    pub search_path: Option<Vec<String>>,
    /// What happens to the search path.
    pub path_modification: PathModification,
}

/// The line that makes a script run by itself on Unix.
pub open spec fn shebang() -> Seq<char> {
    "#!/bin/sh\n"@
}

/// The activation script of an environment, made from the commands that
/// activate it: on Unix they follow the shebang line, elsewhere they stand
/// alone.
pub open spec fn activation_script(platform: Platform, commands: Seq<char>) -> Seq<char> {
    match platform {
        Platform::Unix => shebang() + commands,
        Platform::Windows => commands,
    }
}

/// What comes of the attempt to build an activation script: the script, or
/// the report that the commands could not be had.
pub open spec fn activation_outcome(
    platform: Platform,
    environment_name: Seq<char>,
    commands: Result<Seq<char>, Seq<char>>,
) -> Result<Seq<char>, GlobalErrorView> {
    match commands {
        Ok(text) => Ok(activation_script(platform, text)),
        Err(reason) => Err(GlobalErrorView::Activation { environment_name, reason }),
    }
}

/// `path` between double quotes.
pub open spec fn quoted(path: Seq<char>) -> Seq<char> {
    (seq!['"'] + path).push('"')
}

/// The lines that open the wrapping of a script for the command interpreter:
/// no echo, and a scope for changes to variables.
pub open spec fn cmd_opening() -> Seq<char> {
    "@echo off\nsetlocal\n"@
}

/// The line that closes the wrapping: the end of the scope.
pub open spec fn cmd_closing() -> Seq<char> {
    "\nendlocal"@
}

/// The text of the script that activates an environment and then runs
/// `program`, handing on all arguments.
pub open spec fn shim_text(shell: ShellKind, activation: Seq<char>, program: Seq<char>) -> Seq<
    char,
> {
    let script = activation + command_line(shell, quoted(program), catch_all_arg(shell));
    match shell {
        ShellKind::CmdExe => cmd_opening() + script + cmd_closing(),
        _ => script,
    }
}

/// The permission bits of a script: readable and executable by all and
/// writable by the owner on Unix, none to set on Windows.
pub open spec fn script_mode(platform: Platform) -> Option<u32> {
    match platform {
        Platform::Unix => Some(0o755u32),
        Platform::Windows => None,
    }
}

/// The script file for one mapping. The script runs the program of the
/// mapping at the path that the mapping gives.
pub open spec fn shim_file(platform: Platform, shell: ShellKind, activation: Seq<char>) -> spec_fn(ScriptExecMappingView) -> ShimFileView {
    |mapping: ScriptExecMappingView|
        ShimFileView {
            path: mapping.global_script_path,
            contents: shim_text(shell, activation, mapping.original_executable),
            mode: script_mode(platform),
        }
}

/// The script files for a list of mappings, one for each, in order.
pub open spec fn shim_files(
    platform: Platform,
    shell: ShellKind,
    activation: Seq<char>,
    mappings: Seq<ScriptExecMappingView>,
) -> Seq<ShimFileView> {
    mappings.map_values(shim_file(platform, shell, activation))
}

/// The first line of a text: what stands in front of its first line feed.
pub open spec fn first_line(text: Seq<char>) -> Seq<char>
    decreases text.len(),
{
    if text.len() == 0 || text[0] == '\n' {
        Seq::empty()
    } else {
        seq![text[0]] + first_line(text.drop_first())
    }
}

/// The last line of a text: what stands behind its last line feed.
pub open spec fn last_line(text: Seq<char>) -> Seq<char>
    decreases text.len(),
{
    if text.len() == 0 || text.last() == '\n' {
        Seq::empty()
    } else {
        last_line(text.drop_last()).push(text.last())
    }
}

/// The last line of a text that is not empty, or the empty text where every
/// line is.
pub open spec fn last_non_empty_line(text: Seq<char>) -> Seq<char>
    decreases text.len(),
{
    if text.len() == 0 {
        Seq::empty()
    } else if text.last() == '\n' {
        last_non_empty_line(text.drop_last())
    } else {
        last_line(text)
    }
}

/// A text that starts with a line and a line feed has that line as its first.
pub proof fn lemma_first_line(line: Seq<char>, rest: Seq<char>)
    requires
        forall|i: int| 0 <= i < line.len() ==> line[i] != '\n',
    ensures
        first_line(line.push('\n') + rest) == line,
    decreases line.len(),
{
    let text = line.push('\n') + rest;
    if line.len() == 0 {
        assert(text[0] == '\n');
    } else {
        assert(text[0] == line[0]);
        assert(text.drop_first() =~= line.drop_first().push('\n') + rest);
        lemma_first_line(line.drop_first(), rest);
        assert(seq![line[0]] + line.drop_first() =~= line);
    }
}

/// A text that ends with a line feed and a line has that line as its last.
pub proof fn lemma_last_line(front: Seq<char>, line: Seq<char>)
    requires
        forall|i: int| 0 <= i < line.len() ==> line[i] != '\n',
    ensures
        last_line(front.push('\n') + line) == line,
    decreases line.len(),
{
    let text = front.push('\n') + line;
    if line.len() == 0 {
        assert(text.last() == '\n');
    } else {
        assert(text.last() == line.last());
        assert(text.drop_last() =~= front.push('\n') + line.drop_last());
        lemma_last_line(front, line.drop_last());
        assert(line.drop_last().push(line.last()) =~= line);
    }
}

/// A script for the command interpreter has `@echo off` as its first line
/// and `endlocal` as its last line that is not empty, whatever the
/// activation script and the program are.
pub proof fn lemma_cmd_shim_is_wrapped(activation: Seq<char>, program: Seq<char>)
    ensures
        first_line(shim_text(ShellKind::CmdExe, activation, program)) == "@echo off"@,
        last_non_empty_line(shim_text(ShellKind::CmdExe, activation, program)) == "endlocal"@,
{
    reveal_strlit("@echo off\nsetlocal\n");
    reveal_strlit("\nendlocal");
    reveal_strlit("@echo off");
    reveal_strlit("setlocal\n");
    reveal_strlit("endlocal");
    let shell = ShellKind::CmdExe;
    let script = activation + command_line(shell, quoted(program), catch_all_arg(shell));
    let text = shim_text(shell, activation, program);
    let echo_off = "@echo off"@;
    let end = "endlocal"@;
    assert(text =~= echo_off.push('\n') + ("setlocal\n"@ + script + cmd_closing()));
    lemma_first_line(echo_off, "setlocal\n"@ + script + cmd_closing());
    assert(text =~= (cmd_opening() + script).push('\n') + end);
    lemma_last_line(cmd_opening() + script, end);
    assert(text.last() == 'l');
}

/// Picks the shell whose dialect the scripts of `platform` are written in.
pub fn shell_for(platform: Platform) -> (shell: ShellKind)
    ensures
        shell == script_shell(platform),
{
    match platform {
        Platform::Unix => ShellKind::Bash,
        Platform::Windows => ShellKind::CmdExe,
    }
}

/// Says what the activation of the environment at `prefix_root` is computed
/// from. Nothing of what is active when the sync runs goes into it: no
/// environment to leave and no search path to start from. The directories of
/// the environment are put in front of whatever search path the script finds
/// when it runs.
pub fn activation_request(platform: Platform, prefix_root: &str) -> (request: ActivationRequest)
    ensures
        request.prefix_root@ == prefix_root@,
        request.shell == script_shell(platform),
        request.active_prefix is None,
        request.search_path is None,
        request.path_modification == PathModification::Prepend,
{
    ActivationRequest {
        prefix_root: prefix_root.to_owned(),
        shell: shell_for(platform),
        active_prefix: None,
        search_path: None,
        path_modification: PathModification::Prepend,
    }
}

/// Create the environment activation script.
///
/// `commands` is what the activation of the environment came to: the
/// commands that set it up for the shell, or the reason for which they could
/// not be had. On Unix the commands are put behind a shebang line.
pub fn create_activation_script(
    platform: Platform,
    environment_name: &str,
    commands: Result<String, String>,
) -> (script: Result<String, GlobalError>)
    ensures
        match script {
            Ok(text) => activation_outcome(
                platform,
                environment_name@,
                match commands {
                    Ok(c) => Ok(c@),
                    Err(r) => Err(r@),
                },
            ) == Ok::<Seq<char>, GlobalErrorView>(text@),
            Err(error) => activation_outcome(
                platform,
                environment_name@,
                match commands {
                    Ok(c) => Ok(c@),
                    Err(r) => Err(r@),
                },
            ) == Err::<Seq<char>, GlobalErrorView>(error@),
        },
        script is Ok <==> commands is Ok,
{
    match commands {
        Ok(text) => match platform {
            Platform::Unix => Ok("#!/bin/sh\n".to_owned().concat(text.as_str())),
            Platform::Windows => Ok(text),
        },
        Err(reason) => Err(
            GlobalError::Activation { environment_name: environment_name.to_owned(), reason },
        ),
    }
}

/// Writes the text of the script that activates an environment and then
/// runs `program`.
pub fn executable_script(shell: ShellKind, activation: &str, program: &str) -> (text: String)
    ensures
        text@ == shim_text(shell, activation@, program@),
{
    let mut script = activation.to_owned();
    let target = "\"".to_owned().concat(program).concat("\"");
    proof {
        reveal_strlit("\"");
        assert(target@ =~= quoted(program@));
    }
    append_command(shell, &mut script, target.as_str(), get_catch_all_arg(shell));
    match shell {
        ShellKind::CmdExe => {
            // `@echo off` keeps the script from being echoed, and `setlocal`
            // keeps what activation does to variables out of the calling
            // shell, where PATH would otherwise grow with every call.
            "@echo off\nsetlocal\n".to_owned().concat(script.as_str()).concat("\nendlocal")
        },
        _ => script,
    }
}

/// Create the executable scripts by modifying the activation script to
/// activate the environment and run the executable.
///
/// The result holds one file per mapping, in the order of the mappings.
pub fn create_executable_scripts(
    platform: Platform,
    mapped_executables: &Vec<ScriptExecMapping>,
    shell: ShellKind,
    activation: &str,
) -> (files: Vec<ShimFile>)
    ensures
        views(files@) == shim_files(platform, shell, activation@, views(mapped_executables@)),
{
    let mut files: Vec<ShimFile> = Vec::new();
    let mut i: usize = 0;
    while i < mapped_executables.len()
        invariant
            i <= mapped_executables.len(),
            files@.len() == i,
            forall|j: int|
                0 <= j < i ==> (#[trigger] files@[j])@ == shim_file(platform, shell, activation@)(
                    mapped_executables@[j]@,
                ),
        decreases mapped_executables.len() - i,
    {
        let mapping = &mapped_executables[i];
        let file = ShimFile {
            path: mapping.global_script_path.clone(),
            contents: executable_script(shell, activation, mapping.original_executable.as_str()),
            mode: match platform {
                Platform::Unix => Some(0o755),
                Platform::Windows => None,
            },
        };
        files.push(file);
        i = i + 1;
    }
    assert(views(files@) =~= shim_files(
        platform,
        shell,
        activation@,
        views(mapped_executables@),
    ));
    files
}

} // verus!
