//! The pairing of a public script with the program it runs.

use crate::path::join;
use crate::path::join_path;
use crate::path::lemma_join_path_injective;
use crate::path::Platform;
use vstd::prelude::*;
use vstd::string::*;

verus! {

/// Mapping from the location of a global script to an executable in a package
/// environment.
#[derive(Debug, PartialEq, Eq)]
pub struct ScriptExecMapping {
    /// Where the script is written, inside the public script directory.
    pub global_script_path: String,
    /// The program that the script runs, by the path that leads to it: the
    /// root of the environment followed by the path of the program inside
    /// it, so an absolute path wherever the root is one.
    pub original_executable: String,
}

/// The mathematical content of a [`ScriptExecMapping`].
pub struct ScriptExecMappingView {
    pub global_script_path: Seq<char>,
    pub original_executable: Seq<char>,
}

impl View for ScriptExecMapping {
    type V = ScriptExecMappingView;

    open spec fn view(&self) -> ScriptExecMappingView {
        ScriptExecMappingView {
            global_script_path: self.global_script_path@,
            original_executable: self.original_executable@,
        }
    }
}

/// What is added to a command name to make the name of its script file: the
/// batch-file extension on Windows, nothing elsewhere.
pub open spec fn script_suffix(platform: Platform) -> Seq<char> {
    match platform {
        Platform::Unix => Seq::empty(),
        Platform::Windows => ".bat"@,
    }
}

/// The path of the script that makes `exposed_name` a command: a file in
/// `bin_dir` named after the command.
pub open spec fn script_path(
    platform: Platform,
    bin_dir: Seq<char>,
    exposed_name: Seq<char>,
) -> Seq<char> {
    join_path(platform, bin_dir, exposed_name) + script_suffix(platform)
}

/// Different command names get different script files in one directory.
pub proof fn lemma_script_path_injective(
    platform: Platform,
    bin_dir: Seq<char>,
    a: Seq<char>,
    b: Seq<char>,
)
    requires
        script_path(platform, bin_dir, a) == script_path(platform, bin_dir, b),
    ensures
        a == b,
{
    let x = join_path(platform, bin_dir, a);
    let y = join_path(platform, bin_dir, b);
    let suffix = script_suffix(platform);
    assert(x =~= (x + suffix).subrange(0, x.len() as int));
    assert(y =~= (y + suffix).subrange(0, y.len() as int));
    assert((x + suffix).len() == x.len() + suffix.len());
    assert((y + suffix).len() == y.len() + suffix.len());
    lemma_join_path_injective(platform, bin_dir, a, b);
}

/// Returns the path of the script for the given exposed name.
pub fn executable_script_path(platform: Platform, bin_dir: &str, exposed_name: &str) -> (path:
    String)
    ensures
        path@ == script_path(platform, bin_dir@, exposed_name@),
{
    let joined = join(platform, bin_dir, exposed_name);
    match platform {
        Platform::Unix => {
            assert(joined@ + Seq::<char>::empty() =~= joined@);
            joined
        },
        Platform::Windows => joined.concat(".bat"),
    }
}

} // verus!
