//! Bringing the scripts of one environment in line with its bindings.
//!
//! A sync runs through a fixed sequence of steps. The steps that touch the
//! outside world (raising limits, installing, asking the file system) are
//! the caller's; [`next_state`] says which step follows on the outcome of
//! the last, and [`sync_environment`] works out, from what the caller has
//! gathered, the files that the last step has to write.

use crate::bindings::entries_of;
use crate::bindings::keys_distinct;
use crate::bindings::map_entries;
use crate::classify::InstalledPackageRecord;
use crate::classify::InstalledPackageRecordView;
use crate::error::GlobalError;
use crate::error::GlobalErrorView;
use crate::path::Platform;
use crate::resolve::environment_executables;
use crate::resolve::find_named;
use crate::resolve::resolve_all;
use crate::resolve::resolve_entries;
use crate::shim::activation_outcome;
use crate::shim::create_activation_script;
use crate::shim::create_executable_scripts;
use crate::shim::script_shell;
use crate::shim::shell_for;
use crate::shim::shim_files;
use crate::shim::ShimFile;
use crate::shim::ShimFileView;
use crate::text::views;
use indexmap::IndexMap;
use vstd::prelude::*;

verus! {

/// Where a sync stands.
#[derive(Clone, Copy, Debug, PartialEq, Eq, Structural)]
pub enum SyncState {
    Start,
    /// Raise the limit on open files: installing may open many at once.
    RaiseResourceLimits,
    /// Make sure the directory of the environment exists.
    EnsureEnvironmentDir,
    /// Let the installer bring the packages into the environment.
    Install,
    /// Read the records of the packages that are now installed.
    EnumerateInstalledPackages,
    /// Build the activation script of the environment.
    BuildActivationScript,
    /// Ask the operating system which files in binary directories can run.
    ClassifyExecutables,
    /// Resolve the entry points of the bindings.
    ResolveBindings,
    /// Write the scripts.
    WriteShims,
    /// Every step is done.
    Done,
    /// A step failed and the sync was given up. What earlier steps put on
    /// disk is left there.
    Aborted,
}

/// How a step ended.
#[derive(Clone, Copy, Debug, PartialEq, Eq, Structural)]
pub enum StepOutcome {
    Succeeded,
    Failed,
}

/// The place of a state in the sequence of a sync. The two states in which
/// a sync ends come last.
pub open spec fn rank(state: SyncState) -> int {
    match state {
        SyncState::Start => 0,
        SyncState::RaiseResourceLimits => 1,
        SyncState::EnsureEnvironmentDir => 2,
        SyncState::Install => 3,
        SyncState::EnumerateInstalledPackages => 4,
        SyncState::BuildActivationScript => 5,
        SyncState::ClassifyExecutables => 6,
        SyncState::ResolveBindings => 7,
        SyncState::WriteShims => 8,
        SyncState::Done => 9,
        SyncState::Aborted => 10,
    }
}

/// Whether a sync has ended in `state`.
pub open spec fn is_final(state: SyncState) -> bool {
    state == SyncState::Done || state == SyncState::Aborted
}

/// The state that follows `state` where its step succeeded.
pub open spec fn successor(state: SyncState) -> SyncState {
    match state {
        SyncState::Start => SyncState::RaiseResourceLimits,
        SyncState::RaiseResourceLimits => SyncState::EnsureEnvironmentDir,
        SyncState::EnsureEnvironmentDir => SyncState::Install,
        SyncState::Install => SyncState::EnumerateInstalledPackages,
        SyncState::EnumerateInstalledPackages => SyncState::BuildActivationScript,
        SyncState::BuildActivationScript => SyncState::ClassifyExecutables,
        SyncState::ClassifyExecutables => SyncState::ResolveBindings,
        SyncState::ResolveBindings => SyncState::WriteShims,
        SyncState::WriteShims => SyncState::Done,
        SyncState::Done => SyncState::Done,
        SyncState::Aborted => SyncState::Aborted,
    }
}

/// Whether a sync goes on after the step of `state` failed. Only the raising
/// of limits may fail without harm; there is nothing to fail at the start.
pub open spec fn tolerates_failure(state: SyncState) -> bool {
    state == SyncState::Start || state == SyncState::RaiseResourceLimits
}

/// The state that follows `state` on `outcome`.
pub open spec fn following(state: SyncState, outcome: StepOutcome) -> SyncState {
    if is_final(state) {
        state
    } else if outcome == StepOutcome::Succeeded || tolerates_failure(state) {
        successor(state)
    } else {
        SyncState::Aborted
    }
}

/// The state of a sync after the given outcomes, one per step taken.
pub open spec fn state_after(outcomes: Seq<StepOutcome>) -> SyncState
    decreases outcomes.len(),
{
    if outcomes.len() == 0 {
        SyncState::Start
    } else {
        following(state_after(outcomes.drop_last()), outcomes.last())
    }
}

/// A sync never comes back to a state: every step leads further along the
/// sequence until the sync has ended.
pub proof fn lemma_no_reentry(state: SyncState, outcome: StepOutcome)
    requires
        !is_final(state),
    ensures
        rank(following(state, outcome)) > rank(state),
{
}

/// From the installation on, a failed step ends the sync at once.
pub proof fn lemma_failure_aborts(state: SyncState)
    requires
        rank(SyncState::Install) <= rank(state) <= rank(SyncState::WriteShims),
    ensures
        following(state, StepOutcome::Failed) == SyncState::Aborted,
{
}

/// A sync that is done has taken every step, and none of them failed but,
/// at most, the raising of limits.
pub proof fn lemma_done_after_all_steps(outcomes: Seq<StepOutcome>)
    requires
        state_after(outcomes) == SyncState::Done,
    ensures
        outcomes.len() >= rank(SyncState::Done),
        forall|i: int|
            rank(SyncState::EnsureEnvironmentDir) <= i < rank(SyncState::Done) ==> outcomes[i]
                == StepOutcome::Succeeded,
{
    lemma_state_after(outcomes);
    assert forall|i: int|
        rank(SyncState::EnsureEnvironmentDir) <= i < rank(SyncState::Done) implies outcomes[i]
        == StepOutcome::Succeeded by {
        lemma_state_after(outcomes.take(i));
        assert(outcomes.take(i + 1).drop_last() =~= outcomes.take(i));
        assert(outcomes.take(i + 1).last() == outcomes[i]);
        if outcomes[i] == StepOutcome::Failed {
            lemma_aborted_stays(outcomes, i + 1);
        }
    }
}

/// After `n` steps a sync stands at the `n`th state of the sequence, or has
/// been given up.
pub proof fn lemma_state_after(outcomes: Seq<StepOutcome>)
    ensures
        state_after(outcomes) == SyncState::Aborted || rank(state_after(outcomes)) == (
        if outcomes.len() <= rank(SyncState::Done) {
            outcomes.len() as int
        } else {
            rank(SyncState::Done)
        }),
        state_after(outcomes) == SyncState::Aborted ==> outcomes.len() > rank(
            SyncState::EnsureEnvironmentDir,
        ),
    decreases outcomes.len(),
{
    if outcomes.len() > 0 {
        lemma_state_after(outcomes.drop_last());
    }
}

/// A sync that was given up stays given up.
pub proof fn lemma_aborted_stays(outcomes: Seq<StepOutcome>, k: int)
    requires
        0 <= k <= outcomes.len(),
        state_after(outcomes.take(k)) == SyncState::Aborted,
    ensures
        state_after(outcomes) == SyncState::Aborted,
    decreases outcomes.len() - k,
{
    if k < outcomes.len() {
        assert(outcomes.take(k + 1).drop_last() =~= outcomes.take(k));
        lemma_aborted_stays(outcomes, k + 1);
    } else {
        assert(outcomes.take(k) =~= outcomes);
    }
}

/// Says which state follows `state` now that its step has ended with
/// `outcome`.
///
/// The steps follow one another in a fixed order. A failure to raise the
/// resource limits is put up with; any other failure ends the sync, and no
/// later step is taken. A sync that has ended stays as it is.
pub fn next_state(state: SyncState, outcome: StepOutcome) -> (next: SyncState)
    ensures
        next == following(state, outcome),
        !is_final(state) ==> rank(next) > rank(state),
        next == SyncState::Done ==> state == SyncState::Done || (state == SyncState::WriteShims
            && outcome == StepOutcome::Succeeded),
{
    let proceed = match outcome {
        StepOutcome::Succeeded => true,
        StepOutcome::Failed => match state {
            SyncState::Start | SyncState::RaiseResourceLimits => true,
            _ => false,
        },
    };
    match state {
        SyncState::Done => SyncState::Done,
        SyncState::Aborted => SyncState::Aborted,
        _ => if proceed {
            match state {
                SyncState::Start => SyncState::RaiseResourceLimits,
                SyncState::RaiseResourceLimits => SyncState::EnsureEnvironmentDir,
                SyncState::EnsureEnvironmentDir => SyncState::Install,
                SyncState::Install => SyncState::EnumerateInstalledPackages,
                SyncState::EnumerateInstalledPackages => SyncState::BuildActivationScript,
                SyncState::BuildActivationScript => SyncState::ClassifyExecutables,
                SyncState::ClassifyExecutables => SyncState::ResolveBindings,
                SyncState::ResolveBindings => SyncState::WriteShims,
                _ => SyncState::Done,
            }
        } else {
            SyncState::Aborted
        },
    }
}

/// The files that a sync has to write, or the reason for which it writes
/// none: the activation script must be had, and every binding must resolve.
pub open spec fn planned_files(
    platform: Platform,
    environment_name: Seq<char>,
    bindings: Seq<(Seq<char>, Seq<char>)>,
    packages: Seq<Seq<char>>,
    records: Seq<InstalledPackageRecordView>,
    bin_dir: Seq<char>,
    prefix_root: Seq<char>,
    activation_commands: Result<Seq<char>, Seq<char>>,
) -> Result<Seq<ShimFileView>, GlobalErrorView> {
    match activation_outcome(platform, environment_name, activation_commands) {
        Err(error) => Err(error),
        Ok(activation) => match resolve_all(
            platform,
            bin_dir,
            prefix_root,
            environment_name,
            environment_executables(platform, packages, records),
            bindings,
        ) {
            Err(error) => Err(error),
            Ok(mappings) => Ok(shim_files(platform, script_shell(platform), activation, mappings)),
        },
    }
}

/// The files of a directory, by path, with their contents.
pub type Directory = Map<Seq<char>, Seq<char>>;

/// The directory after `files` were written into it one after the other,
/// each replacing what was at its path.
pub open spec fn written(directory: Directory, files: Seq<ShimFileView>) -> Directory
    decreases files.len(),
{
    if files.len() == 0 {
        directory
    } else {
        written(directory, files.drop_last()).insert(files.last().path, files.last().contents)
    }
}

/// What stands at `path` once `files` are written: the contents of the last
/// of them that has this path, or what stood there before.
pub proof fn lemma_written_at(directory: Directory, files: Seq<ShimFileView>, path: Seq<char>)
    ensures
        (exists|i: int| 0 <= i < files.len() && (#[trigger] files[i]).path == path) ==> {
            &&& written(directory, files).dom().contains(path)
            &&& exists|i: int|
                0 <= i < files.len() && (#[trigger] files[i]).path == path && written(
                    directory,
                    files,
                )[path] == files[i].contents && forall|j: int|
                    i < j < files.len() ==> (#[trigger] files[j]).path != path
        },
        (forall|i: int| 0 <= i < files.len() ==> (#[trigger] files[i]).path != path) ==> {
            &&& written(directory, files).dom().contains(path) == directory.dom().contains(path)
            &&& written(directory, files)[path] == directory[path]
        },
    decreases files.len(),
{
    if files.len() > 0 {
        let front = files.drop_last();
        lemma_written_at(directory, front, path);
        if files.last().path == path {
            assert(files[files.len() - 1].path == path);
        } else if exists|i: int| 0 <= i < files.len() && (#[trigger] files[i]).path == path {
            let i = choose|i: int| 0 <= i < files.len() && (#[trigger] files[i]).path == path;
            assert(front[i].path == path);
            let k = choose|k: int|
                0 <= k < front.len() && (#[trigger] front[k]).path == path && written(
                    directory,
                    front,
                )[path] == front[k].contents && forall|j: int|
                    k < j < front.len() ==> (#[trigger] front[j]).path != path;
            assert(files[k] == front[k]);
            assert forall|j: int| k < j < files.len() implies (#[trigger] files[j]).path
                != path by {
                if j < front.len() {
                    assert(front[j] == files[j]);
                }
            }
        } else {
            assert forall|i: int| 0 <= i < front.len() implies (#[trigger] front[i]).path
                != path by {
                assert(front[i] == files[i]);
            }
        }
    }
}

/// Writing the same files a second time changes nothing: the scripts of a
/// sync that is run again on the same input are the same, byte for byte.
pub proof fn lemma_resync_changes_nothing(directory: Directory, files: Seq<ShimFileView>)
    ensures
        written(written(directory, files), files) == written(directory, files),
{
    let once = written(directory, files);
    let twice = written(once, files);
    assert forall|path: Seq<char>| #[trigger]
        twice.dom().contains(path) == once.dom().contains(path) && (once.dom().contains(path)
            ==> twice[path] == once[path]) by {
        lemma_written_at(directory, files, path);
        lemma_written_at(once, files, path);
    }
    assert(twice =~= once);
}

/// Works out the scripts for a list of bindings, each an exposed name with
/// its entry point.
///
/// Takes what the earlier steps of a sync have gathered: the packages that
/// were asked for, the records of what is installed (with the operating
/// system's answer for each file in a binary directory), and the commands
/// that activate the environment, or the reason for which they could not be
/// had.
///
/// Scripts are owed exactly where the activation commands are there and
/// every binding resolves: then there is one file per binding, in the order
/// of the bindings, and no two at the same path if no two bindings have the
/// same exposed name. Otherwise there is no file at all, and the error says
/// what was missing: the activation script first, else the first entry point
/// that no program of a requested package has as its file name.
pub fn plan_scripts(
    platform: Platform,
    environment_name: &str,
    bindings: &Vec<(String, String)>,
    packages: &Vec<String>,
    records: &Vec<InstalledPackageRecord>,
    bin_dir: &str,
    prefix_root: &str,
    activation_commands: Result<String, String>,
) -> (planned: Result<Vec<ShimFile>, GlobalError>)
    ensures
        match planned {
            Ok(files) => planned_files(
                platform,
                environment_name@,
                views(bindings@),
                views(packages@),
                views(records@),
                bin_dir@,
                prefix_root@,
                match activation_commands {
                    Ok(c) => Ok(c@),
                    Err(r) => Err(r@),
                },
            ) == Ok::<Seq<ShimFileView>, GlobalErrorView>(views(files@)),
            Err(error) => planned_files(
                platform,
                environment_name@,
                views(bindings@),
                views(packages@),
                views(records@),
                bin_dir@,
                prefix_root@,
                match activation_commands {
                    Ok(c) => Ok(c@),
                    Err(r) => Err(r@),
                },
            ) == Err::<Seq<ShimFileView>, GlobalErrorView>(error@),
        },
        planned is Ok <==> activation_commands is Ok && forall|i: int|
            0 <= i < bindings@.len() ==> find_named(
                environment_executables(platform, views(packages@), views(records@)),
                (#[trigger] views(bindings@)[i]).1,
            ) is Some,
        planned matches Ok(files) ==> {
            &&& files@.len() == bindings@.len()
            &&& keys_distinct(views(bindings@)) ==> forall|i: int, j: int|
                0 <= i < j < files@.len() ==> (#[trigger] files@[i]).path@ != (
                #[trigger] files@[j]).path@
        },
{
    let shell = shell_for(platform);
    let activation = match create_activation_script(platform, environment_name, activation_commands) {
        Ok(script) => script,
        Err(error) => {
            return Err(error);
        },
    };
    let mappings = match resolve_entries(
        platform,
        environment_name,
        bindings,
        packages,
        records,
        bin_dir,
        prefix_root,
    ) {
        Ok(mappings) => mappings,
        Err(error) => {
            return Err(error);
        },
    };
    let files = create_executable_scripts(platform, &mappings, shell, activation.as_str());
    proof {
        assert(views(files@).len() == files@.len());
        assert(views(mappings@).len() == mappings@.len());
        assert(files@.len() == mappings@.len());
        if keys_distinct(views(bindings@)) {
            assert forall|i: int, j: int| 0 <= i < j < files@.len() implies (
            #[trigger] files@[i]).path@ != (#[trigger] files@[j]).path@ by {
                assert(views(files@)[i] == files@[i]@);
                assert(views(files@)[j] == files@[j]@);
                assert(views(mappings@)[i] == mappings@[i]@);
                assert(views(mappings@)[j] == mappings@[j]@);
            }
        }
    }
    Ok(files)
}

/// Works out the scripts of an environment from its bindings.
///
/// Scripts are owed exactly where the activation commands are there and
/// every binding resolves: then there is one file per binding, in the order
/// of the bindings, no two at the same path. Otherwise there is no file at
/// all, and the error says what was missing: the activation script first,
/// else the first entry point that no program of a requested package has as
/// its file name.
pub fn sync_environment(
    platform: Platform,
    environment_name: &str,
    exposed: &IndexMap<String, String>,
    packages: &Vec<String>,
    records: &Vec<InstalledPackageRecord>,
    bin_dir: &str,
    prefix_root: &str,
    activation_commands: Result<String, String>,
) -> (planned: Result<Vec<ShimFile>, GlobalError>)
    ensures
        match planned {
            Ok(files) => planned_files(
                platform,
                environment_name@,
                map_entries(*exposed),
                views(packages@),
                views(records@),
                bin_dir@,
                prefix_root@,
                match activation_commands {
                    Ok(c) => Ok(c@),
                    Err(r) => Err(r@),
                },
            ) == Ok::<Seq<ShimFileView>, GlobalErrorView>(views(files@)),
            Err(error) => planned_files(
                platform,
                environment_name@,
                map_entries(*exposed),
                views(packages@),
                views(records@),
                bin_dir@,
                prefix_root@,
                match activation_commands {
                    Ok(c) => Ok(c@),
                    Err(r) => Err(r@),
                },
            ) == Err::<Seq<ShimFileView>, GlobalErrorView>(error@),
        },
        planned is Ok <==> activation_commands is Ok && forall|i: int|
            0 <= i < map_entries(*exposed).len() ==> find_named(
                environment_executables(platform, views(packages@), views(records@)),
                (#[trigger] map_entries(*exposed)[i]).1,
            ) is Some,
        planned matches Ok(files) ==> {
            &&& files@.len() == map_entries(*exposed).len()
            &&& forall|i: int, j: int|
                0 <= i < j < files@.len() ==> (#[trigger] files@[i]).path@ != (
                #[trigger] files@[j]).path@
        },
{
    let bindings = entries_of(exposed);
    plan_scripts(
        platform,
        environment_name,
        &bindings,
        packages,
        records,
        bin_dir,
        prefix_root,
        activation_commands,
    )
}

} // verus!
