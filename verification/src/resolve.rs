//! Resolution of entry points to the programs of an environment.
//!
//! Only the packages that a request names contribute programs; what comes
//! along as a dependency stays private to the environment. An entry point is
//! the file name of a program, and the first program of that name, in the
//! order of the package records, is the one it resolves to. Either every
//! binding resolves or none of them is handed out.

use crate::bindings::entries_of;
use crate::bindings::keys_distinct;
use crate::bindings::map_entries;
use crate::classify::candidate_paths;
use crate::classify::find_executables;
use crate::classify::InstalledPackageRecord;
use crate::classify::InstalledPackageRecordView;
use crate::error::GlobalError;
use crate::error::GlobalErrorView;
use crate::mapping::executable_script_path;
use crate::mapping::lemma_script_path_injective;
use crate::mapping::script_path;
use crate::mapping::ScriptExecMapping;
use crate::mapping::ScriptExecMappingView;
use crate::path::file_name;
use crate::path::file_name_of;
use crate::path::locate;
use crate::path::path_from;
use crate::path::Platform;
use crate::text::text_eq;
use crate::text::views;
use indexmap::IndexMap;
use vstd::prelude::*;

verus! {

/// A program by name: its file name, then its path inside the environment.
pub type NamedExecutable = (String, String);

/// The mathematical content of a [`NamedExecutable`].
pub type NamedExecutableView = (Seq<char>, Seq<char>);

/// A path together with its file name, if it has one.
pub open spec fn named_path(platform: Platform) -> spec_fn(Seq<char>) -> Option<
    NamedExecutableView,
> {
    |path: Seq<char>|
        match file_name(platform, path) {
            Some(name) => Some((name, path)),
            None => None,
        }
}

/// The programs of one package, by name.
pub open spec fn record_executables(platform: Platform) -> spec_fn(
    InstalledPackageRecordView,
) -> Seq<NamedExecutableView> {
    |record: InstalledPackageRecordView|
        candidate_paths(platform, record.files).filter_map(named_path(platform))
}

/// Whether a package is one of those that the request names.
pub open spec fn is_requested(packages: Seq<Seq<char>>) -> spec_fn(
    InstalledPackageRecordView,
) -> bool {
    |record: InstalledPackageRecordView| packages.contains(record.name)
}

/// The programs that an environment offers, by name: those of the requested
/// packages, in the order of the records and of the files in each.
pub open spec fn environment_executables(
    platform: Platform,
    packages: Seq<Seq<char>>,
    records: Seq<InstalledPackageRecordView>,
) -> Seq<NamedExecutableView> {
    records.filter(is_requested(packages)).flat_map(record_executables(platform))
}

/// Whether some binding has the name of `executable` as its entry point.
pub open spec fn is_exposed(bindings: Seq<(Seq<char>, Seq<char>)>) -> spec_fn(
    NamedExecutableView,
) -> bool {
    |executable: NamedExecutableView|
        exists|i: int| 0 <= i < bindings.len() && (#[trigger] bindings[i]).1 == executable.0
}

/// The path of the first program named `entry_point`.
pub open spec fn find_named(executables: Seq<NamedExecutableView>, entry_point: Seq<char>) -> Option<
    Seq<char>,
>
    decreases executables.len(),
{
    if executables.len() == 0 {
        None
    } else {
        match find_named(executables.drop_last(), entry_point) {
            Some(path) => Some(path),
            None => if executables.last().0 == entry_point {
                Some(executables.last().1)
            } else {
                None
            },
        }
    }
}

/// What one binding resolves to: the script named after the exposed name,
/// running the first program named like the entry point, located inside the
/// environment at `prefix_root`, or the report that there is no such
/// program.
pub open spec fn resolve_binding(
    platform: Platform,
    bin_dir: Seq<char>,
    prefix_root: Seq<char>,
    environment_name: Seq<char>,
    executables: Seq<NamedExecutableView>,
    binding: (Seq<char>, Seq<char>),
) -> Result<ScriptExecMappingView, GlobalErrorView> {
    match find_named(executables, binding.1) {
        Some(path) => Ok(
            ScriptExecMappingView {
                global_script_path: script_path(platform, bin_dir, binding.0),
                original_executable: path_from(platform, prefix_root, path),
            },
        ),
        None => Err(
            GlobalErrorView::MissingEntryPoint { entry_point: binding.1, environment_name },
        ),
    }
}

/// What a list of bindings resolves to: one mapping per binding, in order, or
/// the report for the first binding that does not resolve.
pub open spec fn resolve_all(
    platform: Platform,
    bin_dir: Seq<char>,
    prefix_root: Seq<char>,
    environment_name: Seq<char>,
    executables: Seq<NamedExecutableView>,
    bindings: Seq<(Seq<char>, Seq<char>)>,
) -> Result<Seq<ScriptExecMappingView>, GlobalErrorView>
    decreases bindings.len(),
{
    if bindings.len() == 0 {
        Ok(Seq::empty())
    } else {
        match resolve_all(platform, bin_dir, prefix_root, environment_name, executables, bindings.drop_last()) {
            Ok(mappings) => match resolve_binding(
                platform,
                bin_dir,
                prefix_root,
                environment_name,
                executables,
                bindings.last(),
            ) {
                Ok(mapping) => Ok(mappings.push(mapping)),
                Err(error) => Err(error),
            },
            Err(error) => Err(error),
        }
    }
}

/// A program found among the first of a list is found in the whole list.
pub proof fn lemma_find_named_extends(
    executables: Seq<NamedExecutableView>,
    entry_point: Seq<char>,
    k: int,
)
    requires
        0 <= k <= executables.len(),
        find_named(executables.take(k), entry_point) is Some,
    ensures
        find_named(executables, entry_point) == find_named(executables.take(k), entry_point),
    decreases executables.len() - k,
{
    if k < executables.len() {
        assert(executables.take(k + 1).drop_last() =~= executables.take(k));
        lemma_find_named_extends(executables, entry_point, k + 1);
    } else {
        assert(executables.take(k) =~= executables);
    }
}

/// `find_named` gives the path of the program at the first index that
/// carries the name.
pub proof fn lemma_find_named_first(
    executables: Seq<NamedExecutableView>,
    entry_point: Seq<char>,
    k: int,
)
    requires
        0 <= k < executables.len(),
        executables[k].0 == entry_point,
        forall|j: int| 0 <= j < k ==> (#[trigger] executables[j]).0 != entry_point,
    ensures
        find_named(executables, entry_point) == Some(executables[k].1),
    decreases executables.len(),
{
    let front = executables.take(k);
    lemma_find_named_none(front, entry_point);
    assert(executables.take(k + 1).drop_last() =~= front);
    assert(executables.take(k + 1).last() == executables[k]);
    lemma_find_named_extends(executables, entry_point, k + 1);
}

/// `find_named` finds nothing exactly where no program carries the name.
pub proof fn lemma_find_named_none(executables: Seq<NamedExecutableView>, entry_point: Seq<char>)
    ensures
        find_named(executables, entry_point) is None <==> forall|j: int|
            0 <= j < executables.len() ==> (#[trigger] executables[j]).0 != entry_point,
    decreases executables.len(),
{
    if executables.len() > 0 {
        let front = executables.drop_last();
        lemma_find_named_none(front, entry_point);
        if find_named(executables, entry_point) is None {
            assert forall|j: int| 0 <= j < executables.len() implies (
            #[trigger] executables[j]).0 != entry_point by {
                if j < front.len() {
                    assert(front[j] == executables[j]);
                }
            }
        }
        if forall|j: int|
            0 <= j < executables.len() ==> (#[trigger] executables[j]).0 != entry_point {
            assert forall|j: int| 0 <= j < front.len() implies (#[trigger] front[j]).0
                != entry_point by {
                assert(front[j] == executables[j]);
            }
            assert(executables.last() == executables[executables.len() - 1]);
        }
    }
}

/// Leaving out the programs that no binding asks for changes nothing for an
/// entry point that a binding does ask for.
pub proof fn lemma_find_named_among_exposed(
    executables: Seq<NamedExecutableView>,
    bindings: Seq<(Seq<char>, Seq<char>)>,
    entry_point: Seq<char>,
)
    requires
        exists|i: int| 0 <= i < bindings.len() && (#[trigger] bindings[i]).1 == entry_point,
    ensures
        find_named(executables.filter(is_exposed(bindings)), entry_point) == find_named(
            executables,
            entry_point,
        ),
    decreases executables.len(),
{
    reveal(Seq::filter);
    if executables.len() > 0 {
        let front = executables.drop_last();
        let last = executables.last();
        lemma_find_named_among_exposed(front, bindings, entry_point);
        if is_exposed(bindings)(last) {
            assert(front.filter(is_exposed(bindings)).push(last).drop_last() =~= front.filter(
                is_exposed(bindings),
            ));
        } else {
            assert(last.0 != entry_point);
        }
    }
}

/// The bindings resolve together exactly if each of them resolves, and then
/// there is one mapping for each binding, in the order of the bindings.
pub proof fn lemma_resolve_all_ok(
    platform: Platform,
    bin_dir: Seq<char>,
    prefix_root: Seq<char>,
    environment_name: Seq<char>,
    executables: Seq<NamedExecutableView>,
    bindings: Seq<(Seq<char>, Seq<char>)>,
)
    ensures
        resolve_all(platform, bin_dir, prefix_root, environment_name, executables, bindings) is Ok
            <==> forall|i: int|
            0 <= i < bindings.len() ==> find_named(executables, (#[trigger] bindings[i]).1)
                is Some,
        resolve_all(platform, bin_dir, prefix_root, environment_name, executables, bindings) matches Ok(
            mappings,
        ) ==> {
            &&& mappings.len() == bindings.len()
            &&& forall|i: int|
                0 <= i < bindings.len() ==> Ok::<ScriptExecMappingView, GlobalErrorView>(
                    #[trigger] mappings[i],
                ) == resolve_binding(platform, bin_dir, prefix_root, environment_name, executables, bindings[i])
        },
    decreases bindings.len(),
{
    if bindings.len() > 0 {
        let front = bindings.drop_last();
        lemma_resolve_all_ok(platform, bin_dir, prefix_root, environment_name, executables, front);
        let all = resolve_all(platform, bin_dir, prefix_root, environment_name, executables, bindings);
        if all is Ok {
            assert forall|i: int| 0 <= i < bindings.len() implies find_named(
                executables,
                (#[trigger] bindings[i]).1,
            ) is Some by {
                if i < front.len() {
                    assert(front[i] == bindings[i]);
                }
            }
            let mappings = all->Ok_0;
            let before = resolve_all(platform, bin_dir, prefix_root, environment_name, executables, front)->Ok_0;
            assert forall|i: int| 0 <= i < bindings.len() implies Ok::<
                ScriptExecMappingView,
                GlobalErrorView,
            >(#[trigger] mappings[i]) == resolve_binding(
                platform,
                bin_dir,
                prefix_root,
                environment_name,
                executables,
                bindings[i],
            ) by {
                if i < front.len() {
                    assert(front[i] == bindings[i]);
                    assert(mappings[i] == before[i]);
                }
            }
        }
        if forall|i: int|
            0 <= i < bindings.len() ==> find_named(executables, (#[trigger] bindings[i]).1)
                is Some {
            assert forall|i: int| 0 <= i < front.len() implies find_named(
                executables,
                (#[trigger] front[i]).1,
            ) is Some by {
                assert(front[i] == bindings[i]);
            }
            assert(bindings.last() == bindings[bindings.len() - 1]);
        }
    }
}

/// Where the bindings do not resolve together, the report is about the first
/// binding whose entry point no program carries.
pub proof fn lemma_resolve_all_err(
    platform: Platform,
    bin_dir: Seq<char>,
    prefix_root: Seq<char>,
    environment_name: Seq<char>,
    executables: Seq<NamedExecutableView>,
    bindings: Seq<(Seq<char>, Seq<char>)>,
    k: int,
)
    requires
        0 <= k < bindings.len(),
        find_named(executables, bindings[k].1) is None,
        forall|i: int| 0 <= i < k ==> find_named(executables, (#[trigger] bindings[i]).1) is Some,
    ensures
        resolve_all(platform, bin_dir, prefix_root, environment_name, executables, bindings) == Err::<
            Seq<ScriptExecMappingView>,
            GlobalErrorView,
        >(GlobalErrorView::MissingEntryPoint { entry_point: bindings[k].1, environment_name }),
    decreases bindings.len(),
{
    let front = bindings.drop_last();
    if k < bindings.len() - 1 {
        assert(front[k] == bindings[k]);
        assert forall|i: int| 0 <= i < k implies find_named(executables, (#[trigger] front[i]).1)
            is Some by {
            assert(front[i] == bindings[i]);
        }
        lemma_resolve_all_err(platform, bin_dir, prefix_root, environment_name, executables, front, k);
    } else {
        assert forall|i: int| 0 <= i < front.len() implies find_named(
            executables,
            (#[trigger] front[i]).1,
        ) is Some by {
            assert(front[i] == bindings[i]);
        }
        lemma_resolve_all_ok(platform, bin_dir, prefix_root, environment_name, executables, front);
    }
}

/// A failure among the first bindings is the failure of them all.
pub proof fn lemma_resolve_all_err_extends(
    platform: Platform,
    bin_dir: Seq<char>,
    prefix_root: Seq<char>,
    environment_name: Seq<char>,
    executables: Seq<NamedExecutableView>,
    bindings: Seq<(Seq<char>, Seq<char>)>,
    k: int,
)
    requires
        0 <= k <= bindings.len(),
        resolve_all(platform, bin_dir, prefix_root, environment_name, executables, bindings.take(k)) is Err,
    ensures
        resolve_all(platform, bin_dir, prefix_root, environment_name, executables, bindings) == resolve_all(
            platform,
            bin_dir,
            prefix_root,
            environment_name,
            executables,
            bindings.take(k),
        ),
    decreases bindings.len() - k,
{
    if k < bindings.len() {
        assert(bindings.take(k + 1).drop_last() =~= bindings.take(k));
        lemma_resolve_all_err_extends(
            platform,
            bin_dir,
            prefix_root,
            environment_name,
            executables,
            bindings,
            k + 1,
        );
    } else {
        assert(bindings.take(k) =~= bindings);
    }
}

/// Bindings with distinct exposed names resolve to mappings with distinct
/// script paths.
pub proof fn lemma_resolved_scripts_distinct(
    platform: Platform,
    bin_dir: Seq<char>,
    prefix_root: Seq<char>,
    environment_name: Seq<char>,
    executables: Seq<NamedExecutableView>,
    bindings: Seq<(Seq<char>, Seq<char>)>,
)
    requires
        keys_distinct(bindings),
        resolve_all(platform, bin_dir, prefix_root, environment_name, executables, bindings) is Ok,
    ensures
        ({
            let mappings = resolve_all(
                platform,
                bin_dir,
                prefix_root,
                environment_name,
                executables,
                bindings,
            )->Ok_0;
            &&& mappings.len() == bindings.len()
            &&& forall|i: int, j: int|
                0 <= i < j < mappings.len() ==> (#[trigger] mappings[i]).global_script_path != (
                #[trigger] mappings[j]).global_script_path
        }),
{
    lemma_resolve_all_ok(platform, bin_dir, prefix_root, environment_name, executables, bindings);
    let mappings = resolve_all(platform, bin_dir, prefix_root, environment_name, executables, bindings)->Ok_0;
    assert forall|i: int, j: int| 0 <= i < j < mappings.len() implies (
    #[trigger] mappings[i]).global_script_path != (#[trigger] mappings[j]).global_script_path by {
        assert(Ok::<ScriptExecMappingView, GlobalErrorView>(mappings[i]) == resolve_binding(
            platform,
            bin_dir,
            prefix_root,
            environment_name,
            executables,
            bindings[i],
        ));
        assert(Ok::<ScriptExecMappingView, GlobalErrorView>(mappings[j]) == resolve_binding(
            platform,
            bin_dir,
            prefix_root,
            environment_name,
            executables,
            bindings[j],
        ));
        if mappings[i].global_script_path == mappings[j].global_script_path {
            lemma_script_path_injective(platform, bin_dir, bindings[i].0, bindings[j].0);
        }
    }
}

/// Whether `needle` is one of `items`.
pub fn contains_text(items: &Vec<String>, needle: &str) -> (found: bool)
    ensures
        found == views(items@).contains(needle@),
{
    let mut i: usize = 0;
    while i < items.len()
        invariant
            i <= items.len(),
            forall|j: int| 0 <= j < i ==> (#[trigger] views(items@)[j]) != needle@,
        decreases items.len() - i,
    {
        if text_eq(items[i].as_str(), needle) {
            assert(views(items@)[i as int] == needle@);
            return true;
        }
        i = i + 1;
    }
    false
}

/// Whether some binding has `name` as its entry point.
pub fn is_entry_point(bindings: &Vec<(String, String)>, name: &str) -> (found: bool)
    ensures
        found == exists|i: int|
            0 <= i < bindings@.len() && (#[trigger] views(bindings@)[i]).1 == name@,
{
    let mut i: usize = 0;
    while i < bindings.len()
        invariant
            i <= bindings.len(),
            forall|j: int| 0 <= j < i ==> (#[trigger] views(bindings@)[j]).1 != name@,
        decreases bindings.len() - i,
    {
        if text_eq(bindings[i].1.as_str(), name) {
            assert(views(bindings@)[i as int].1 == name@);
            return true;
        }
        i = i + 1;
    }
    false
}

/// Gives each path its file name. A path that names no file is passed over.
pub fn name_executables(platform: Platform, paths: &Vec<String>) -> (named: Vec<NamedExecutable>)
    ensures
        views(named@) == views(paths@).filter_map(named_path(platform)),
{
    let ghost all = views(paths@);
    let mut named: Vec<NamedExecutable> = Vec::new();
    let mut i: usize = 0;
    assert(all.take(0) =~= Seq::empty());
    assert(views(named@) =~= Seq::empty());
    while i < paths.len()
        invariant
            i <= paths.len(),
            all == views(paths@),
            views(named@) == all.take(i as int).filter_map(named_path(platform)),
        decreases paths.len() - i,
    {
        let path = &paths[i];
        let ghost before = views(named@);
        proof {
            assert(all[i as int] == path@);
            all.lemma_filter_map_take_succ(named_path(platform), i as int);
        }
        match file_name_of(platform, path.as_str()) {
            None => {},
            Some(name) => {
                named.push((name, path.clone()));
                assert(views(named@) =~= before + seq![(name@, path@)]);
            },
        }
        i = i + 1;
    }
    assert(all.take(i as int) =~= all);
    named
}

/// Collects the programs that an environment offers: for each record of a
/// requested package, in order, its programs by name.
pub fn collect_executables(
    platform: Platform,
    packages: &Vec<String>,
    records: &Vec<InstalledPackageRecord>,
) -> (executables: Vec<NamedExecutable>)
    ensures
        views(executables@) == environment_executables(
            platform,
            views(packages@),
            views(records@),
        ),
{
    let ghost all = views(records@);
    let ghost requested = is_requested(views(packages@));
    let ghost offered = record_executables(platform);
    let mut executables: Vec<NamedExecutable> = Vec::new();
    let mut i: usize = 0;
    proof {
        reveal(Seq::filter);
        assert(all.take(0) =~= Seq::empty());
        assert(all.take(0).filter(requested) =~= Seq::empty());
        assert(all.take(0).filter(requested).flat_map(offered) =~= Seq::empty());
        assert(views(executables@) =~= Seq::empty());
    }
    while i < records.len()
        invariant
            i <= records.len(),
            all == views(records@),
            requested == is_requested(views(packages@)),
            offered == record_executables(platform),
            views(executables@) == all.take(i as int).filter(requested).flat_map(offered),
        decreases records.len() - i,
    {
        let record = &records[i];
        let ghost before = views(executables@);
        proof {
            assert(all[i as int] == record@);
            assert(all.take(i + 1) =~= all.take(i as int).push(all[i as int]));
            all.take(i as int).lemma_filter_push(all[i as int], requested);
            all.take(i as int).filter(requested).lemma_flat_map_push(offered, all[i as int]);
        }
        if contains_text(packages, record.name.as_str()) {
            let paths = find_executables(platform, record);
            let mut named = name_executables(platform, &paths);
            let ghost added = views(named@);
            executables.append(&mut named);
            assert(views(executables@) =~= before + added);
        }
        i = i + 1;
    }
    assert(all.take(i as int) =~= all);
    executables
}

/// Keeps the programs whose name some binding has as its entry point.
pub fn retain_exposed(executables: &Vec<NamedExecutable>, bindings: &Vec<(String, String)>) -> (kept:
    Vec<NamedExecutable>)
    ensures
        views(kept@) == views(executables@).filter(is_exposed(views(bindings@))),
{
    let ghost all = views(executables@);
    let ghost exposed = is_exposed(views(bindings@));
    let mut kept: Vec<NamedExecutable> = Vec::new();
    let mut i: usize = 0;
    proof {
        reveal(Seq::filter);
        assert(all.take(0) =~= Seq::empty());
        assert(all.take(0).filter(exposed) =~= Seq::empty());
        assert(views(kept@) =~= Seq::empty());
    }
    while i < executables.len()
        invariant
            i <= executables.len(),
            all == views(executables@),
            exposed == is_exposed(views(bindings@)),
            views(kept@) == all.take(i as int).filter(exposed),
        decreases executables.len() - i,
    {
        let executable = &executables[i];
        let ghost before = views(kept@);
        proof {
            assert(all[i as int] == executable@);
            assert(all.take(i + 1) =~= all.take(i as int).push(all[i as int]));
            all.take(i as int).lemma_filter_push(all[i as int], exposed);
        }
        if is_entry_point(bindings, executable.0.as_str()) {
            kept.push((executable.0.clone(), executable.1.clone()));
            assert(views(kept@) =~= before.push(executable@));
        }
        i = i + 1;
    }
    assert(all.take(i as int) =~= all);
    kept
}

/// Maps an entry point in the environment to a concrete `ScriptExecMapping`.
///
/// Takes an entry point and the programs of the environment by name, and
/// returns the mapping from the script named after `exposed_name` to the
/// first program whose file name is `entry_point`, located inside the
/// environment at `prefix_root`. Where no program has that name, the error
/// says which entry point was missed in which environment.
pub fn script_exec_mapping(
    platform: Platform,
    exposed_name: &str,
    entry_point: &str,
    executables: &Vec<NamedExecutable>,
    bin_dir: &str,
    prefix_root: &str,
    environment_name: &str,
) -> (resolved: Result<ScriptExecMapping, GlobalError>)
    ensures
        match resolved {
            Ok(mapping) => resolve_binding(
                platform,
                bin_dir@,
                prefix_root@,
                environment_name@,
                views(executables@),
                (exposed_name@, entry_point@),
            ) == Ok::<ScriptExecMappingView, GlobalErrorView>(mapping@),
            Err(error) => resolve_binding(
                platform,
                bin_dir@,
                prefix_root@,
                environment_name@,
                views(executables@),
                (exposed_name@, entry_point@),
            ) == Err::<ScriptExecMappingView, GlobalErrorView>(error@),
        },
        resolved is Ok <==> exists|i: int|
            0 <= i < executables@.len() && (#[trigger] views(executables@)[i]).0 == entry_point@,
{
    let ghost all = views(executables@);
    let mut i: usize = 0;
    while i < executables.len()
        invariant
            i <= executables.len(),
            all == views(executables@),
            forall|j: int| 0 <= j < i ==> (#[trigger] all[j]).0 != entry_point@,
        decreases executables.len() - i,
    {
        let executable = &executables[i];
        assert(all[i as int] == executable@);
        if text_eq(executable.0.as_str(), entry_point) {
            proof {
                lemma_find_named_first(all, entry_point@, i as int);
            }
            return Ok(
                ScriptExecMapping {
                    global_script_path: executable_script_path(platform, bin_dir, exposed_name),
                    original_executable: locate(platform, prefix_root, executable.1.as_str()),
                },
            );
        }
        i = i + 1;
    }
    proof {
        lemma_find_named_none(all, entry_point@);
    }
    Err(
        GlobalError::MissingEntryPoint {
            entry_point: entry_point.to_owned(),
            environment_name: environment_name.to_owned(),
        },
    )
}

/// Resolves a list of bindings, each an exposed name with its entry point,
/// against the programs that the requested packages placed in the
/// environment at `prefix_root`.
///
/// Success is owed exactly where every entry point is the file name of such a
/// program. The result then holds one mapping per binding, in the order of
/// the bindings, and no two of them have the same script path if no two
/// bindings have the same exposed name. Otherwise the error reports the first
/// binding that does not resolve, and no mapping at all is handed out.
pub fn resolve_entries(
    platform: Platform,
    environment_name: &str,
    bindings: &Vec<(String, String)>,
    packages: &Vec<String>,
    records: &Vec<InstalledPackageRecord>,
    bin_dir: &str,
    prefix_root: &str,
) -> (resolved: Result<Vec<ScriptExecMapping>, GlobalError>)
    ensures
        match resolved {
            Ok(mappings) => resolve_all(
                platform,
                bin_dir@,
                prefix_root@,
                environment_name@,
                environment_executables(platform, views(packages@), views(records@)),
                views(bindings@),
            ) == Ok::<Seq<ScriptExecMappingView>, GlobalErrorView>(views(mappings@)),
            Err(error) => resolve_all(
                platform,
                bin_dir@,
                prefix_root@,
                environment_name@,
                environment_executables(platform, views(packages@), views(records@)),
                views(bindings@),
            ) == Err::<Seq<ScriptExecMappingView>, GlobalErrorView>(error@),
        },
        resolved is Ok <==> forall|i: int|
            0 <= i < bindings@.len() ==> find_named(
                environment_executables(platform, views(packages@), views(records@)),
                (#[trigger] views(bindings@)[i]).1,
            ) is Some,
        resolved matches Ok(mappings) ==> {
            &&& mappings@.len() == bindings@.len()
            &&& keys_distinct(views(bindings@)) ==> forall|i: int, j: int|
                0 <= i < j < mappings@.len() ==> (#[trigger] mappings@[i]).global_script_path@ != (
                #[trigger] mappings@[j]).global_script_path@
        },
{
    let offered = collect_executables(platform, packages, records);
    let executables = retain_exposed(&offered, bindings);
    let ghost all = views(bindings@);
    let ghost programs = views(offered@);
    let mut mappings: Vec<ScriptExecMapping> = Vec::new();
    let mut i: usize = 0;
    proof {
        assert(all.take(0) =~= Seq::empty());
        assert(views(mappings@) =~= Seq::empty());
    }
    while i < bindings.len()
        invariant
            i <= bindings.len(),
            all == views(bindings@),
            programs == views(offered@),
            programs == environment_executables(platform, views(packages@), views(records@)),
            views(executables@) == programs.filter(is_exposed(all)),
            resolve_all(
                platform,
                bin_dir@,
                prefix_root@,
                environment_name@,
                programs,
                all.take(i as int),
            ) == Ok::<Seq<ScriptExecMappingView>, GlobalErrorView>(views(mappings@)),
        decreases bindings.len() - i,
    {
        let binding = &bindings[i];
        let ghost before = views(mappings@);
        proof {
            assert(all[i as int] == binding@);
            assert(all.take(i + 1).drop_last() =~= all.take(i as int));
            assert(all.take(i + 1).last() == all[i as int]);
            lemma_find_named_among_exposed(programs, all, binding@.1);
        }
        match script_exec_mapping(
            platform,
            binding.0.as_str(),
            binding.1.as_str(),
            &executables,
            bin_dir,
            prefix_root,
            environment_name,
        ) {
            Ok(mapping) => {
                mappings.push(mapping);
                assert(views(mappings@) =~= before.push(mapping@));
            },
            Err(error) => {
                proof {
                    lemma_resolve_all_err_extends(
                        platform,
                        bin_dir@,
                        prefix_root@,
                        environment_name@,
                        programs,
                        all,
                        i + 1,
                    );
                    lemma_resolve_all_ok(
                        platform,
                        bin_dir@,
                        prefix_root@,
                        environment_name@,
                        programs,
                        all,
                    );
                }
                return Err(error);
            },
        }
        i = i + 1;
    }
    proof {
        assert(all.take(i as int) =~= all);
        lemma_resolve_all_ok(platform, bin_dir@, prefix_root@, environment_name@, programs, all);
        if keys_distinct(all) {
            lemma_resolved_scripts_distinct(
                platform,
                bin_dir@,
                prefix_root@,
                environment_name@,
                programs,
                all,
            );
            assert forall|a: int, b: int| 0 <= a < b < mappings@.len() implies (
            #[trigger] mappings@[a]).global_script_path@ != (
            #[trigger] mappings@[b]).global_script_path@ by {
                assert(views(mappings@)[a] == mappings@[a]@);
                assert(views(mappings@)[b] == mappings@[b]@);
            }
        }
    }
    Ok(mappings)
}

/// Resolves every binding of an environment against the programs that the
/// requested packages placed in it.
///
/// Success is owed exactly where every entry point is the file name of such a
/// program. The result then holds one mapping per binding, in the order of
/// the bindings, no two of them with the same script path. Otherwise the
/// error reports the first binding that does not resolve, and no mapping at
/// all is handed out.
pub fn resolve_bindings(
    platform: Platform,
    environment_name: &str,
    exposed: &IndexMap<String, String>,
    packages: &Vec<String>,
    records: &Vec<InstalledPackageRecord>,
    bin_dir: &str,
    prefix_root: &str,
) -> (resolved: Result<Vec<ScriptExecMapping>, GlobalError>)
    ensures
        match resolved {
            Ok(mappings) => resolve_all(
                platform,
                bin_dir@,
                prefix_root@,
                environment_name@,
                environment_executables(platform, views(packages@), views(records@)),
                map_entries(*exposed),
            ) == Ok::<Seq<ScriptExecMappingView>, GlobalErrorView>(views(mappings@)),
            Err(error) => resolve_all(
                platform,
                bin_dir@,
                prefix_root@,
                environment_name@,
                environment_executables(platform, views(packages@), views(records@)),
                map_entries(*exposed),
            ) == Err::<Seq<ScriptExecMappingView>, GlobalErrorView>(error@),
        },
        resolved is Ok <==> forall|i: int|
            0 <= i < map_entries(*exposed).len() ==> find_named(
                environment_executables(platform, views(packages@), views(records@)),
                (#[trigger] map_entries(*exposed)[i]).1,
            ) is Some,
        resolved matches Ok(mappings) ==> {
            &&& mappings@.len() == map_entries(*exposed).len()
            &&& forall|i: int, j: int|
                0 <= i < j < mappings@.len() ==> (#[trigger] mappings@[i]).global_script_path@ != (
                #[trigger] mappings@[j]).global_script_path@
        },
{
    let bindings = entries_of(exposed);
    resolve_entries(platform, environment_name, &bindings, packages, records, bin_dir, prefix_root)
}

} // verus!
