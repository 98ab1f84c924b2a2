use indexmap::IndexMap;
use pixi_global::classify::InstalledFile;
use pixi_global::classify::InstalledPackageRecord;
use pixi_global::error::GlobalError;
use pixi_global::path::Platform;
use pixi_global::shim::ShimFile;
use pixi_global::sync::next_state;
use pixi_global::sync::plan_scripts;
use pixi_global::sync::sync_environment;
use pixi_global::sync::StepOutcome;
use pixi_global::sync::SyncState;

const SEQUENCE: [SyncState; 10] = [
    SyncState::Start,
    SyncState::RaiseResourceLimits,
    SyncState::EnsureEnvironmentDir,
    SyncState::Install,
    SyncState::EnumerateInstalledPackages,
    SyncState::BuildActivationScript,
    SyncState::ClassifyExecutables,
    SyncState::ResolveBindings,
    SyncState::WriteShims,
    SyncState::Done,
];

fn record(name: &str, files: &[(&str, bool)]) -> InstalledPackageRecord {
    InstalledPackageRecord {
        name: name.to_string(),
        files: files
            .iter()
            .map(|(path, os_executable)| InstalledFile {
                relative_path: path.to_string(),
                os_executable: *os_executable,
            })
            .collect(),
    }
}

fn bindings(entries: &[(&str, &str)]) -> IndexMap<String, String> {
    let mut map = IndexMap::new();
    for (exposed_name, entry_point) in entries {
        map.insert(exposed_name.to_string(), entry_point.to_string());
    }
    map
}

fn ripgrep_sync(platform: Platform) -> Result<Vec<ShimFile>, GlobalError> {
    match platform {
        Platform::Unix => sync_environment(
            platform,
            "tools",
            &bindings(&[("rg", "rg")]),
            &vec!["ripgrep".to_string()],
            &vec![record("ripgrep", &[("bin/rg", true)])],
            "/home/u/.pixi/bin",
            "/home/u/.pixi/envs/tools",
            Ok("export PATH=\"/home/u/.pixi/envs/tools/bin:${PATH}\"\n".to_string()),
        ),
        Platform::Windows => sync_environment(
            platform,
            "tools",
            &bindings(&[("rg", "rg.exe")]),
            &vec!["ripgrep".to_string()],
            &vec![record("ripgrep", &[("Library/bin/rg.exe", true)])],
            "C:\\pixi\\bin",
            "C:\\pixi\\envs\\tools",
            Ok("@SET \"PATH=C:\\pixi\\envs\\tools;%PATH%\"\n".to_string()),
        ),
    }
}

#[test]
fn steps_follow_one_another_when_all_succeed() {
    for pair in SEQUENCE.windows(2) {
        assert_eq!(next_state(pair[0], StepOutcome::Succeeded), pair[1]);
    }
}

#[test]
fn failure_to_raise_limits_is_put_up_with() {
    assert_eq!(
        next_state(SyncState::RaiseResourceLimits, StepOutcome::Failed),
        SyncState::EnsureEnvironmentDir
    );
}

#[test]
fn failure_of_any_later_step_aborts() {
    for state in &SEQUENCE[2..9] {
        assert_eq!(next_state(*state, StepOutcome::Failed), SyncState::Aborted);
    }
}

#[test]
fn ended_sync_stays_as_it_is() {
    for outcome in [StepOutcome::Succeeded, StepOutcome::Failed] {
        assert_eq!(next_state(SyncState::Done, outcome), SyncState::Done);
        assert_eq!(next_state(SyncState::Aborted, outcome), SyncState::Aborted);
    }
}

#[test]
fn a_run_with_a_failed_install_takes_no_later_step() {
    let outcomes = [
        StepOutcome::Succeeded,
        StepOutcome::Failed,
        StepOutcome::Succeeded,
        StepOutcome::Failed,
        StepOutcome::Succeeded,
        StepOutcome::Succeeded,
    ];
    let mut state = SyncState::Start;
    let mut visited = vec![state];
    for outcome in outcomes {
        state = next_state(state, outcome);
        visited.push(state);
    }
    assert_eq!(
        visited,
        vec![
            SyncState::Start,
            SyncState::RaiseResourceLimits,
            SyncState::EnsureEnvironmentDir,
            SyncState::Install,
            SyncState::Aborted,
            SyncState::Aborted,
            SyncState::Aborted,
        ]
    );
}

#[test]
fn ripgrep_gets_exactly_one_script_on_unix() {
    assert_eq!(
        ripgrep_sync(Platform::Unix),
        Ok(vec![ShimFile {
            path: "/home/u/.pixi/bin/rg".to_string(),
            contents: "#!/bin/sh\nexport PATH=\"/home/u/.pixi/envs/tools/bin:${PATH}\"\n\"/home/u/.pixi/envs/tools/bin/rg\" \"$@\"\n"
                .to_string(),
            mode: Some(0o755),
        }])
    );
}

#[test]
fn ripgrep_gets_exactly_one_batch_script_on_windows() {
    assert_eq!(
        ripgrep_sync(Platform::Windows),
        Ok(vec![ShimFile {
            path: "C:\\pixi\\bin\\rg.bat".to_string(),
            contents: "@echo off\nsetlocal\n@SET \"PATH=C:\\pixi\\envs\\tools;%PATH%\"\n@\"C:\\pixi\\envs\\tools\\Library/bin/rg.exe\" %*\n\nendlocal"
                .to_string(),
            mode: None,
        }])
    );
}

#[test]
fn syncing_twice_plans_identical_files() {
    for platform in [Platform::Unix, Platform::Windows] {
        assert_eq!(ripgrep_sync(platform), ripgrep_sync(platform));
    }
}

#[test]
fn unresolvable_entry_point_plans_no_file_at_all() {
    let planned = sync_environment(
        Platform::Unix,
        "tools",
        &bindings(&[("rg", "rg"), ("fd", "fd")]),
        &vec!["ripgrep".to_string()],
        &vec![record("ripgrep", &[("bin/rg", true)])],
        "/pixi/bin",
        "/pixi/envs/tools",
        Ok(String::new()),
    );
    assert_eq!(
        planned,
        Err(GlobalError::MissingEntryPoint {
            entry_point: "fd".to_string(),
            environment_name: "tools".to_string(),
        })
    );
}

#[test]
fn failed_activation_plans_no_file_and_is_reported_first() {
    let planned = sync_environment(
        Platform::Unix,
        "tools",
        &bindings(&[("fd", "fd")]),
        &vec!["ripgrep".to_string()],
        &vec![record("ripgrep", &[("bin/rg", true)])],
        "/pixi/bin",
        "/pixi/envs/tools",
        Err("broken prefix".to_string()),
    );
    assert_eq!(
        planned,
        Err(GlobalError::Activation {
            environment_name: "tools".to_string(),
            reason: "broken prefix".to_string(),
        })
    );
}

#[test]
fn n_bindings_plan_n_files_at_distinct_paths() {
    let planned = sync_environment(
        Platform::Unix,
        "tools",
        &bindings(&[("rg", "rg"), ("search", "rg"), ("cat", "bat"), ("bat", "bat")]),
        &vec!["ripgrep".to_string(), "bat".to_string()],
        &vec![record("ripgrep", &[("bin/rg", true)]), record("bat", &[("bin/bat", true)])],
        "/pixi/bin",
        "/pixi/envs/tools",
        Ok(String::new()),
    )
    .unwrap();
    let paths: Vec<&str> = planned.iter().map(|file| file.path.as_str()).collect();
    assert_eq!(paths, vec!["/pixi/bin/rg", "/pixi/bin/search", "/pixi/bin/cat", "/pixi/bin/bat"]);
    let programs: Vec<bool> = planned
        .iter()
        .zip(["rg", "rg", "bat", "bat"])
        .map(|(file, program)| {
            file.contents == format!("#!/bin/sh\n\"/pixi/envs/tools/bin/{program}\" \"$@\"\n")
        })
        .collect();
    assert_eq!(programs, vec![true, true, true, true]);
}

#[test]
fn environment_without_bindings_plans_no_file() {
    let planned = sync_environment(
        Platform::Unix,
        "tools",
        &bindings(&[]),
        &vec!["ripgrep".to_string()],
        &vec![record("ripgrep", &[("bin/rg", true)])],
        "/pixi/bin",
        "/pixi/envs/tools",
        Ok(String::new()),
    );
    assert_eq!(planned, Ok(vec![]));
}

#[test]
fn scripts_for_a_list_of_bindings_are_those_for_the_map() {
    let records = vec![record("ripgrep", &[("bin/rg", true)])];
    let from_list = plan_scripts(
        Platform::Unix,
        "tools",
        &vec![("rg".to_string(), "rg".to_string())],
        &vec!["ripgrep".to_string()],
        &records,
        "/home/u/.pixi/bin",
        "/home/u/.pixi/envs/tools",
        Ok("export PATH=\"/home/u/.pixi/envs/tools/bin:${PATH}\"\n".to_string()),
    );
    assert_eq!(from_list, ripgrep_sync(Platform::Unix));
}

#[test]
fn unusual_spelling_in_a_record_still_gets_its_script() {
    let planned = sync_environment(
        Platform::Unix,
        "tools",
        &bindings(&[("rg", "rg")]),
        &vec!["ripgrep".to_string()],
        &vec![record("ripgrep", &[("bin//rg", true)])],
        "/pixi/bin",
        "/env",
        Ok(String::new()),
    )
    .unwrap();
    assert_eq!(planned.len(), 1);
    assert_eq!(planned[0].contents, "#!/bin/sh\n\"/env/bin//rg\" \"$@\"\n");
}
