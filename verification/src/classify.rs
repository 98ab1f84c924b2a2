//! Which files of an installed environment count as programs.
//!
//! A file is a candidate if it lies directly in one of the platform's binary
//! directories and the operating system reports it as executable. Whether a
//! file lies in such a directory is decided from its path alone, so that the
//! operating system is asked about no other file.

use crate::path::is_plain_name;
use crate::path::is_same_place;
use crate::path::join_path;
use crate::path::lemma_parent_of_joined;
use crate::path::parent_dir;
use crate::path::parent_dir_of;
use crate::path::parts_of;
use crate::path::path_parts;
use crate::path::same_place;
use crate::path::Platform;
use crate::text::views;
use vstd::prelude::*;

verus! {

/// One file that a package placed in an environment.
#[derive(Debug)]
pub struct InstalledFile {
    /// The path of the file, relative to the root of the environment.
    pub relative_path: String,
    /// What the operating system said when asked whether the file can be
    /// run. It is only asked about files in a binary directory; for any
    /// other file the field is `false`.
    pub os_executable: bool,
}

/// The mathematical content of an [`InstalledFile`].
pub struct InstalledFileView {
    pub relative_path: Seq<char>,
    pub os_executable: bool,
}

impl View for InstalledFile {
    type V = InstalledFileView;

    open spec fn view(&self) -> InstalledFileView {
        InstalledFileView {
            relative_path: self.relative_path@,
            os_executable: self.os_executable,
        }
    }
}

/// One package installed in an environment: its normalized name and the files
/// it placed there, in the order in which the installer recorded them.
#[derive(Debug)]
pub struct InstalledPackageRecord {
    pub name: String,
    pub files: Vec<InstalledFile>,
}

/// The mathematical content of an [`InstalledPackageRecord`].
pub struct InstalledPackageRecordView {
    pub name: Seq<char>,
    pub files: Seq<InstalledFileView>,
}

impl View for InstalledPackageRecord {
    type V = InstalledPackageRecordView;

    open spec fn view(&self) -> InstalledPackageRecordView {
        InstalledPackageRecordView { name: self.name@, files: views(self.files@) }
    }
}

/// The directories, relative to the root of an environment, whose files are
/// offered as programs. The empty path is the root itself.
pub open spec fn binary_folders(platform: Platform) -> Seq<Seq<char>> {
    match platform {
        Platform::Unix => seq!["bin"@],
        Platform::Windows => seq![
            ""@,
            "Library/mingw-w64/bin"@,
            "Library/usr/bin"@,
            "Library/bin"@,
            "Scripts"@,
            "bin"@,
        ],
    }
}

/// Whether `relative_path` leads to something directly inside a binary
/// directory: the directory that holds it is the same place as one of them.
pub open spec fn in_binary_folder(platform: Platform, relative_path: Seq<char>) -> bool {
    match parent_dir(platform, relative_path) {
        Some(parent) => exists|i: int|
            0 <= i < binary_folders(platform).len() && same_place(
                parent,
                path_parts(platform, #[trigger] binary_folders(platform)[i]),
            ),
        None => false,
    }
}

/// Whether `file` is offered as a program.
pub open spec fn is_candidate(platform: Platform, file: InstalledFileView) -> bool {
    in_binary_folder(platform, file.relative_path) && file.os_executable
}

/// The path of `file` if it is offered as a program.
pub open spec fn candidate_path(platform: Platform) -> spec_fn(InstalledFileView) -> Option<
    Seq<char>,
> {
    |file: InstalledFileView|
        if is_candidate(platform, file) {
            Some(file.relative_path)
        } else {
            None
        }
}

/// The paths of the candidates among `files`, in their order.
pub open spec fn candidate_paths(platform: Platform, files: Seq<InstalledFileView>) -> Seq<
    Seq<char>,
> {
    files.filter_map(candidate_path(platform))
}

/// Every file placed directly in a binary directory is in a binary folder.
pub proof fn lemma_file_in_binary_folder(platform: Platform, i: int, name: Seq<char>)
    requires
        0 <= i < binary_folders(platform).len(),
        is_plain_name(platform, name),
        name != seq!['.', '.'],
    ensures
        in_binary_folder(platform, join_path(platform, binary_folders(platform)[i], name)),
{
    lemma_parent_of_joined(platform, binary_folders(platform)[i], name);
}

/// The binary directories of `platform`.
pub fn binary_folder_list(platform: Platform) -> (folders: Vec<&'static str>)
    ensures
        views(folders@) == binary_folders(platform),
{
    let folders = match platform {
        Platform::Unix => vec!["bin"],
        Platform::Windows => vec![
            "",
            "Library/mingw-w64/bin",
            "Library/usr/bin",
            "Library/bin",
            "Scripts",
            "bin",
        ],
    };
    assert(views(folders@) =~= binary_folders(platform));
    folders
}

/// Tells from the path alone whether a file lies directly inside a binary
/// directory. Only for such a file does the operating system need to be asked
/// whether it can be run.
pub fn is_in_binary_folder(platform: Platform, relative_path: &str) -> (inside: bool)
    ensures
        inside == in_binary_folder(platform, relative_path@),
{
    let parent = match parent_dir_of(platform, relative_path) {
        Some(parent) => parent,
        None => {
            return false;
        },
    };
    let folders = binary_folder_list(platform);
    let mut i: usize = 0;
    while i < folders.len()
        invariant
            i <= folders.len(),
            parent_dir(platform, relative_path@) == Some(parent@),
            views(folders@) == binary_folders(platform),
            forall|j: int|
                0 <= j < i ==> !same_place(
                    parent@,
                    path_parts(platform, #[trigger] binary_folders(platform)[j]),
                ),
        decreases folders.len() - i,
    {
        assert(views(folders@)[i as int] == folders@[i as int]@);
        let folder = parts_of(platform, folders[i]);
        if is_same_place(&parent, &folder) {
            assert(same_place(parent@, path_parts(platform, binary_folders(platform)[i as int])));
            return true;
        }
        i = i + 1;
    }
    false
}

/// Decides whether `file` is offered as a program.
///
/// A file outside the binary directories is never offered, whatever the
/// operating system says of it; a file inside one is offered exactly if the
/// operating system reports it as executable.
pub fn is_executable(platform: Platform, file: &InstalledFile) -> (offered: bool)
    ensures
        offered == is_candidate(platform, file@),
        !in_binary_folder(platform, file.relative_path@) ==> !offered,
        in_binary_folder(platform, file.relative_path@) && file.os_executable ==> offered,
{
    if !is_in_binary_folder(platform, file.relative_path.as_str()) {
        return false;
    }
    file.os_executable
}

/// Finds the programs among the files of one installed package.
pub fn find_executables(platform: Platform, record: &InstalledPackageRecord) -> (paths: Vec<
    String,
>)
    ensures
        views(paths@) == candidate_paths(platform, record@.files),
{
    let mut paths: Vec<String> = Vec::new();
    let mut i: usize = 0;
    assert(record@.files.take(0) =~= Seq::empty());
    assert(views(paths@) =~= Seq::empty());
    while i < record.files.len()
        invariant
            i <= record.files.len(),
            views(paths@) == candidate_paths(platform, record@.files.take(i as int)),
        decreases record.files.len() - i,
    {
        let file = &record.files[i];
        let ghost before = views(paths@);
        proof {
            assert(record@.files[i as int] == file@);
            record@.files.lemma_filter_map_take_succ(candidate_path(platform), i as int);
        }
        if is_executable(platform, file) {
            paths.push(file.relative_path.clone());
            assert(views(paths@) =~= before + seq![file@.relative_path]);
        }
        i = i + 1;
    }
    assert(record@.files.take(i as int) =~= record@.files);
    paths
}

} // verus!
