//! From the file name of a program to the name of its command.
//!
//! A file name is put in lowercase and loses at most one extension out of a
//! table of extensions that mark scripts and programs on the platform.

use crate::mapping::executable_script_path;
use crate::mapping::script_path;
use crate::mapping::ScriptExecMapping;
use crate::mapping::ScriptExecMappingView;
use crate::path::file_name;
use crate::path::file_name_of;
use crate::path::locate;
use crate::path::path_from;
use crate::path::Platform;
use crate::text::ends_with;
use crate::text::lowercase;
use crate::text::split;
use crate::text::split_text;
use crate::text::to_lowercase;
use crate::text::views;
use vstd::prelude::*;
use vstd::string::*;

verus! {

/// The extensions of interpreter scripts that are dropped on Unix.
pub open spec fn unix_extensions() -> Seq<Seq<char>> {
    seq![
        ".sh"@,
        ".bash"@,
        ".zsh"@,
        ".csh"@,
        ".tcsh"@,
        ".ksh"@,
        ".fish"@,
        ".py"@,
        ".pl"@,
        ".rb"@,
        ".lua"@,
        ".php"@,
        ".tcl"@,
        ".awk"@,
        ".sed"@,
    ]
}

/// The extensions that are dropped on Windows where the environment does not
/// name any.
pub open spec fn default_windows_extensions() -> Seq<Seq<char>> {
    seq![
        ".com"@,
        ".exe"@,
        ".bat"@,
        ".cmd"@,
        ".vbs"@,
        ".vbe"@,
        ".js"@,
        ".jse"@,
        ".wsf"@,
        ".wsh"@,
        ".msc"@,
        ".cpl"@,
    ]
}

/// The extensions that a `PATHEXT` value names: its pieces between
/// semicolons, each in lowercase.
pub open spec fn pathext_extensions(pathext: Seq<char>) -> Seq<Seq<char>> {
    split_text(pathext, ";"@).map_values(|piece: Seq<char>| lowercase(piece))
}

/// The table of extensions for `platform`. On Windows the value of `PATHEXT`
/// decides, if there is one.
pub open spec fn extension_table(platform: Platform, pathext: Option<Seq<char>>) -> Seq<
    Seq<char>,
> {
    match platform {
        Platform::Unix => unix_extensions(),
        Platform::Windows => match pathext {
            Some(value) => pathext_extensions(value),
            None => default_windows_extensions(),
        },
    }
}

/// `name` without the first extension of the table that it ends with, or
/// `name` itself where it ends with none of them.
pub open spec fn strip_known_extension(name: Seq<char>, extensions: Seq<Seq<char>>) -> Seq<char>
    decreases extensions.len(),
{
    if extensions.len() == 0 {
        name
    } else if extensions[0].is_suffix_of(name) {
        name.subrange(0, name.len() - extensions[0].len())
    } else {
        strip_known_extension(name, extensions.drop_first())
    }
}

/// The command name that the file name `file_name` stands for.
pub open spec fn normalized_name(file_name: Seq<char>, extensions: Seq<Seq<char>>) -> Seq<char> {
    strip_known_extension(lowercase(file_name), extensions)
}

/// The mapping for one program of a package, if its path names a file. The
/// program is located inside the environment at `prefix_root`.
pub open spec fn default_mapping(
    platform: Platform,
    bin_dir: Seq<char>,
    prefix_root: Seq<char>,
    extensions: Seq<Seq<char>>,
) -> spec_fn(Seq<char>) -> Option<ScriptExecMappingView> {
    |executable: Seq<char>|
        match file_name(platform, executable) {
            Some(name) => Some(
                ScriptExecMappingView {
                    global_script_path: script_path(
                        platform,
                        bin_dir,
                        normalized_name(name, extensions),
                    ),
                    original_executable: path_from(platform, prefix_root, executable),
                },
            ),
            None => None,
        }
}

/// The mappings for the programs of a package, each under the command name
/// that its file name stands for.
pub open spec fn default_mappings(
    platform: Platform,
    executables: Seq<Seq<char>>,
    bin_dir: Seq<char>,
    prefix_root: Seq<char>,
    extensions: Seq<Seq<char>>,
) -> Seq<ScriptExecMappingView> {
    executables.filter_map(default_mapping(platform, bin_dir, prefix_root, extensions))
}

/// A name that ends with none of the extensions is left as it is.
pub proof fn lemma_strip_without_match(name: Seq<char>, extensions: Seq<Seq<char>>)
    requires
        forall|i: int| 0 <= i < extensions.len() ==> !(#[trigger] extensions[i]).is_suffix_of(name),
    ensures
        strip_known_extension(name, extensions) == name,
    decreases extensions.len(),
{
    if extensions.len() > 0 {
        assert(!extensions[0].is_suffix_of(name));
        assert forall|i: int| 0 <= i < extensions.drop_first().len() implies !(
        #[trigger] extensions.drop_first()[i]).is_suffix_of(name) by {
            assert(extensions.drop_first()[i] == extensions[i + 1]);
        }
        lemma_strip_without_match(name, extensions.drop_first());
    }
}

/// The first extension that matches is the one that goes, and no other.
pub proof fn lemma_strip_first_match(name: Seq<char>, extensions: Seq<Seq<char>>, k: int)
    requires
        0 <= k < extensions.len(),
        extensions[k].is_suffix_of(name),
        forall|i: int| 0 <= i < k ==> !(#[trigger] extensions[i]).is_suffix_of(name),
    ensures
        strip_known_extension(name, extensions) == name.subrange(
            0,
            name.len() - extensions[k].len(),
        ),
    decreases extensions.len(),
{
    if k > 0 {
        assert(!extensions[0].is_suffix_of(name));
        assert forall|i: int| 0 <= i < k - 1 implies !(#[trigger] extensions.drop_first()[i])
            .is_suffix_of(name) by {
            assert(extensions.drop_first()[i] == extensions[i + 1]);
        }
        assert(extensions.drop_first()[k - 1] == extensions[k]);
        lemma_strip_first_match(name, extensions.drop_first(), k - 1);
    }
}

/// At most one extension goes: what is left is the name itself, or the name
/// without one extension of the table that it ends with.
pub proof fn lemma_strip_removes_at_most_one(name: Seq<char>, extensions: Seq<Seq<char>>)
    ensures
        strip_known_extension(name, extensions) == name || exists|k: int|
            0 <= k < extensions.len() && (#[trigger] extensions[k]).is_suffix_of(name)
                && strip_known_extension(name, extensions) + extensions[k] == name,
    decreases extensions.len(),
{
    if extensions.len() > 0 {
        if extensions[0].is_suffix_of(name) {
            let kept = name.len() - extensions[0].len();
            assert(name.subrange(0, kept) + extensions[0] =~= name);
        } else {
            let rest = extensions.drop_first();
            lemma_strip_removes_at_most_one(name, rest);
            if strip_known_extension(name, rest) != name {
                let k = choose|k: int|
                    0 <= k < rest.len() && (#[trigger] rest[k]).is_suffix_of(name)
                        && strip_known_extension(name, rest) + rest[k] == name;
                assert(extensions[k + 1] == rest[k]);
            }
        }
    }
}

/// The extensions of interpreter scripts that are dropped on Unix.
pub fn unix_extension_list() -> (extensions: Vec<String>)
    ensures
        views(extensions@) == unix_extensions(),
{
    let names = vec![
        ".sh",
        ".bash",
        ".zsh",
        ".csh",
        ".tcsh",
        ".ksh",
        ".fish",
        ".py",
        ".pl",
        ".rb",
        ".lua",
        ".php",
        ".tcl",
        ".awk",
        ".sed",
    ];
    assert(views(names@) =~= unix_extensions());
    owned_texts(&names)
}

/// The extensions that are dropped on Windows where `PATHEXT` is not set.
pub fn default_windows_extension_list() -> (extensions: Vec<String>)
    ensures
        views(extensions@) == default_windows_extensions(),
{
    let names = vec![
        ".com",
        ".exe",
        ".bat",
        ".cmd",
        ".vbs",
        ".vbe",
        ".js",
        ".jse",
        ".wsf",
        ".wsh",
        ".msc",
        ".cpl",
    ];
    assert(views(names@) =~= default_windows_extensions());
    owned_texts(&names)
}

/// Copies a list of literals into owned texts.
fn owned_texts(names: &Vec<&'static str>) -> (owned: Vec<String>)
    ensures
        views(owned@) == views(names@),
{
    let mut owned: Vec<String> = Vec::new();
    let mut i: usize = 0;
    while i < names.len()
        invariant
            i <= names.len(),
            owned@.len() == i,
            forall|j: int| 0 <= j < i ==> (#[trigger] owned@[j])@ == names@[j]@,
        decreases names.len() - i,
    {
        owned.push(names[i].to_owned());
        i = i + 1;
    }
    assert(views(owned@) =~= views(names@));
    owned
}

/// Reads the extensions out of a `PATHEXT` value.
pub fn parse_pathext(pathext: &str) -> (extensions: Vec<String>)
    ensures
        views(extensions@) == pathext_extensions(pathext@),
{
    let pieces = split(pathext, ";");
    let mut extensions: Vec<String> = Vec::new();
    let mut i: usize = 0;
    while i < pieces.len()
        invariant
            i <= pieces.len(),
            extensions@.len() == i,
            forall|j: int| 0 <= j < i ==> (#[trigger] extensions@[j])@ == lowercase(pieces@[j]@),
        decreases pieces.len() - i,
    {
        extensions.push(to_lowercase(pieces[i].as_str()));
        i = i + 1;
    }
    assert(views(extensions@) =~= views(pieces@).map_values(|piece: Seq<char>| lowercase(piece)));
    extensions
}

/// Builds the table of extensions for `platform`. `pathext` is the value of
/// the `PATHEXT` variable, if the environment has one; it only counts on
/// Windows.
pub fn extensions_for(platform: Platform, pathext: Option<&str>) -> (extensions: Vec<String>)
    ensures
        views(extensions@) == extension_table(
            platform,
            match pathext {
                Some(value) => Some(value@),
                None => None,
            },
        ),
{
    match platform {
        Platform::Unix => unix_extension_list(),
        Platform::Windows => match pathext {
            Some(value) => parse_pathext(value),
            None => default_windows_extension_list(),
        },
    }
}

/// Removes from `name` the first extension of the table that it ends with.
pub fn strip_extension(name: &str, extensions: &Vec<String>) -> (stripped: String)
    ensures
        stripped@ == strip_known_extension(name@, views(extensions@)),
{
    let mut i: usize = 0;
    while i < extensions.len()
        invariant
            i <= extensions.len(),
            forall|j: int| 0 <= j < i ==> !(#[trigger] views(extensions@)[j]).is_suffix_of(name@),
        decreases extensions.len() - i,
    {
        let extension = extensions[i].as_str();
        assert(views(extensions@)[i as int] == extension@);
        if ends_with(name, extension) {
            proof {
                lemma_strip_first_match(name@, views(extensions@), i as int);
            }
            let kept = name.unicode_len() - extension.unicode_len();
            return name.substring_char(0, kept).to_owned();
        }
        i = i + 1;
    }
    proof {
        lemma_strip_without_match(name@, views(extensions@));
    }
    name.to_owned()
}

/// Turns the file name of a program into the name of its command: the name
/// in lowercase, without the first extension of the table that it then ends
/// with.
pub fn normalize_name(file_name: &str, extensions: &Vec<String>) -> (name: String)
    ensures
        name@ == normalized_name(file_name@, views(extensions@)),
{
    let lowered = to_lowercase(file_name);
    strip_extension(lowered.as_str(), extensions)
}

/// For each executable provided, map it to the installation path for its
/// global script. The executables are paths inside the environment at
/// `prefix_root`; a path that names no file is passed over.
pub fn map_executables_to_global_bin_scripts(
    platform: Platform,
    package_executables: Vec<String>,
    bin_dir: &str,
    prefix_root: &str,
    extensions: &Vec<String>,
) -> (mappings: Vec<ScriptExecMapping>)
    ensures
        views(mappings@) == default_mappings(
            platform,
            views(package_executables@),
            bin_dir@,
            prefix_root@,
            views(extensions@),
        ),
{
    let ghost executables = views(package_executables@);
    let ghost step = default_mapping(platform, bin_dir@, prefix_root@, views(extensions@));
    let mut mappings: Vec<ScriptExecMapping> = Vec::new();
    let mut i: usize = 0;
    assert(executables.take(0) =~= Seq::empty());
    assert(views(mappings@) =~= Seq::empty());
    while i < package_executables.len()
        invariant
            i <= package_executables.len(),
            executables == views(package_executables@),
            step == default_mapping(platform, bin_dir@, prefix_root@, views(extensions@)),
            views(mappings@) == executables.take(i as int).filter_map(step),
        decreases package_executables.len() - i,
    {
        let executable = &package_executables[i];
        let ghost before = views(mappings@);
        proof {
            assert(executables[i as int] == executable@);
            executables.lemma_filter_map_take_succ(step, i as int);
        }
        match file_name_of(platform, executable.as_str()) {
            None => {},
            Some(file_name) => {
                let name = normalize_name(file_name.as_str(), extensions);
                let mapping = ScriptExecMapping {
                    global_script_path: executable_script_path(platform, bin_dir, name.as_str()),
                    original_executable: locate(platform, prefix_root, executable.as_str()),
                };
                mappings.push(mapping);
                assert(views(mappings@) =~= before + seq![step(executable@)->0]);
            },
        }
        i = i + 1;
    }
    assert(executables.take(i as int) =~= executables);
    mappings
}

} // verus!
