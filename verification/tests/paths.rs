use pixi_global::mapping::executable_script_path;
use pixi_global::path::file_name_of;
use pixi_global::path::has_root;
use pixi_global::path::is_same_place;
use pixi_global::path::join;
use pixi_global::path::locate;
use pixi_global::path::parent_dir_of;
use pixi_global::path::parts_of;
use pixi_global::path::separates;
use pixi_global::path::PathParts;
use pixi_global::path::Platform;
use pixi_global::text::ends_with;
use pixi_global::text::has_char;
use pixi_global::text::split;
use pixi_global::text::text_eq;
use std::path::Path;

fn parts(rooted: bool, names: &[&str]) -> PathParts {
    PathParts { rooted, names: names.iter().map(|name| name.to_string()).collect() }
}

fn name(text: &str) -> Option<String> {
    Some(text.to_string())
}

#[test]
fn slash_separates_everywhere_backslash_only_on_windows() {
    assert!(separates(Platform::Unix, '/'));
    assert!(separates(Platform::Windows, '/'));
    assert!(separates(Platform::Windows, '\\'));
    assert!(!separates(Platform::Unix, '\\'));
    assert!(!separates(Platform::Unix, 'a'));
}

#[test]
fn path_is_read_by_its_components() {
    assert_eq!(parts_of(Platform::Unix, "bin/rg"), parts(false, &["bin", "rg"]));
    assert_eq!(parts_of(Platform::Unix, "rg"), parts(false, &["rg"]));
    assert_eq!(parts_of(Platform::Unix, ""), parts(false, &[]));
    assert_eq!(parts_of(Platform::Unix, "/"), parts(true, &[]));
    assert_eq!(parts_of(Platform::Unix, "/bin/rg"), parts(true, &["bin", "rg"]));
    assert_eq!(parts_of(Platform::Unix, "a/../b"), parts(false, &["a", "..", "b"]));
}

#[test]
fn empty_and_dot_components_count_for_nothing() {
    assert_eq!(parts_of(Platform::Unix, "bin//rg"), parts(false, &["bin", "rg"]));
    assert_eq!(parts_of(Platform::Unix, "bin/./rg"), parts(false, &["bin", "rg"]));
    assert_eq!(parts_of(Platform::Unix, "bin/rg/"), parts(false, &["bin", "rg"]));
    assert_eq!(parts_of(Platform::Unix, "bin/rg/."), parts(false, &["bin", "rg"]));
    assert_eq!(parts_of(Platform::Unix, "//bin///rg//"), parts(true, &["bin", "rg"]));
    assert_eq!(parts_of(Platform::Unix, "/./bin"), parts(true, &["bin"]));
}

#[test]
fn dot_at_the_start_of_a_path_stays() {
    assert_eq!(parts_of(Platform::Unix, "."), parts(false, &["."]));
    assert_eq!(parts_of(Platform::Unix, "./"), parts(false, &["."]));
    assert_eq!(parts_of(Platform::Unix, "./bin/rg"), parts(false, &[".", "bin", "rg"]));
    assert_eq!(parts_of(Platform::Unix, "././rg"), parts(false, &[".", "rg"]));
    assert_eq!(parts_of(Platform::Unix, ".hidden/rg"), parts(false, &[".hidden", "rg"]));
}

#[test]
fn windows_paths_are_cut_at_either_separator() {
    assert_eq!(
        parts_of(Platform::Windows, "Library\\bin/rg.exe"),
        parts(false, &["Library", "bin", "rg.exe"])
    );
    assert_eq!(parts_of(Platform::Unix, "Library\\bin"), parts(false, &["Library\\bin"]));
    assert_eq!(parts_of(Platform::Windows, "\\bin"), parts(true, &["bin"]));
}

#[test]
fn components_count_characters_not_bytes() {
    assert_eq!(parts_of(Platform::Unix, "é/ü/日本"), parts(false, &["é", "ü", "日本"]));
}

#[test]
fn file_name_is_the_last_component() {
    assert_eq!(file_name_of(Platform::Unix, "bin/rg"), name("rg"));
    assert_eq!(file_name_of(Platform::Unix, "rg"), name("rg"));
    assert_eq!(file_name_of(Platform::Unix, "a/b/c.py"), name("c.py"));
    assert_eq!(file_name_of(Platform::Windows, "Library\\bin\\rg.exe"), name("rg.exe"));
    assert_eq!(file_name_of(Platform::Unix, "Library\\bin\\rg.exe"), name("Library\\bin\\rg.exe"));
    assert_eq!(file_name_of(Platform::Unix, "bin/..."), name("..."));
    assert_eq!(file_name_of(Platform::Unix, "bin/.x"), name(".x"));
}

#[test]
fn file_name_looks_past_separators_and_dots_at_the_end() {
    assert_eq!(file_name_of(Platform::Unix, "bin/"), name("bin"));
    assert_eq!(file_name_of(Platform::Unix, "bin/rg//"), name("rg"));
    assert_eq!(file_name_of(Platform::Unix, "bin/."), name("bin"));
    assert_eq!(file_name_of(Platform::Unix, "bin//rg"), name("rg"));
}

#[test]
fn file_name_is_missing_where_the_path_names_no_file() {
    assert_eq!(file_name_of(Platform::Unix, ""), None);
    assert_eq!(file_name_of(Platform::Unix, "/"), None);
    assert_eq!(file_name_of(Platform::Unix, "."), None);
    assert_eq!(file_name_of(Platform::Unix, "./"), None);
    assert_eq!(file_name_of(Platform::Unix, ".."), None);
    assert_eq!(file_name_of(Platform::Unix, "bin/.."), None);
}

#[test]
fn parent_dir_is_the_path_without_its_last_component() {
    assert_eq!(parent_dir_of(Platform::Unix, "bin/rg"), Some(parts(false, &["bin"])));
    assert_eq!(parent_dir_of(Platform::Unix, "rg"), Some(parts(false, &[])));
    assert_eq!(parent_dir_of(Platform::Unix, "a/b/c"), Some(parts(false, &["a", "b"])));
    assert_eq!(parent_dir_of(Platform::Unix, "/rg"), Some(parts(true, &[])));
    assert_eq!(parent_dir_of(Platform::Unix, "bin//rg"), Some(parts(false, &["bin"])));
    assert_eq!(parent_dir_of(Platform::Unix, "bin/"), Some(parts(false, &[])));
    assert_eq!(parent_dir_of(Platform::Unix, "bin/.."), Some(parts(false, &["bin"])));
    assert_eq!(parent_dir_of(Platform::Unix, "."), Some(parts(false, &[])));
    assert_eq!(
        parent_dir_of(Platform::Windows, "Library\\bin\\rg.exe"),
        Some(parts(false, &["Library", "bin"]))
    );
}

#[test]
fn parent_dir_is_missing_where_the_path_has_no_component() {
    assert_eq!(parent_dir_of(Platform::Unix, ""), None);
    assert_eq!(parent_dir_of(Platform::Unix, "/"), None);
    assert_eq!(parent_dir_of(Platform::Unix, "//"), None);
}

#[test]
fn same_place_compares_root_and_components() {
    let bin = parts_of(Platform::Unix, "bin");
    assert!(is_same_place(&bin, &parts_of(Platform::Unix, "bin/")));
    assert!(is_same_place(&bin, &parts_of(Platform::Unix, "bin/.")));
    assert!(!is_same_place(&bin, &parts_of(Platform::Unix, "/bin")));
    assert!(!is_same_place(&bin, &parts_of(Platform::Unix, "./bin")));
    assert!(!is_same_place(&bin, &parts_of(Platform::Unix, "Bin")));
    assert!(!is_same_place(&bin, &parts_of(Platform::Unix, "bin/x")));
    assert!(!is_same_place(&bin, &parts_of(Platform::Unix, "")));
    assert!(is_same_place(
        &parts_of(Platform::Windows, "Library\\bin"),
        &parts_of(Platform::Windows, "Library/bin/")
    ));
}

#[test]
fn components_agree_with_the_standard_library_on_unix() {
    if std::path::MAIN_SEPARATOR != '/' {
        return;
    }
    let paths = [
        "", "/", "bin/rg", "bin//rg", "bin/./rg", "./bin/rg", "bin/rg/", "bin/.", "bin/..", ".",
        "./", "..", "/bin/rg", "//bin", "a/b/../c", "rg", ".hidden", "/./x", "a/./", "bin/rg/.",
    ];
    for path in paths {
        let expected_name =
            Path::new(path).file_name().map(|name| name.to_str().unwrap().to_string());
        assert_eq!(file_name_of(Platform::Unix, path), expected_name, "file name of {path:?}");
        let parent = parent_dir_of(Platform::Unix, path);
        match Path::new(path).parent() {
            None => assert_eq!(parent, None, "parent of {path:?}"),
            Some(expected) => {
                let found = parent.unwrap();
                for other in ["", "bin", "/", ".", "bin/", "/bin", "a/b", "a/b/.."] {
                    assert_eq!(
                        is_same_place(&found, &parts_of(Platform::Unix, other)),
                        expected == Path::new(other),
                        "parent of {path:?} against {other:?}"
                    );
                }
            }
        }
    }
}

#[test]
fn join_puts_one_separator_between_directory_and_name() {
    assert_eq!(join(Platform::Unix, "/home/u/.pixi/bin", "rg"), "/home/u/.pixi/bin/rg");
    assert_eq!(join(Platform::Unix, "/home/u/.pixi/bin/", "rg"), "/home/u/.pixi/bin/rg");
    assert_eq!(join(Platform::Windows, "C:\\pixi\\bin", "rg"), "C:\\pixi\\bin\\rg");
    assert_eq!(join(Platform::Windows, "C:\\pixi\\bin\\", "rg"), "C:\\pixi\\bin\\rg");
    assert_eq!(join(Platform::Windows, "C:/pixi/bin/", "rg"), "C:/pixi/bin/rg");
    assert_eq!(join(Platform::Unix, "/env", "bin/rg"), "/env/bin/rg");
}

#[test]
fn join_with_an_empty_directory_is_the_name() {
    assert_eq!(join(Platform::Unix, "", "rg"), "rg");
    assert_eq!(join(Platform::Windows, "", "rg"), "rg");
}

#[test]
fn script_path_gets_the_batch_extension_on_windows_only() {
    assert_eq!(executable_script_path(Platform::Unix, "/bin", "rg"), "/bin/rg");
    assert_eq!(executable_script_path(Platform::Windows, "C:\\bin", "rg"), "C:\\bin\\rg.bat");
    assert_eq!(
        executable_script_path(Platform::Windows, "C:\\bin", "python3.11"),
        "C:\\bin\\python3.11.bat"
    );
}

#[test]
fn text_comparisons() {
    assert!(text_eq("abc", "abc"));
    assert!(!text_eq("abc", "abd"));
    assert!(!text_eq("abc", "ab"));
    assert!(ends_with("foo.sh", ".sh"));
    assert!(ends_with("foo.sh", ""));
    assert!(ends_with(".sh", ".sh"));
    assert!(!ends_with("sh", ".sh"));
    assert!(!ends_with("foo.sh", ".py"));
    assert!(has_char("/\\", '\\'));
    assert!(has_char("/\\", '/'));
    assert!(!has_char("/", '\\'));
    assert!(!has_char("", '/'));
}

#[test]
fn split_cuts_at_every_separator() {
    assert_eq!(split("a;b;c", ";"), vec!["a", "b", "c"]);
    assert_eq!(split("abc", ";"), vec!["abc"]);
    assert_eq!(split("", ";"), vec![""]);
    assert_eq!(split(";", ";"), vec!["", ""]);
    assert_eq!(split("a;", ";"), vec!["a", ""]);
    assert_eq!(split(";a", ";"), vec!["", "a"]);
    assert_eq!(split("a;;b", ";"), vec!["a", "", "b"]);
}

#[test]
fn split_cuts_at_any_of_several_separators() {
    assert_eq!(split("a/b\\c", "/\\"), vec!["a", "b", "c"]);
    assert_eq!(split("a/b\\c", "/"), vec!["a", "b\\c"]);
    assert_eq!(split("a/b", ""), vec!["a/b"]);
}

#[test]
fn split_agrees_with_the_standard_library() {
    for text in ["", ";", "a", ".COM;.EXE;.BAT", ";;x;", "é;ü"] {
        let expected: Vec<String> = text.split(';').map(|piece| piece.to_string()).collect();
        assert_eq!(split(text, ";"), expected);
    }
}

#[test]
fn rooted_paths_start_with_a_separator_or_a_drive() {
    assert!(has_root(Platform::Unix, "/env/bin/rg"));
    assert!(has_root(Platform::Unix, "/"));
    assert!(!has_root(Platform::Unix, "bin/rg"));
    assert!(!has_root(Platform::Unix, ""));
    assert!(!has_root(Platform::Unix, "C:\\env"));
    assert!(!has_root(Platform::Unix, "\\env"));
    assert!(has_root(Platform::Windows, "C:\\env\\rg.exe"));
    assert!(has_root(Platform::Windows, "C:rg.exe"));
    assert!(has_root(Platform::Windows, "\\env"));
    assert!(has_root(Platform::Windows, "/env"));
    assert!(!has_root(Platform::Windows, "Library/bin/rg.exe"));
    assert!(!has_root(Platform::Windows, "C"));
}

#[test]
fn relative_path_is_located_inside_the_base() {
    assert_eq!(locate(Platform::Unix, "/env", "bin/rg"), "/env/bin/rg");
    assert_eq!(
        locate(Platform::Windows, "C:\\env", "Library/bin/rg.exe"),
        "C:\\env\\Library/bin/rg.exe"
    );
    assert_eq!(locate(Platform::Unix, "", "bin/rg"), "bin/rg");
}

#[test]
fn rooted_path_is_located_where_it_says() {
    assert_eq!(locate(Platform::Unix, "/env", "/other/bin/rg"), "/other/bin/rg");
    assert_eq!(locate(Platform::Windows, "C:\\env", "D:\\tools\\rg.exe"), "D:\\tools\\rg.exe");
}
