//! Paths as text.
//!
//! Package records list the files of an environment as paths relative to its
//! root, and directories are handed in as text too. A path is read here by
//! its components: it is cut at separators, empty components and `.`
//! components count for nothing (but for a `.` that the path begins with),
//! and two paths lead to the same place if their components agree. Nothing
//! is looked up on disk and no `..` is resolved.

use crate::text::is_plain;
use crate::text::lemma_split_after_separator;
use crate::text::lemma_split_plain;
use crate::text::lemma_split_text_nonempty;
use crate::text::split;
use crate::text::split_text;
use crate::text::views;
use vstd::prelude::*;
use vstd::string::*;

verus! {

/// The family of operating systems an environment was installed for.
#[derive(Clone, Copy, Debug, PartialEq, Eq, Structural)]
pub enum Platform {
    Unix,
    Windows,
}

/// The characters that separate path components on `platform`.
pub open spec fn separators(platform: Platform) -> Seq<char> {
    match platform {
        Platform::Unix => "/"@,
        Platform::Windows => "/\\"@,
    }
}

/// Whether `c` separates path components on `platform`.
pub open spec fn is_separator(platform: Platform, c: char) -> bool {
    c == '/' || (platform == Platform::Windows && c == '\\')
}

/// The separator that is written between a directory and a file name.
pub open spec fn main_separator(platform: Platform) -> char {
    match platform {
        Platform::Unix => '/',
        Platform::Windows => '\\',
    }
}

/// What a path comes to once it is read by its components.
pub struct PathPartsView {
    /// Whether the path starts at a root, that is, with a separator.
    pub rooted: bool,
    /// The components that count, in order.
    pub names: Seq<Seq<char>>,
}

/// A path read by its components.
#[derive(Debug, PartialEq, Eq)]
pub struct PathParts {
    /// Whether the path starts at a root, that is, with a separator.
    pub rooted: bool,
    /// The components that count, in order.
    pub names: Vec<String>,
}

impl View for PathParts {
    type V = PathPartsView;

    open spec fn view(&self) -> PathPartsView {
        PathPartsView { rooted: self.rooted, names: views(self.names@) }
    }
}

/// Whether a piece of a path counts as a component wherever it stands: it is
/// neither empty nor `.`.
pub open spec fn counts() -> spec_fn(Seq<char>) -> bool {
    |piece: Seq<char>| piece.len() > 0 && piece != seq!['.']
}

/// The components of `path` that count: its pieces between separators
/// without the empty ones and without `.`, except that a `.` which the path
/// begins with stays.
pub open spec fn path_names(platform: Platform, path: Seq<char>) -> Seq<Seq<char>> {
    let pieces = split_text(path, separators(platform));
    let kept = pieces.filter(counts());
    if pieces[0] == seq!['.'] {
        seq![seq!['.']] + kept
    } else {
        kept
    }
}

/// `path` read by its components.
pub open spec fn path_parts(platform: Platform, path: Seq<char>) -> PathPartsView {
    PathPartsView {
        rooted: path.len() > 0 && is_separator(platform, path[0]),
        names: path_names(platform, path),
    }
}

/// Whether two paths, read by their components, lead to the same place.
pub open spec fn same_place(a: PathPartsView, b: PathPartsView) -> bool {
    a.rooted == b.rooted && a.names == b.names
}

/// The name of the file that `path` leads to: its last component, unless
/// there is none or it is `.` or `..`.
pub open spec fn file_name(platform: Platform, path: Seq<char>) -> Option<Seq<char>> {
    let names = path_names(platform, path);
    if names.len() == 0 || names.last() == seq!['.'] || names.last() == seq!['.', '.'] {
        None
    } else {
        Some(names.last())
    }
}

/// The directory that holds what `path` leads to: the path without its last
/// component. A path without components, such as the empty path or a bare
/// root, has none.
pub open spec fn parent_dir(platform: Platform, path: Seq<char>) -> Option<PathPartsView> {
    let parts = path_parts(platform, path);
    if parts.names.len() == 0 {
        None
    } else {
        Some(PathPartsView { rooted: parts.rooted, names: parts.names.drop_last() })
    }
}

/// `name` placed inside the directory `base`. An empty `base` stands for the
/// current directory and adds nothing.
pub open spec fn join_path(platform: Platform, base: Seq<char>, name: Seq<char>) -> Seq<char> {
    if base.len() == 0 {
        name
    } else if is_separator(platform, base.last()) {
        base + name
    } else {
        base.push(main_separator(platform)) + name
    }
}

/// Whether `path` says by itself where it starts: at a root, or on Windows
/// at a drive.
pub open spec fn is_rooted(platform: Platform, path: Seq<char>) -> bool {
    ||| path.len() >= 1 && is_separator(platform, path[0])
    ||| platform == Platform::Windows && path.len() >= 2 && path[1] == ':'
}

/// Where `path` leads when followed from the directory `base`: a rooted
/// path leads where it says, any other is taken inside `base`.
pub open spec fn path_from(platform: Platform, base: Seq<char>, path: Seq<char>) -> Seq<char> {
    if is_rooted(platform, path) {
        path
    } else {
        join_path(platform, base, path)
    }
}

/// The separators of a platform are the characters that separate.
pub proof fn lemma_separators(platform: Platform, c: char)
    ensures
        separators(platform).contains(c) == is_separator(platform, c),
{
    reveal_strlit("/");
    reveal_strlit("/\\");
    let all = separators(platform);
    if is_separator(platform, c) {
        if c == '/' {
            assert(all[0] == c);
        } else {
            assert(all[1] == c);
        }
    }
}

/// Whether `name` can be the name of a file or a directory: it is not empty,
/// holds no separator, and is not `.`.
pub open spec fn is_plain_name(platform: Platform, name: Seq<char>) -> bool {
    &&& counts()(name)
    &&& forall|i: int| 0 <= i < name.len() ==> !is_separator(platform, #[trigger] name[i])
}

/// A name alone is a path of one component.
pub proof fn lemma_names_of_name(platform: Platform, name: Seq<char>)
    requires
        is_plain_name(platform, name),
    ensures
        path_names(platform, name) == seq![name],
{
    let all = separators(platform);
    assert(is_plain(name, all)) by {
        assert forall|i: int| 0 <= i < name.len() implies !all.contains(#[trigger] name[i]) by {
            lemma_separators(platform, name[i]);
        }
    }
    lemma_split_plain(name, all);
    let pieces = seq![name];
    reveal_with_fuel(Seq::filter, 2);
    assert(pieces.drop_last() =~= Seq::<Seq<char>>::empty());
    assert(pieces.filter(counts()) =~= seq![name]);
}

/// A name behind a separator is one more component.
pub proof fn lemma_names_with_name(
    platform: Platform,
    front: Seq<char>,
    separator: char,
    name: Seq<char>,
)
    requires
        is_separator(platform, separator),
        is_plain_name(platform, name),
    ensures
        path_names(platform, front.push(separator) + name) == path_names(platform, front).push(
            name,
        ),
{
    let all = separators(platform);
    lemma_separators(platform, separator);
    assert(is_plain(name, all)) by {
        assert forall|i: int| 0 <= i < name.len() implies !all.contains(#[trigger] name[i]) by {
            lemma_separators(platform, name[i]);
        }
    }
    lemma_split_after_separator(front, separator, name, all);
    lemma_split_text_nonempty(front, all);
    let pieces = split_text(front, all);
    pieces.lemma_filter_push(name, counts());
    assert(pieces.push(name)[0] == pieces[0]);
    assert((seq![seq!['.']] + pieces.filter(counts())).push(name) =~= seq![seq!['.']]
        + pieces.filter(counts()).push(name));
}

/// A separator at the end of a path adds no component, and neither does a
/// `.` behind one.
pub proof fn lemma_names_with_nothing(platform: Platform, front: Seq<char>, separator: char)
    requires
        is_separator(platform, separator),
    ensures
        path_names(platform, front.push(separator)) == path_names(platform, front),
        path_names(platform, front.push(separator).push('.')) == path_names(platform, front),
{
    let all = separators(platform);
    lemma_separators(platform, separator);
    lemma_separators(platform, '.');
    lemma_split_text_nonempty(front, all);
    let pieces = split_text(front, all);
    let empty = Seq::<char>::empty();
    let dot = seq!['.'];
    assert(is_plain(empty, all));
    assert(is_plain(dot, all));
    lemma_split_after_separator(front, separator, empty, all);
    lemma_split_after_separator(front, separator, dot, all);
    assert(front.push(separator) + empty =~= front.push(separator));
    assert(front.push(separator) + dot =~= front.push(separator).push('.'));
    pieces.lemma_filter_push(empty, counts());
    pieces.lemma_filter_push(dot, counts());
    assert(pieces.push(empty)[0] == pieces[0]);
    assert(pieces.push(dot)[0] == pieces[0]);
}

/// A file placed in a directory has that directory as its parent, and its
/// name as its file name.
pub proof fn lemma_parent_of_joined(platform: Platform, folder: Seq<char>, name: Seq<char>)
    requires
        is_plain_name(platform, name),
        name != seq!['.', '.'],
    ensures
        file_name(platform, join_path(platform, folder, name)) == Some(name),
        parent_dir(platform, join_path(platform, folder, name)) matches Some(parent)
            && same_place(parent, path_parts(platform, folder)),
{
    let path = join_path(platform, folder, name);
    if folder.len() == 0 {
        lemma_names_of_name(platform, name);
        lemma_split_plain(folder, separators(platform));
        reveal_with_fuel(Seq::filter, 2);
        let pieces = seq![folder];
        assert(pieces.drop_last() =~= Seq::<Seq<char>>::empty());
        assert(pieces.filter(counts()) =~= Seq::<Seq<char>>::empty());
        assert(seq![name].drop_last() =~= Seq::<Seq<char>>::empty());
        assert(folder != seq!['.']);
    } else if is_separator(platform, folder.last()) {
        let front = folder.drop_last();
        assert(front.push(folder.last()) =~= folder);
        lemma_names_with_name(platform, front, folder.last(), name);
        lemma_names_with_nothing(platform, front, folder.last());
        assert(path == front.push(folder.last()) + name);
        assert(path[0] == folder[0]);
        assert(path_names(platform, folder).push(name).drop_last() =~= path_names(
            platform,
            folder,
        ));
    } else {
        lemma_names_with_name(platform, folder, main_separator(platform), name);
        assert(path[0] == folder[0]);
        assert(path_names(platform, folder).push(name).drop_last() =~= path_names(
            platform,
            folder,
        ));
    }
}

/// Two paths with a common directory are the same only if the names are.
pub proof fn lemma_join_path_injective(
    platform: Platform,
    base: Seq<char>,
    a: Seq<char>,
    b: Seq<char>,
)
    requires
        join_path(platform, base, a) == join_path(platform, base, b),
    ensures
        a == b,
{
    if base.len() == 0 {
    } else if is_separator(platform, base.last()) {
        base.lemma_concat_injective(a, b);
    } else {
        base.push(main_separator(platform)).lemma_concat_injective(a, b);
    }
}

/// Tells whether `c` separates path components on `platform`.
pub fn separates(platform: Platform, c: char) -> (found: bool)
    ensures
        found == is_separator(platform, c),
{
    c == '/' || (platform == Platform::Windows && c == '\\')
}

/// Tells whether a piece of a path is the single character `.`.
fn is_dot(piece: &str) -> (dot: bool)
    ensures
        dot == (piece@ == seq!['.']),
{
    if piece.unicode_len() == 1 && piece.get_char(0) == '.' {
        assert(piece@ =~= seq!['.']);
        true
    } else {
        assert(piece@ != seq!['.']) by {
            if piece@ == seq!['.'] {
                assert(piece@.len() == 1);
                assert(piece@[0] == '.');
            }
        }
        false
    }
}

/// Tells whether a piece of a path is `..`.
fn is_dot_dot(piece: &str) -> (dots: bool)
    ensures
        dots == (piece@ == seq!['.', '.']),
{
    if piece.unicode_len() == 2 && piece.get_char(0) == '.' && piece.get_char(1) == '.' {
        assert(piece@ =~= seq!['.', '.']);
        true
    } else {
        assert(piece@ != seq!['.', '.']) by {
            if piece@ == seq!['.', '.'] {
                assert(piece@.len() == 2);
                assert(piece@[0] == '.');
                assert(piece@[1] == '.');
            }
        }
        false
    }
}

/// Reads `path` by its components.
pub fn parts_of(platform: Platform, path: &str) -> (parts: PathParts)
    ensures
        parts@ == path_parts(platform, path@),
{
    let pieces = match platform {
        Platform::Unix => split(path, "/"),
        Platform::Windows => split(path, "/\\"),
    };
    let ghost all = views(pieces@);
    let mut names: Vec<String> = Vec::new();
    proof {
        reveal(Seq::filter);
        assert(all.take(0).filter(counts()) =~= Seq::empty());
    }
    if is_dot(pieces[0].as_str()) {
        names.push(pieces[0].clone());
    }
    let ghost lead = views(names@);
    proof {
        assert(all[0] == pieces@[0]@);
        assert(lead =~= if all[0] == seq!['.'] {
            seq![seq!['.']]
        } else {
            Seq::empty()
        });
    }
    let mut i: usize = 0;
    while i < pieces.len()
        invariant
            i <= pieces.len(),
            all == views(pieces@),
            views(names@) == lead + all.take(i as int).filter(counts()),
        decreases pieces.len() - i,
    {
        let piece = &pieces[i];
        let ghost before = views(names@);
        proof {
            assert(all[i as int] == piece@);
            assert(all.take(i + 1) =~= all.take(i as int).push(all[i as int]));
            all.take(i as int).lemma_filter_push(all[i as int], counts());
        }
        if piece.as_str().unicode_len() > 0 && !is_dot(piece.as_str()) {
            names.push(piece.clone());
            assert(views(names@) =~= before.push(piece@));
        }
        i = i + 1;
    }
    proof {
        assert(all.take(i as int) =~= all);
        assert(lead + all.filter(counts()) =~= path_names(platform, path@));
    }
    let rooted = path.unicode_len() > 0 && separates(platform, path.get_char(0));
    PathParts { rooted, names }
}

/// Tells whether two paths, read by their components, lead to the same
/// place.
pub fn is_same_place(a: &PathParts, b: &PathParts) -> (same: bool)
    ensures
        same == same_place(a@, b@),
{
    if a.rooted != b.rooted || a.names.len() != b.names.len() {
        assert(a@.names.len() == a.names@.len());
        assert(b@.names.len() == b.names@.len());
        return false;
    }
    let mut i: usize = 0;
    while i < a.names.len()
        invariant
            i <= a.names.len(),
            a.names@.len() == b.names@.len(),
            forall|j: int| 0 <= j < i ==> (#[trigger] a.names@[j])@ == b.names@[j]@,
        decreases a.names.len() - i,
    {
        if a.names[i] != b.names[i] {
            assert(a@.names[i as int] == a.names@[i as int]@);
            assert(b@.names[i as int] == b.names@[i as int]@);
            return false;
        }
        i = i + 1;
    }
    assert(a@.names =~= b@.names);
    true
}

/// The name of the file that `path` leads to, if it leads to one.
pub fn file_name_of(platform: Platform, path: &str) -> (name: Option<String>)
    ensures
        match name {
            Some(n) => file_name(platform, path@) == Some(n@),
            None => file_name(platform, path@) is None,
        },
{
    let mut parts = parts_of(platform, path);
    let ghost names = views(parts.names@);
    match parts.names.pop() {
        None => None,
        Some(last) => {
            assert(names.last() == last@);
            if is_dot(last.as_str()) || is_dot_dot(last.as_str()) {
                None
            } else {
                Some(last)
            }
        },
    }
}

/// The directory that holds what `path` leads to, if there is one.
pub fn parent_dir_of(platform: Platform, path: &str) -> (parent: Option<PathParts>)
    ensures
        match parent {
            Some(p) => parent_dir(platform, path@) == Some(p@),
            None => parent_dir(platform, path@) is None,
        },
{
    let mut parts = parts_of(platform, path);
    let ghost names = views(parts.names@);
    match parts.names.pop() {
        None => None,
        Some(_) => {
            assert(views(parts.names@) =~= names.drop_last());
            Some(parts)
        },
    }
}

/// Places `name` inside the directory `base`.
pub fn join(platform: Platform, base: &str, name: &str) -> (joined: String)
    ensures
        joined@ == join_path(platform, base@, name@),
{
    let n = base.unicode_len();
    if n == 0 {
        name.to_owned()
    } else if separates(platform, base.get_char(n - 1)) {
        base.to_owned().concat(name)
    } else {
        let separator = match platform {
            Platform::Unix => "/",
            Platform::Windows => "\\",
        };
        proof {
            reveal_strlit("/");
            reveal_strlit("\\");
            assert(separator@ =~= seq![main_separator(platform)]);
        }
        base.to_owned().concat(separator).concat(name)
    }
}

/// Tells whether `path` says by itself where it starts.
pub fn has_root(platform: Platform, path: &str) -> (rooted: bool)
    ensures
        rooted == is_rooted(platform, path@),
{
    let n = path.unicode_len();
    if n >= 1 && separates(platform, path.get_char(0)) {
        return true;
    }
    platform == Platform::Windows && n >= 2 && path.get_char(1) == ':'
}

/// Follows `path` from the directory `base`.
pub fn locate(platform: Platform, base: &str, path: &str) -> (located: String)
    ensures
        located@ == path_from(platform, base@, path@),
{
    if has_root(platform, path) {
        path.to_owned()
    } else {
        join(platform, base, path)
    }
}

} // verus!
