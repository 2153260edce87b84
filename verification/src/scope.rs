//! Search scopes, index backends, and the drive and folder rules that turn a
//! scope into roots.

use vstd::prelude::*;
use vstd::string::*;
use crate::text::{
    char_is_ascii_alpha, chars_are, chars_start_with, is_ascii_alpha, is_space, lemma_lower_identity,
    lemma_trim_identity, lower, lower_char, lower_chars, push_char, slice_chars, starts_with,
    string_of, to_chars, to_lower_char, to_upper_char, trim, trim_chars, upper_char,
};

verus! {

/// Where to search.
#[derive(Debug, Clone, Copy, PartialEq, Eq, Structural)]
pub enum SearchScope {
    CurrentFolder,
    EntireCurrentDrive,
    AllLocalDrives,
    Drive(char),
}

impl SearchScope {
    /// A drive scope names its drive by an upper-case ASCII letter.
    pub open spec fn is_valid(&self) -> bool {
        match self {
            SearchScope::Drive(letter) => 'A' <= *letter && *letter <= 'Z',
            _ => true,
        }
    }

    /// The label of a scope: a fixed word, or the drive letter in upper case
    /// and a colon.
    pub open spec fn label_text(&self) -> Seq<char> {
        match self {
            SearchScope::CurrentFolder => "current-folder"@,
            SearchScope::EntireCurrentDrive => "entire-current-drive"@,
            SearchScope::AllLocalDrives => "all-local-drives"@,
            SearchScope::Drive(letter) => seq![upper_char(*letter), ':'],
        }
    }

    pub fn label(&self) -> (r: String)
        ensures
            r@ == self.label_text(),
    {
        match self {
            SearchScope::CurrentFolder => String::from_str("current-folder"),
            SearchScope::EntireCurrentDrive => String::from_str("entire-current-drive"),
            SearchScope::AllLocalDrives => String::from_str("all-local-drives"),
            SearchScope::Drive(letter) => {
                let mut s = String::new();
                push_char(&mut s, to_upper_char(*letter));
                push_char(&mut s, ':');
                assert(s@ =~= seq![upper_char(*letter), ':']);
                s
            },
        }
    }
}

/// The scope that a label names, if any. The label is trimmed and its case
/// is ignored; a drive is a letter and a colon.
pub open spec fn scope_of_label(value: Seq<char>) -> Option<SearchScope> {
    let v = lower(trim(value));
    if v == "current-folder"@ {
        Some(SearchScope::CurrentFolder)
    } else if v == "entire-current-drive"@ {
        Some(SearchScope::EntireCurrentDrive)
    } else if v == "all-local-drives"@ {
        Some(SearchScope::AllLocalDrives)
    } else if v.len() == 2 && v[1] == ':' && is_ascii_alpha(v[0]) {
        Some(SearchScope::Drive(upper_char(v[0])))
    } else {
        None
    }
}

/// The label of a valid scope names that scope again.
pub proof fn lemma_label_round_trip(scope: SearchScope)
    requires
        scope.is_valid(),
    ensures
        scope_of_label(scope.label_text()) == Some(scope),
{
    reveal_strlit("current-folder");
    reveal_strlit("entire-current-drive");
    reveal_strlit("all-local-drives");
    let l = scope.label_text();
    assert(l.len() > 0 && !is_space(l[0]) && !is_space(l.last()));
    lemma_trim_identity(l);
    match scope {
        SearchScope::Drive(letter) => {
            assert(lower(l) =~= seq![lower_char(letter), ':']);
        },
        _ => {
            assert forall|i: int| 0 <= i < l.len() implies !('A' <= #[trigger] l[i] && l[i]
                <= 'Z') by {}
            lemma_lower_identity(l);
        },
    }
}

pub fn scope_from_chars(value: &Vec<char>) -> (r: Option<SearchScope>)
    ensures
        r == scope_of_label(value@),
        r is Some ==> r->0.is_valid(),
{
    let t = trim_chars(value);
    let v = lower_chars(&t);
    if chars_are(&v, "current-folder") {
        Some(SearchScope::CurrentFolder)
    } else if chars_are(&v, "entire-current-drive") {
        Some(SearchScope::EntireCurrentDrive)
    } else if chars_are(&v, "all-local-drives") {
        Some(SearchScope::AllLocalDrives)
    } else if v.len() == 2 && v[1] == ':' && char_is_ascii_alpha(v[0]) {
        Some(SearchScope::Drive(to_upper_char(v[0])))
    } else {
        None
    }
}

/// The scope that a label names, if any.
pub fn scope_from_label(value: &str) -> (r: Option<SearchScope>)
    ensures
        r == scope_of_label(value@),
        r is Some ==> r->0.is_valid(),
{
    let v = to_chars(value);
    scope_from_chars(&v)
}

/// The scope that a stored label stands for: the scope it names, and the
/// current folder where it names none.
pub fn persisted_scope(content: &str) -> (r: SearchScope)
    ensures
        r == match scope_of_label(content@) {
            Some(s) => s,
            None => SearchScope::CurrentFolder,
        },
        r.is_valid(),
{
    match scope_from_label(content) {
        Some(s) => s,
        None => SearchScope::CurrentFolder,
    }
}

/// The scope that one command-line argument asks for: the label behind
/// `--scope=`.
pub open spec fn scope_of_arg(arg: Seq<char>) -> Option<SearchScope> {
    if starts_with(arg, "--scope="@) {
        scope_of_label(arg.skip("--scope="@.len() as int))
    } else {
        None
    }
}

/// The scope of the first argument that asks for one.
pub open spec fn first_scope(args: Seq<Seq<char>>, from: int) -> Option<SearchScope>
    decreases args.len() - from,
{
    if from < 0 || from >= args.len() {
        None
    } else if scope_of_arg(args[from]) is Some {
        scope_of_arg(args[from])
    } else {
        first_scope(args, from + 1)
    }
}

/// The views of a list of strings.
pub open spec fn string_views(v: Seq<String>) -> Seq<Seq<char>> {
    Seq::new(v.len(), |i: int| v[i]@)
}

pub fn scope_from_arg(arg: &str) -> (r: Option<SearchScope>)
    ensures
        r == scope_of_arg(arg@),
        r is Some ==> r->0.is_valid(),
{
    let a = to_chars(arg);
    let p = to_chars("--scope=");
    if chars_start_with(&a, &p) {
        let rest = slice_chars(&a, p.len(), a.len());
        scope_from_chars(&rest)
    } else {
        None
    }
}

/// The scope that the command line asks for: that of the first argument
/// `--scope=<label>` whose label names a scope.
pub fn startup_scope_override_from_args(args: &Vec<String>) -> (r: Option<SearchScope>)
    ensures
        r == first_scope(string_views(args@), 0),
        r is Some ==> r->0.is_valid(),
{
    let mut i: usize = 0;
    while i < args.len()
        invariant
            i <= args.len(),
            first_scope(string_views(args@), 0) == first_scope(string_views(args@), i as int),
        decreases args.len() - i,
    {
        let r = scope_from_arg(args[i].as_str());
        if r.is_some() {
            return r;
        }
        i += 1;
    }
    None
}

/// Whether some argument is exactly `word`.
pub open spec fn has_arg(args: Seq<Seq<char>>, word: Seq<char>) -> bool {
    exists|i: int| 0 <= i < args.len() && #[trigger] args[i] == word
}

pub fn args_contain(args: &Vec<String>, word: &str) -> (r: bool)
    ensures
        r == has_arg(string_views(args@), word@),
{
    let w = to_chars(word);
    let mut i: usize = 0;
    while i < args.len()
        invariant
            i <= args.len(),
            w@ == word@,
            forall|k: int| 0 <= k < i ==> (#[trigger] string_views(args@)[k]) != word@,
        decreases args.len() - i,
    {
        let a = to_chars(args[i].as_str());
        if chars_are(&a, word) {
            assert(string_views(args@)[i as int] == word@);
            return true;
        }
        i += 1;
    }
    false
}

/// Whether the panel starts visible: `--show` forces it, `--hide` and
/// `--hidden` hide it, and without any of them it is visible.
pub fn should_start_visible_from_args(args: &Vec<String>) -> (r: bool)
    ensures
        r == (has_arg(string_views(args@), "--show"@) || !(has_arg(
            string_views(args@),
            "--hide"@,
        ) || has_arg(string_views(args@), "--hidden"@))),
{
    if args_contain(args, "--show") {
        return true;
    }
    !(args_contain(args, "--hide") || args_contain(args, "--hidden"))
}

/// The scope that the application starts with: the one the command line
/// asks for; without one, the stored scope where the process is elevated
/// and the current folder where it is not.
pub fn startup_scope(
    arg_override: Option<SearchScope>,
    is_elevated: bool,
    persisted: SearchScope,
) -> (r: SearchScope)
    ensures
        r == match arg_override {
            Some(s) => s,
            None => if is_elevated {
                persisted
            } else {
                SearchScope::CurrentFolder
            },
        },
{
    match arg_override {
        Some(s) => s,
        None => if is_elevated {
            persisted
        } else {
            SearchScope::CurrentFolder
        },
    }
}

/// How the index in use was made.
#[derive(Debug, Clone, Copy, PartialEq, Eq, Structural)]
pub enum IndexBackend {
    Detecting,
    WalkDir,
    NtfsMft,
    NtfsUsnLive,
    Mixed,
}

impl IndexBackend {
    pub open spec fn label_text(self) -> Seq<char> {
        match self {
            IndexBackend::Detecting => "detecting"@,
            IndexBackend::WalkDir => "dirwalk"@,
            IndexBackend::NtfsMft => "ntfs-mft"@,
            IndexBackend::NtfsUsnLive => "ntfs-usn-live"@,
            IndexBackend::Mixed => "mixed"@,
        }
    }

    pub fn label(self) -> (r: &'static str)
        ensures
            r@ == self.label_text(),
    {
        match self {
            IndexBackend::Detecting => "detecting",
            IndexBackend::WalkDir => "dirwalk",
            IndexBackend::NtfsMft => "ntfs-mft",
            IndexBackend::NtfsUsnLive => "ntfs-usn-live",
            IndexBackend::Mixed => "mixed",
        }
    }

    /// Whether the index follows the volume's changes as they happen.
    pub fn live_updates(self) -> (r: bool)
        ensures
            r == (self == IndexBackend::NtfsUsnLive),
    {
        match self {
            IndexBackend::NtfsUsnLive => true,
            _ => false,
        }
    }

    /// The backend of a one-shot enumeration, by which of the two ways
    /// contributed items.
    pub fn of_enumeration(used_ntfs: bool, used_walkdir: bool) -> (r: IndexBackend)
        ensures
            r == if used_ntfs && used_walkdir {
                IndexBackend::Mixed
            } else if used_ntfs {
                IndexBackend::NtfsMft
            } else if used_walkdir {
                IndexBackend::WalkDir
            } else {
                IndexBackend::Detecting
            },
    {
        if used_ntfs && used_walkdir {
            IndexBackend::Mixed
        } else if used_ntfs {
            IndexBackend::NtfsMft
        } else if used_walkdir {
            IndexBackend::WalkDir
        } else {
            IndexBackend::Detecting
        }
    }
}

/// What the progress line says in each phase of indexing.
pub open spec fn phase_label_text(phase: Seq<char>) -> Seq<char> {
    if phase == "snapshot"@ {
        "reading snapshot"@
    } else if phase == "index"@ {
        "reading index"@
    } else if phase == "write"@ {
        "finalizing index"@
    } else if phase == "live"@ {
        "live updates"@
    } else if phase == "done"@ {
        "ready"@
    } else {
        "indexing"@
    }
}

pub fn index_phase_label(phase: &str) -> (r: &'static str)
    ensures
        r@ == phase_label_text(phase@),
{
    let p = to_chars(phase);
    if chars_are(&p, "snapshot") {
        "reading snapshot"
    } else if chars_are(&p, "index") {
        "reading index"
    } else if chars_are(&p, "write") {
        "finalizing index"
    } else if chars_are(&p, "live") {
        "live updates"
    } else if chars_are(&p, "done") {
        "ready"
    } else {
        "indexing"
    }
}

/// The drive letter that a root begins with: an ASCII letter followed by a
/// colon, in upper case.
pub open spec fn root_drive_letter(root: Seq<char>) -> Option<char> {
    if root.len() >= 2 && root[1] == ':' && is_ascii_alpha(root[0]) {
        Some(upper_char(root[0]))
    } else {
        None
    }
}

pub fn drive_letter_from_root_str(root: &str) -> (r: Option<char>)
    ensures
        r == root_drive_letter(root@),
{
    let v = to_chars(root);
    if v.len() >= 2 && v[1] == ':' && char_is_ascii_alpha(v[0]) {
        Some(to_upper_char(v[0]))
    } else {
        None
    }
}

/// The first character of a path in upper case, where it is an ASCII
/// character followed by a colon.
pub open spec fn path_drive_letter(path: Seq<char>) -> Option<char> {
    if path.len() >= 2 && path[1] == ':' && (path[0] as u32) < 128 {
        Some(upper_char(path[0]))
    } else {
        None
    }
}

pub fn drive_letter_from_path(path: &str) -> (r: Option<char>)
    ensures
        r == path_drive_letter(path@),
{
    let v = to_chars(path);
    if v.len() >= 2 && v[1] == ':' && (v[0] as u32) < 128 {
        Some(to_upper_char(v[0]))
    } else {
        None
    }
}

/// The drive letter of a drive root: a trimmed text of a letter, a colon and
/// a separator.
pub open spec fn drive_root_letter(root: Seq<char>) -> Option<char> {
    let t = trim(root);
    if t.len() == 3 && t[1] == ':' && (t[2] == '\\' || t[2] == '/') && is_ascii_alpha(t[0]) {
        Some(upper_char(t[0]))
    } else {
        None
    }
}

pub fn parse_drive_root_letter(root: &str) -> (r: Option<char>)
    ensures
        r == drive_root_letter(root@),
{
    let v = to_chars(root);
    let t = trim_chars(&v);
    if t.len() == 3 && t[1] == ':' && (t[2] == '\\' || t[2] == '/') && char_is_ascii_alpha(t[0]) {
        Some(to_upper_char(t[0]))
    } else {
        None
    }
}

/// The root of a drive: its letter in upper case, a colon and a backslash.
pub open spec fn drive_root_text(letter: char) -> Seq<char> {
    seq![upper_char(letter), ':', '\\']
}

pub fn drive_root(letter: char) -> (r: String)
    ensures
        r@ == drive_root_text(letter),
{
    let mut s = String::new();
    push_char(&mut s, to_upper_char(letter));
    push_char(&mut s, ':');
    push_char(&mut s, '\\');
    assert(s@ =~= drive_root_text(letter));
    s
}

/// A path with `/` written as `\` and ASCII letters in lower case.
pub open spec fn normalized_path(path: Seq<char>) -> Seq<char> {
    Seq::new(
        path.len(),
        |i: int|
            if path[i] == '/' {
                '\\'
            } else {
                lower_char(path[i])
            },
    )
}

/// The prefix by which the files below a folder are recognised: the
/// normalised folder, ending in a backslash.
pub open spec fn folder_prefix(path: Seq<char>) -> Seq<char> {
    let n = normalized_path(path);
    if n.len() > 0 && n.last() == '\\' {
        n
    } else {
        n.push('\\')
    }
}

pub fn normalize_chars(path: &Vec<char>) -> (r: Vec<char>)
    ensures
        r@ == normalized_path(path@),
{
    let mut r: Vec<char> = Vec::new();
    let mut i: usize = 0;
    while i < path.len()
        invariant
            i <= path.len(),
            r@ == normalized_path(path@).take(i as int),
        decreases path.len() - i,
    {
        let c = path[i];
        if c == '/' {
            r.push('\\');
        } else {
            r.push(to_lower_char(c));
        }
        i += 1;
        assert(r@ =~= normalized_path(path@).take(i as int));
    }
    assert(r@ =~= normalized_path(path@));
    r
}

pub fn normalized_folder_prefix(path: &str) -> (r: String)
    ensures
        r@ == folder_prefix(path@),
{
    let v = to_chars(path);
    let mut n = normalize_chars(&v);
    if !(n.len() > 0 && n[n.len() - 1] == '\\') {
        n.push('\\');
    }
    string_of(&n)
}

/// Whether a path lies below the folder with the given prefix.
pub fn path_starts_with_folder(path: &str, folder_prefix: &str) -> (r: bool)
    ensures
        r == starts_with(normalized_path(path@), folder_prefix@),
{
    let v = to_chars(path);
    let n = normalize_chars(&v);
    let p = to_chars(folder_prefix);
    chars_start_with(&n, &p)
}

/// The drive roots to search when all local drives are asked for: those
/// that exist, and `C:\` where none was found.
pub fn drive_roots_or_default(existing: Vec<String>) -> (r: Vec<String>)
    ensures
        existing@.len() > 0 ==> r == existing,
        existing@.len() == 0 ==> string_views(r@) == seq![drive_root_text('C')],
{
    if existing.len() > 0 {
        existing
    } else {
        let mut r: Vec<String> = Vec::new();
        r.push(drive_root('C'));
        assert(string_views(r@) =~= seq![drive_root_text('C')]);
        r
    }
}

/// The roots of a scope, given the working directory and the drive roots
/// that exist.
pub open spec fn scope_root_texts(
    scope: SearchScope,
    cwd: Seq<char>,
    existing: Seq<Seq<char>>,
) -> Seq<Seq<char>> {
    match scope {
        SearchScope::CurrentFolder => seq![cwd],
        SearchScope::EntireCurrentDrive => seq![
            drive_root_text(
                match path_drive_letter(cwd) {
                    Some(l) => l,
                    None => 'C',
                },
            ),
        ],
        SearchScope::AllLocalDrives => if existing.len() > 0 {
            existing
        } else {
            seq![drive_root_text('C')]
        },
        SearchScope::Drive(letter) => seq![drive_root_text(letter)],
    }
}

pub fn scope_roots(scope: &SearchScope, cwd: &str, existing: Vec<String>) -> (r: Vec<String>)
    ensures
        string_views(r@) == scope_root_texts(*scope, cwd@, string_views(existing@)),
{
    match scope {
        SearchScope::CurrentFolder => {
            let mut r: Vec<String> = Vec::new();
            r.push(String::from_str(cwd));
            assert(string_views(r@) =~= seq![cwd@]);
            r
        },
        SearchScope::EntireCurrentDrive => {
            let letter = match drive_letter_from_path(cwd) {
                Some(l) => l,
                None => 'C',
            };
            let mut r: Vec<String> = Vec::new();
            r.push(drive_root(letter));
            assert(string_views(r@) =~= seq![drive_root_text(letter)]);
            r
        },
        SearchScope::AllLocalDrives => drive_roots_or_default(existing),
        SearchScope::Drive(letter) => {
            let mut r: Vec<String> = Vec::new();
            r.push(drive_root(*letter));
            assert(string_views(r@) =~= seq![drive_root_text(*letter)]);
            r
        },
    }
}

} // verus!
