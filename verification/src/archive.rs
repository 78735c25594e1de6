//! Sources of game data: what a source must offer, which of its files matter,
//! and how a file's path names what it defines.

use vstd::prelude::*;
use crate::error::LoadError;
use crate::text::concat3;
use crate::text::contains;
use crate::text::contains_str;
use crate::text::ends_with;
use crate::text::has_suffix;
use crate::text::join_from;
use crate::text::join_with;
use crate::text::split;
use crate::text::split_on;
use crate::text::str_eq;
use crate::text::strip_suffix;
use crate::text::views;
use crate::text::without_suffix;

verus! {

/// The kinds of file that the loaders read from a source.
#[derive(Debug, Clone, Copy, PartialEq, Eq, Structural)]
pub enum FileCategory {
    Advancement,
    Tags,
    Recipe,
    Language,
}

/// Whether a file at `path` belongs to category `c`. An advancement file
/// lives under `/advancement/`, is no recipe advancement and does not sit
/// inside a nested `/datapacks/` directory.
pub open spec fn category_matches(c: FileCategory, path: Seq<char>) -> bool {
    match c {
        FileCategory::Advancement => contains_str(path, "/advancement/"@) && has_suffix(
            path,
            ".json"@,
        ) && !contains_str(path, "/recipes/"@) && !contains_str(path, "/datapacks/"@),
        FileCategory::Tags => contains_str(path, "/tags/"@) && has_suffix(path, ".json"@),
        FileCategory::Recipe => contains_str(path, "/recipe/"@) && has_suffix(path, ".json"@),
        FileCategory::Language => has_suffix(path, "/lang/en_us.json"@),
    }
}

/// Whether a file at `path` belongs to one of the first `n` categories.
pub open spec fn matches_any(categories: Seq<FileCategory>, n: nat, path: Seq<char>) -> bool
    decreases n,
{
    if n == 0 || n > categories.len() {
        false
    } else {
        matches_any(categories, (n - 1) as nat, path) || category_matches(categories[n - 1], path)
    }
}

impl FileCategory {
    /// Whether a file at `path` belongs to this category.
    pub fn matches(&self, path: &str) -> (r: bool)
        ensures
            r == category_matches(*self, path@),
    {
        match self {
            FileCategory::Advancement => {
                contains(path, "/advancement/") && ends_with(path, ".json") && !contains(
                    path,
                    "/recipes/",
                ) && !contains(path, "/datapacks/")
            },
            FileCategory::Tags => contains(path, "/tags/") && ends_with(path, ".json"),
            FileCategory::Recipe => contains(path, "/recipe/") && ends_with(path, ".json"),
            FileCategory::Language => ends_with(path, "/lang/en_us.json"),
        }
    }
}

/// Whether a file at `path` belongs to one of `categories`.
pub fn matches_some(categories: &[FileCategory], path: &str) -> (r: bool)
    ensures
        r == matches_any(categories@, categories@.len(), path@),
{
    let mut i: usize = 0;
    while i < categories.len()
        invariant
            i <= categories@.len(),
            !matches_any(categories@, i as nat, path@),
        decreases categories@.len() - i,
    {
        if categories[i].matches(path) {
            proof {
                lemma_matches_any_from(categories@, i as int, categories@.len(), path@);
            }
            return true;
        }
        i += 1;
    }
    false
}

/// A category that matches stays a match when more categories are asked.
pub proof fn lemma_matches_any_from(categories: Seq<FileCategory>, i: int, n: nat, path: Seq<char>)
    requires
        0 <= i < n <= categories.len(),
        category_matches(categories[i], path),
    ensures
        matches_any(categories, n, path),
    decreases n,
{
    if n - 1 > i {
        lemma_matches_any_from(categories, i, (n - 1) as nat, path);
    }
}

/// A path with `/` for every `\`.
pub open spec fn normalized_path(path: Seq<char>) -> Seq<char> {
    join_with(split_on(path, '\\'), "/"@)
}

/// A path with forward slashes only.
pub fn normalize_path(path: &str) -> (r: String)
    ensures
        r@ == normalized_path(path@),
{
    let parts = split(path, '\\');
    let r = join_from(&parts, 0, "/");
    assert(views(parts@).skip(0) =~= views(parts@));
    r
}

/// The normalized ones of the first `n` paths that belong to one of the
/// categories, in order.
pub open spec fn selected_files(
    paths: Seq<Seq<char>>,
    n: nat,
    categories: Seq<FileCategory>,
) -> Seq<Seq<char>>
    decreases n,
{
    if n == 0 || n > paths.len() {
        Seq::empty()
    } else {
        let head = selected_files(paths, (n - 1) as nat, categories);
        let p = normalized_path(paths[n - 1]);
        if matches_any(categories, categories.len(), p) {
            head.push(p)
        } else {
            head
        }
    }
}

/// Keeps, of the paths a source holds, those that belong to one of the
/// categories, with forward slashes.
pub fn select_files(paths: &Vec<String>, categories: &[FileCategory]) -> (r: Vec<String>)
    ensures
        views(r@) == selected_files(views(paths@), paths@.len(), categories@),
{
    let mut out: Vec<String> = Vec::new();
    let mut i: usize = 0;
    assert(views(out@) =~= Seq::<Seq<char>>::empty());
    while i < paths.len()
        invariant
            i <= paths@.len(),
            views(out@) == selected_files(views(paths@), i as nat, categories@),
        decreases paths@.len() - i,
    {
        let p = normalize_path(paths[i].as_str());
        let ghost head = views(out@);
        if matches_some(categories, p.as_str()) {
            out.push(p);
            assert(views(out@) =~= head.push(p@));
        }
        i += 1;
    }
    out
}

/// The top-level directories of a directory source in which files of the
/// given categories live: `data` for advancements, tags and recipes, `assets`
/// for language files.
pub open spec fn wanted_dirs(categories: Seq<FileCategory>) -> Seq<Seq<char>> {
    let data = exists|i: int|
        0 <= i < categories.len() && #[trigger] categories[i] != FileCategory::Language;
    let assets = exists|i: int|
        0 <= i < categories.len() && #[trigger] categories[i] == FileCategory::Language;
    (if data {
        seq!["data"@]
    } else {
        Seq::empty()
    }) + (if assets {
        seq!["assets"@]
    } else {
        Seq::empty()
    })
}

/// A source of game data.
pub trait Archive {
    /// The paths of the files that belong to one of `categories`.
    fn list_files(&mut self, categories: &[FileCategory]) -> Result<Vec<String>, LoadError>;

    /// The text of the file at `path`.
    fn read_file(&mut self, path: &str) -> Result<String, LoadError>;

    /// The label of the source in logs.
    fn name(&self) -> String;
}

/// A directory tree as a source: where it is rooted and what it is called.
/// Walking the tree is the caller's business; what to walk and what to keep
/// of it is decided here.
#[derive(Debug, Clone, PartialEq)]
pub struct DirArchive {
    pub root: String,
    pub name: String,
}

impl DirArchive {
    pub fn new(root: String, name: String) -> (r: Self)
        ensures
            r.root@ == root@,
            r.name@ == name@,
    {
        DirArchive { root, name }
    }

    /// The top-level directories to walk for `categories`.
    pub fn search_dirs(categories: &[FileCategory]) -> (r: Vec<String>)
        ensures
            views(r@) == wanted_dirs(categories@),
    {
        let mut data = false;
        let mut assets = false;
        let mut i: usize = 0;
        while i < categories.len()
            invariant
                i <= categories@.len(),
                data == exists|k: int|
                    0 <= k < i && #[trigger] categories@[k] != FileCategory::Language,
                assets == exists|k: int|
                    0 <= k < i && #[trigger] categories@[k] == FileCategory::Language,
            decreases categories@.len() - i,
        {
            match categories[i] {
                FileCategory::Language => {
                    assets = true;
                },
                _ => {
                    data = true;
                },
            }
            i += 1;
        }
        let mut out: Vec<String> = Vec::new();
        if data {
            out.push("data".to_owned());
        }
        if assets {
            out.push("assets".to_owned());
        }
        assert(views(out@) =~= wanted_dirs(categories@));
        out
    }

    /// Of the files found under the root, given by their paths relative to
    /// it, those that belong to one of `categories`.
    pub fn select(&self, relative_paths: &Vec<String>, categories: &[FileCategory]) -> (r: Vec<
        String,
    >)
        ensures
            views(r@) == selected_files(views(relative_paths@), relative_paths@.len(), categories@),
    {
        select_files(relative_paths, categories)
    }
}

/// How a source is stored.
#[derive(Debug, Clone, Copy, PartialEq, Eq, Structural)]
pub enum ArchiveKind {
    Directory,
    Zip,
}

/// How the source at a path is opened: a directory as a directory tree, a
/// file ending in `zip` or `jar` as a compressed archive, nothing else at
/// all.
pub open spec fn archive_kind(is_dir: bool, extension: Option<Seq<char>>) -> Option<ArchiveKind> {
    if is_dir {
        Some(ArchiveKind::Directory)
    } else if extension == Some("zip"@) || extension == Some("jar"@) {
        Some(ArchiveKind::Zip)
    } else {
        None
    }
}

/// How the source at a path is opened. `is_dir` says whether the path is a
/// directory, `extension` is the extension of its last component.
pub fn open_archive(is_dir: bool, extension: Option<&str>) -> (r: Result<ArchiveKind, LoadError>)
    ensures
        match r {
            Ok(kind) => archive_kind(is_dir, extension.deep_view()) == Some(kind),
            Err(e) => e == LoadError::Archive && archive_kind(is_dir, extension.deep_view())
                is None,
        },
{
    if is_dir {
        return Ok(ArchiveKind::Directory);
    }
    match extension {
        Some(ext) => {
            if str_eq(ext, "zip") || str_eq(ext, "jar") {
                Ok(ArchiveKind::Zip)
            } else {
                Err(LoadError::Archive)
            }
        },
        None => Err(LoadError::Archive),
    }
}

/// The identifier of the advancement that the file at `path` defines:
/// `data/{ns}/advancement/{rest}.json` defines `{ns}:{rest}`, or just `{rest}`
/// in the default namespace; any other path names itself, less `.json`.
pub open spec fn advancement_id(path: Seq<char>) -> Seq<char> {
    let parts = split_on(path, '/');
    if parts.len() >= 4 && parts[0] == "data"@ && parts[2] == "advancement"@ {
        let rest = without_suffix(join_with(parts.skip(3), "/"@), ".json"@);
        if parts[1] == "minecraft"@ {
            rest
        } else {
            parts[1] + ":"@ + rest
        }
    } else {
        without_suffix(path, ".json"@)
    }
}

/// A path's trailing `.json` removed, or `fallback` where it has none.
pub fn strip_json_or(s: &str, fallback: &str) -> (r: String)
    ensures
        r@ == (if has_suffix(s@, ".json"@) {
            without_suffix(s@, ".json"@)
        } else {
            fallback@
        }),
{
    match strip_suffix(s, ".json") {
        Some(t) => t.to_owned(),
        None => fallback.to_owned(),
    }
}

/// The identifier of the advancement that the file at `file_path` defines.
pub fn extract_advancement_id(file_path: &str) -> (r: String)
    ensures
        r@ == advancement_id(file_path@),
{
    let parts = split(file_path, '/');
    assert(forall|i: int| 0 <= i < parts@.len() ==> views(parts@)[i] == parts@[i]@);
    if parts.len() >= 4 && str_eq(parts[0].as_str(), "data") && str_eq(
        parts[2].as_str(),
        "advancement",
    ) {
        let joined = join_from(&parts, 3, "/");
        let rest = strip_json_or(joined.as_str(), joined.as_str());
        if str_eq(parts[1].as_str(), "minecraft") {
            rest
        } else {
            concat3(parts[1].as_str(), ":", rest.as_str())
        }
    } else {
        strip_json_or(file_path, file_path)
    }
}

} // verus!
