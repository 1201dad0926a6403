//! Project files: sidecar and home-relative paths, the next id of a loaded
//! tree, and what a load gives when the file is missing or unreadable.
use vstd::prelude::*;
use std::collections::HashSet;
use crate::model::{Task, TaskView, forest_view};
use crate::sort::SortMode;
use crate::text::{concat3, push_str, starts_with, starts_with_spec, str_len, substring, trim, trim_str};
use crate::tree_walk::{forest_max_id, max_id_in_forest};

verus! {

/// The `format` field of a portable project file.
pub const TDL_FORMAT: &'static str = "rust_tui/tdl";

/// The newest project file version this program reads and writes.
pub const TDL_VERSION: u32 = 1;

/// What a load does when the project file does not exist.
#[derive(Clone, Copy, PartialEq, Eq, Debug, Structural)]
pub enum MissingFilePolicy {
    /// Built-in sample tree (default data directory on first run).
    SampleData,
    /// Blank project (portable `.tdl` path that does not exist yet).
    EmptyProject,
}

/// A parsed project, whatever the file's version.
pub struct LoadedProject {
    pub tasks: Vec<Task>,
    pub next_id: u64,
    pub expanded: Vec<u64>,
    pub sort_mode: SortMode,
}

/// The final component of the path `p` as `Path::file_name` gives it, as text.
pub uninterp spec fn file_name_of(p: Seq<char>) -> Option<Seq<char>>;

/// Calls `Path::file_name` (and `OsStr::to_str`); the contract names the result.
#[verifier::external_body]
fn path_file_name(p: &str) -> (r: Option<String>)
    ensures
        match r {
            Some(s) => file_name_of(p@) == Some(s@),
            None => file_name_of(p@) is None,
        },
{
    std::path::Path::new(p).file_name().and_then(|n| n.to_str()).map(|n| n.to_owned())
}

/// The path `p` with its final component replaced by `name` (`Path::with_file_name`).
pub uninterp spec fn with_file_name_of(p: Seq<char>, name: Seq<char>) -> Seq<char>;

/// Calls `Path::with_file_name`; the contract names the result.
#[verifier::external_body]
fn path_with_file_name(p: &str, name: &str) -> (r: String)
    ensures
        r@ == with_file_name_of(p@, name@),
{
    std::path::Path::new(p).with_file_name(name).to_string_lossy().into_owned()
}

/// The path `base` joined with `rest` (`Path::join`).
pub uninterp spec fn joined_path(base: Seq<char>, rest: Seq<char>) -> Seq<char>;

/// Calls `Path::join`; the contract names the result.
#[verifier::external_body]
fn path_join(base: &str, rest: &str) -> (r: String)
    ensures
        r@ == joined_path(base@, rest@),
{
    std::path::Path::new(base).join(rest).to_string_lossy().into_owned()
}

/// Calls `dirs::home_dir`. The answer comes from the environment, so nothing
/// is stated of it.
#[verifier::external_body]
fn home_dir() -> (r: Option<String>) {
    dirs::home_dir().map(|p| p.to_string_lossy().into_owned())
}

/// The sidecar of `path` with the extension `suffix`: the file name with
/// `.suffix` appended, next to it (`dir/name.tdl.suffix`; the name is
/// `project.tdl` when the path has none).
pub open spec fn sidecar_spec(path: Seq<char>, suffix: Seq<char>) -> Seq<char> {
    let name = match file_name_of(path) {
        Some(n) => n,
        None => "project.tdl"@,
    };
    with_file_name_of(path, name + "."@ + suffix)
}

/// The sidecar file of `path` with the extension `suffix` (see `sidecar_spec`).
pub fn sidecar_path(path: &str, suffix: &str) -> (r: String)
    ensures
        r@ == sidecar_spec(path@, suffix@),
{
    let name = match path_file_name(path) {
        Some(n) => n,
        None => "project.tdl".to_owned(),
    };
    let file = concat3(name.as_str(), ".", suffix);
    path_with_file_name(path, file.as_str())
}

/// `path` trimmed, with a leading `~` (alone or followed by `/`) standing for
/// the home directory `home` when there is one.
pub open spec fn expanded_path(path: Seq<char>, home: Option<Seq<char>>) -> Seq<char> {
    let t = trim(path);
    if t == "~"@ {
        match home {
            Some(h) => h,
            None => t,
        }
    } else if starts_with_spec(t, "~/"@) && home is Some {
        joined_path(home->0, t.skip(2))
    } else {
        t
    }
}

/// The project's name as the header shows it: the file name of `path`
/// (`project.tdl` when it has none) cut to 20 characters.
pub fn project_name(path: &str) -> (r: String)
    ensures
        r@ == crate::ui_text::truncated(
            match file_name_of(path@) {
                Some(n) => n,
                None => "project.tdl"@,
            },
            20,
        ),
{
    let name = match path_file_name(path) {
        Some(n) => n,
        None => "project.tdl".to_owned(),
    };
    crate::ui_text::truncate_chars(name.as_str(), 20)
}

/// `path` with a leading `~` expanded against the home directory `home`.
pub fn expand_with_home(path: &str, home: Option<String>) -> (r: String)
    ensures
        r@ == expanded_path(path@, match home {
            Some(h) => Some(h@),
            None => None,
        }),
{
    let t = trim_str(path);
    proof {
        reveal_strlit("~");
        reveal_strlit("~/");
    }
    if crate::date::str_eq(t.as_str(), "~") {
        return match home {
            Some(h) => h,
            None => t,
        };
    }
    if starts_with(t.as_str(), "~/") {
        match home {
            Some(h) => {
                let n = crate::text::char_count(t.as_str());
                let rest = substring(t.as_str(), 2, n);
                return path_join(h.as_str(), rest.as_str());
            },
            None => {},
        }
    }
    t
}

/// `path` with a leading `~` expanded against the user's home directory.
pub fn expand_user_path(path: &str) -> (r: String)
    ensures
        exists|h: Option<Seq<char>>| r@ == expanded_path(path@, h),
{
    let home = home_dir();
    expand_with_home(path, home)
}

/// The id after the largest in `s` (saturating), or `explicit` when that is
/// at least as large.
pub open spec fn next_id_spec(s: Seq<TaskView>, explicit: Option<u64>) -> u64 {
    let m = forest_max_id(s);
    let derived = if m == u64::MAX {
        u64::MAX
    } else {
        (m + 1) as u64
    };
    match explicit {
        Some(id) => if id >= derived {
            id
        } else {
            derived
        },
        None => derived,
    }
}

/// The next free id for a loaded tree (see `next_id_spec`).
pub fn next_id_from_tasks(tasks: &Vec<Task>, explicit: Option<u64>) -> (r: u64)
    ensures
        r == next_id_spec(forest_view(tasks@), explicit),
{
    let derived = max_id_in_forest(tasks).saturating_add(1);
    match explicit {
        Some(id) => if id >= derived {
            id
        } else {
            derived
        },
        None => derived,
    }
}

/// The project a portable file of version `version` holds: none when the
/// version is newer than this program's; the next id as `next_id_spec` says,
/// the sort mode `Manual` when the file names none.
pub fn project_from_tdl(
    version: u32,
    tasks: Vec<Task>,
    expanded: Vec<u64>,
    next_id: Option<u64>,
    sort_mode: Option<SortMode>,
) -> (r: Option<LoadedProject>)
    ensures
        r is Some <==> version <= TDL_VERSION,
        r matches Some(p) ==> {
            &&& p.tasks@ == tasks@
            &&& p.next_id == next_id_spec(forest_view(tasks@), next_id)
            &&& p.expanded@ == expanded@
            &&& p.sort_mode == (match sort_mode {
                Some(m) => m,
                None => SortMode::Manual,
            })
        },
{
    if version > TDL_VERSION {
        return None;
    }
    let n = next_id_from_tasks(&tasks, next_id);
    Some(
        LoadedProject {
            tasks,
            next_id: n,
            expanded,
            sort_mode: match sort_mode {
                Some(m) => m,
                None => SortMode::Manual,
            },
        },
    )
}

/// The project a flat legacy save holds: the next id derived from the tree,
/// manual order.
pub fn project_from_legacy(tasks: Vec<Task>, expanded: Vec<u64>) -> (r: LoadedProject)
    ensures
        r.tasks@ == tasks@,
        r.next_id == next_id_spec(forest_view(tasks@), None),
        r.expanded@ == expanded@,
        r.sort_mode == SortMode::Manual,
{
    let n = next_id_from_tasks(&tasks, None);
    LoadedProject { tasks, next_id: n, expanded, sort_mode: SortMode::Manual }
}

/// The ids of `v` as a set.
pub fn id_set(v: &Vec<u64>) -> (r: HashSet<u64>)
    ensures
        r@ == v@.to_set(),
{
    let mut r: HashSet<u64> = HashSet::new();
    let mut i: usize = 0;
    while i < v.len()
        invariant
            i <= v@.len(),
            r@ == v@.take(i as int).to_set(),
        decreases v@.len() - i,
    {
        r.insert(v[i]);
        proof {
            v@.take(i as int).lemma_push_to_set_commute(v@[i as int]);
            assert(v@.take(i + 1) =~= v@.take(i as int).push(v@[i as int]));
        }
        i += 1;
    }
    assert(v@.take(i as int) =~= v@);
    r
}

} // verus!
