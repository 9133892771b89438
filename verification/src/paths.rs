//! Where projects, their configs and their notes live: `~/.ntx/projects/<project>/`.
//! Paths are held as strings and joined the way `Path::join` does on Unix.
use vstd::prelude::*;

use crate::sorting::{keyed, stable_sort, stable_sorted};
use crate::text::{chars_of, string_of, string_views, views};

verus! {

broadcast use vstd::string::group_string_axioms;

/// `base` joined with `rest` as `Path::join` does on Unix: an absolute `rest`
/// replaces `base`; otherwise a `/` is put between them unless `base` is
/// empty or already ends with one.
pub open spec fn spec_path_join(base: Seq<char>, rest: Seq<char>) -> Seq<char> {
    if rest.len() > 0 && rest[0] == '/' {
        rest
    } else if base.len() == 0 || base.last() == '/' {
        base + rest
    } else {
        base + seq!['/'] + rest
    }
}

/// The directory that holds everything, given the home directory, if any.
pub open spec fn spec_base_dir(home: Option<Seq<char>>) -> Seq<char> {
    let h = match home {
        Some(h) => h,
        None => seq!['/'],
    };
    spec_path_join(h, seq!['.', 'n', 't', 'x'])
}

/// The directory of all projects.
pub open spec fn spec_projects_dir(home: Option<Seq<char>>) -> Seq<char> {
    spec_path_join(spec_base_dir(home), seq!['p', 'r', 'o', 'j', 'e', 'c', 't', 's'])
}

/// The directory of one project.
pub open spec fn spec_project_dir(home: Option<Seq<char>>, project: Seq<char>) -> Seq<char> {
    spec_path_join(spec_projects_dir(home), project)
}

/// The config directory of one project.
pub open spec fn spec_conf_dir(home: Option<Seq<char>>, project: Seq<char>) -> Seq<char> {
    spec_path_join(spec_project_dir(home, project), seq!['c', 'o', 'n', 'f', 'i', 'g'])
}

/// The notes directory of one project.
pub open spec fn spec_notes_dir(home: Option<Seq<char>>, project: Seq<char>) -> Seq<char> {
    spec_path_join(spec_project_dir(home, project), seq!['n', 'o', 't', 'e', 's'])
}

/// The user's home directory as `dirs::home_dir` finds it (on Unix `$HOME`,
/// else the password database), as a string. It depends on the environment:
/// nothing is stated of it. The library's paths are strings, so a home path
/// that is not valid UTF-8 is taken with U+FFFD in place of its invalid bytes
/// (`to_string_lossy`).
#[verifier::external_body]
pub(crate) fn home_dir() -> (r: Option<String>) {
    match dirs::home_dir() {
        Some(h) => Some(h.to_string_lossy().into_owned()),
        None => None,
    }
}

/// `base` joined with `rest` (`Path::join` on Unix).
pub fn path_join(base: &str, rest: &str) -> (r: String)
    ensures
        r@ == spec_path_join(base@, rest@),
{
    let b = chars_of(base);
    let t = chars_of(rest);
    let mut out = if t.len() > 0 && t[0] == '/' {
        Vec::new()
    } else {
        b.clone()
    };
    if !(t.len() > 0 && t[0] == '/') && b.len() > 0 && b[b.len() - 1] != '/' {
        out.push('/');
    }
    let mut i: usize = 0;
    let ghost start = out@;
    while i < t.len()
        invariant
            i <= t.len(),
            out@ == start + t@.take(i as int),
        decreases t.len() - i,
    {
        out.push(t[i]);
        assert(t@.take(i + 1) =~= t@.take(i as int).push(t@[i as int]));
        i += 1;
    }
    assert(t@.take(t.len() as int) =~= t@);
    assert(out@ =~= spec_path_join(base@, rest@));
    string_of(&out)
}

/// The directory that holds everything, given the home directory.
pub fn base_dir_from(home: Option<String>) -> (r: String)
    ensures
        r@ == spec_base_dir(opt_seq(home)),
{
    let h = match home {
        Some(h) => h,
        None => String::from_str("/"),
    };
    proof {
        reveal_strlit("/");
        reveal_strlit(".ntx");
    }
    path_join(h.as_str(), ".ntx")
}

/// The view of an optional string.
pub open spec fn opt_seq(o: Option<String>) -> Option<Seq<char>> {
    match o {
        Some(s) => Some(s@),
        None => None,
    }
}

/// `~/.ntx`, or `/.ntx` where there is no home directory.
pub fn base_dir() -> (r: String)
    ensures
        exists|home: Option<Seq<char>>| r@ == spec_base_dir(home),
{
    let home = home_dir();
    base_dir_from(home)
}

/// The projects directory, given the home directory.
pub fn projects_dir_from(home: Option<String>) -> (r: String)
    ensures
        r@ == spec_projects_dir(opt_seq(home)),
{
    let base = base_dir_from(home);
    proof {
        reveal_strlit("projects");
    }
    let r = path_join(base.as_str(), "projects");
    assert("projects"@ =~= seq!['p', 'r', 'o', 'j', 'e', 'c', 't', 's']);
    r
}

/// `~/.ntx/projects`.
pub fn projects_dir() -> (r: String)
    ensures
        exists|home: Option<Seq<char>>| r@ == spec_projects_dir(home),
{
    let home = home_dir();
    projects_dir_from(home)
}

/// `~/.ntx/projects/<project>`.
pub fn project_dir(project: &str) -> (r: String)
    ensures
        exists|home: Option<Seq<char>>| r@ == spec_project_dir(home, project@),
{
    let dir = projects_dir();
    let r = path_join(dir.as_str(), project);
    let ghost h = choose|h: Option<Seq<char>>| dir@ == spec_projects_dir(h);
    assert(r@ == spec_project_dir(h, project@));
    r
}

/// `~/.ntx/projects/<project>/config`.
pub fn conf_dir(project: &str) -> (r: String)
    ensures
        exists|home: Option<Seq<char>>| r@ == spec_conf_dir(home, project@),
{
    let dir = project_dir(project);
    proof {
        reveal_strlit("config");
    }
    let r = path_join(dir.as_str(), "config");
    let ghost h = choose|h: Option<Seq<char>>| dir@ == spec_project_dir(h, project@);
    assert("config"@ =~= seq!['c', 'o', 'n', 'f', 'i', 'g']);
    assert(r@ == spec_conf_dir(h, project@));
    r
}

/// `~/.ntx/projects/<project>/notes`.
pub fn notes_dir(project: &str) -> (r: String)
    ensures
        exists|home: Option<Seq<char>>| r@ == spec_notes_dir(home, project@),
{
    let dir = project_dir(project);
    proof {
        reveal_strlit("notes");
    }
    let r = path_join(dir.as_str(), "notes");
    let ghost h = choose|h: Option<Seq<char>>| dir@ == spec_project_dir(h, project@);
    assert("notes"@ =~= seq!['n', 'o', 't', 'e', 's']);
    assert(r@ == spec_notes_dir(h, project@));
    r
}

/// The project names in order.
pub open spec fn spec_sort_names(names: Seq<String>) -> Seq<String> {
    stable_sorted(keyed(string_views(names), names)).map_values(|p: (Seq<char>, String)| p.1)
}

/// Orders project names (by code point, as `str`'s order does).
pub fn sort_names(names: Vec<String>) -> (r: Vec<String>)
    ensures
        r@ == spec_sort_names(names@),
{
    let mut keys: Vec<Vec<char>> = Vec::new();
    let mut i: usize = 0;
    while i < names.len()
        invariant
            i <= names.len(),
            views(keys@) == string_views(names@).take(i as int),
        decreases names.len() - i,
    {
        let k = chars_of(names[i].as_str());
        let ghost before = views(keys@);
        keys.push(k);
        assert(views(keys@) =~= before.push(k@));
        assert(string_views(names@).take(i + 1) =~= string_views(names@).take(i as int).push(
            names@[i as int]@,
        ));
        i += 1;
    }
    assert(string_views(names@).take(names.len() as int) =~= string_views(names@));
    stable_sort(names, keys)
}

} // verus!
