//! How a session's shell is started so that it sources the init file: the rc
//! files to write into a per-session directory, and the environment and
//! arguments to start the shell with.
use vstd::prelude::*;

use crate::paths::{home_dir, path_join, spec_path_join};
use crate::session::Session;
use crate::text::{chars_of, find, find_in, push_str, string_of};

verus! {

broadcast use vstd::string::group_string_axioms;

/// What to prepare before the shell starts.
#[derive(Debug, Clone)]
pub struct ShellInit {
    /// The directory the rc files go in.
    pub rc_dir: String,
    /// Each file to write: path and text.
    pub files: Vec<(String, String)>,
    /// Environment variables to set.
    pub env: Vec<(String, String)>,
    /// Arguments to start the shell with.
    pub args: Vec<String>,
}

/// `[ -f "<rc>" ] && source "<rc>"\n`
pub open spec fn source_if_exists(rc: Seq<char>) -> Seq<char> {
    "[ -f \""@ + rc + "\" ] && source \""@ + rc + "\"\n"@
}

/// `source "<init>"\n`
pub open spec fn source_line(init: Seq<char>) -> Seq<char> {
    "source \""@ + init + "\"\n"@
}

/// The per-session rc directory.
pub open spec fn spec_rc_dir(tmp_dir: Seq<char>, name: Seq<char>) -> Seq<char> {
    spec_path_join(tmp_dir, "ntx_rc_"@ + name)
}

/// The views of a sequence of string pairs.
pub open spec fn pairs_view(v: Seq<(String, String)>) -> Seq<(Seq<char>, Seq<char>)> {
    v.map_values(|p: (String, String)| (p.0@, p.1@))
}

/// What a shell is prepared with. A zsh (a shell whose path has `zsh` in
/// it) gets a `.zshenv` and a `.zshrc` in the rc directory that source the
/// user's own and then the init file, and `ZDOTDIR` set to that directory;
/// a bash gets a `.bashrc` there and `--rcfile` with it; others get nothing.
pub open spec fn shell_init_matches(
    p: ShellInit,
    name: Seq<char>,
    shell: Seq<char>,
    tmp_dir: Seq<char>,
    init_file: Seq<char>,
    home: Seq<char>,
) -> bool {
    let rc = spec_rc_dir(tmp_dir, name);
    &&& p.rc_dir@ == rc
    &&& if find(shell, "zsh"@) is Some {
        let zshenv = spec_path_join(home, ".zshenv"@);
        let zshrc = spec_path_join(home, ".zshrc"@);
        &&& pairs_view(p.files@) == seq![
            (spec_path_join(rc, ".zshenv"@), source_if_exists(zshenv)),
            (
                spec_path_join(rc, ".zshrc"@),
                "ZDOTDIR=\"$HOME\"\n"@ + source_if_exists(zshrc) + source_line(init_file),
            ),
        ]
        &&& pairs_view(p.env@) == seq![("ZDOTDIR"@, rc)]
        &&& p.args@.len() == 0
    } else if find(shell, "bash"@) is Some {
        let bashrc = spec_path_join(home, ".bashrc"@);
        let wrapper = spec_path_join(rc, ".bashrc"@);
        &&& pairs_view(p.files@) == seq![
            (wrapper, source_if_exists(bashrc) + source_line(init_file)),
        ]
        &&& p.env@.len() == 0
        &&& p.args@.len() == 2
        &&& p.args@[0]@ == "--rcfile"@
        &&& p.args@[1]@ == wrapper
    } else {
        &&& p.files@.len() == 0
        &&& p.env@.len() == 0
        &&& p.args@.len() == 0
    }
}

/// `[ -f "<rc>" ] && source "<rc>"\n` appended.
fn push_source_if_exists(out: &mut Vec<char>, rc: &str)
    ensures
        final(out)@ == old(out)@ + source_if_exists(rc@),
{
    push_str(out, "[ -f \"");
    push_str(out, rc);
    push_str(out, "\" ] && source \"");
    push_str(out, rc);
    push_str(out, "\"\n");
    assert(final(out)@ =~= old(out)@ + source_if_exists(rc@));
}

/// `source "<init>"\n` appended.
fn push_source_line(out: &mut Vec<char>, init: &str)
    ensures
        final(out)@ == old(out)@ + source_line(init@),
{
    push_str(out, "source \"");
    push_str(out, init);
    push_str(out, "\"\n");
    assert(final(out)@ =~= old(out)@ + source_line(init@));
}

/// What to prepare for a session named `name` whose shell is `shell`, with
/// the rc directory under `tmp_dir`, the init file at `init_file`, and the
/// user's home directory `home`.
pub fn shell_init_plan(name: &str, shell: &str, tmp_dir: &str, init_file: &str, home: &str) -> (p:
    ShellInit)
    ensures
        shell_init_matches(p, name@, shell@, tmp_dir@, init_file@, home@),
{
    let mut dir_name = chars_of("ntx_rc_");
    push_str(&mut dir_name, name);
    let dir_name = string_of(&dir_name);
    let rc_dir = path_join(tmp_dir, dir_name.as_str());
    let shell_c = chars_of(shell);
    let zsh = chars_of("zsh");
    let bash = chars_of("bash");
    let mut files: Vec<(String, String)> = Vec::new();
    let mut env: Vec<(String, String)> = Vec::new();
    let mut args: Vec<String> = Vec::new();
    if find_in(&shell_c, &zsh).is_some() {
        let zshenv = path_join(home, ".zshenv");
        let zshrc = path_join(home, ".zshrc");
        let mut env_text: Vec<char> = Vec::new();
        push_source_if_exists(&mut env_text, zshenv.as_str());
        let mut rc_text = chars_of("ZDOTDIR=\"$HOME\"\n");
        push_source_if_exists(&mut rc_text, zshrc.as_str());
        push_source_line(&mut rc_text, init_file);
        let f1 = (path_join(rc_dir.as_str(), ".zshenv"), string_of(&env_text));
        let f2 = (path_join(rc_dir.as_str(), ".zshrc"), string_of(&rc_text));
        let ghost v1 = (f1.0@, f1.1@);
        let ghost v2 = (f2.0@, f2.1@);
        files.push(f1);
        files.push(f2);
        assert(pairs_view(files@) =~= seq![v1, v2]);
        let e = (String::from_str("ZDOTDIR"), rc_dir.clone());
        let ghost ve = (e.0@, e.1@);
        env.push(e);
        assert(pairs_view(env@) =~= seq![ve]);
    } else if find_in(&shell_c, &bash).is_some() {
        let bashrc = path_join(home, ".bashrc");
        let wrapper = path_join(rc_dir.as_str(), ".bashrc");
        let mut text: Vec<char> = Vec::new();
        push_source_if_exists(&mut text, bashrc.as_str());
        push_source_line(&mut text, init_file);
        let f = (wrapper.clone(), string_of(&text));
        let ghost vf = (f.0@, f.1@);
        files.push(f);
        assert(pairs_view(files@) =~= seq![vf]);
        args.push(String::from_str("--rcfile"));
        args.push(wrapper);
    }
    ShellInit { rc_dir, files, env, args }
}

/// What to prepare for a session's shell, with the user's home directory
/// (`/` where there is none).
pub fn setup_shell_init(session: &Session, shell: &str, tmp_dir: &str, init_file: &str) -> (p:
    ShellInit)
    ensures
        exists|home: Seq<char>|
            shell_init_matches(p, session.name@, shell@, tmp_dir@, init_file@, home),
{
    let home = match home_dir() {
        Some(h) => h,
        None => String::from_str("/"),
    };
    let p = shell_init_plan(session.name.as_str(), shell, tmp_dir, init_file, home.as_str());
    assert(shell_init_matches(p, session.name@, shell@, tmp_dir@, init_file@, home@));
    p
}

} // verus!
