//! A project's session config: `key = value` lines at the top, an `[env]`
//! section of environment variables and a `[script]` section sourced into
//! the shell; its text form, and what a shell is started with.
use vstd::prelude::*;

use crate::notes::{last_dot, spec_unquote, unquote};
use crate::paths::{home_dir, opt_seq, path_join, spec_path_join};
use crate::text::{
    chars_eq, chars_of, is_ws, push_str, first_index, index_of, join, join_with, lines,
    opt_view, slice_of, split_lines, string_of, strip_prefix, trim, trim_end, trimmed,
    trimmed_end, views,
};

verus! {

broadcast use vstd::string::group_string_axioms;

#[derive(Debug, Clone)]
pub struct Session {
    pub name: String,
    pub project: String,
    pub file_path: String,
    pub working_dir: Option<String>,
    pub shell: Option<String>,
    pub init_script: Option<String>,
    pub script_body: Option<String>,
    pub env_vars: Vec<(String, String)>,
}

/// The section of a config file that a line falls in.
#[derive(Debug, Clone, Copy, PartialEq, Eq, Structural)]
pub enum Section {
    Top,
    Env,
    Script,
    Other,
}

/// Where a scan of config lines stands.
pub struct ConfScan {
    pub props: Seq<(Seq<char>, Seq<char>)>,
    pub env: Seq<(Seq<char>, Seq<char>)>,
    pub script: Seq<Seq<char>>,
    pub section: Section,
}

// ── Model ──────────────────────────────────────────────────────────────────

/// The code of `c` with ASCII upper case letters taken to lower case.
pub open spec fn ascii_lower(c: char) -> int {
    if 'A' <= c && c <= 'Z' {
        c as int + 32
    } else {
        c as int
    }
}

/// `str::eq_ignore_ascii_case` against an ASCII string.
pub open spec fn eq_ignore_case(s: Seq<char>, t: Seq<char>) -> bool {
    s.len() == t.len() && forall|i: int| 0 <= i < s.len() ==> ascii_lower(#[trigger] s[i])
        == ascii_lower(t[i])
}

/// A `key = value` line: the trimmed key before the first `=`, the trimmed
/// and unquoted value after it; none without `=` or with an empty key.
pub open spec fn assignment(t: Seq<char>) -> Option<(Seq<char>, Seq<char>)> {
    let eq = first_index(t, '=');
    if eq >= t.len() {
        None
    } else {
        let k = trim(t.take(eq as int));
        let v = spec_unquote(trim(t.skip(eq + 1 as int)));
        if k.len() > 0 {
            Some((k, v))
        } else {
            None
        }
    }
}

/// A whole line of the form `[word]`: brackets around a non-empty run of
/// characters that are neither whitespace nor brackets.
pub open spec fn word_header(t: Seq<char>) -> bool {
    &&& t.len() >= 3
    &&& t[0] == '['
    &&& t.last() == ']'
    &&& forall|i: int|
        1 <= i < t.len() - 1 ==> !is_ws(#[trigger] t[i]) && t[i] != '[' && t[i] != ']'
}

/// Whether the trimmed line `t` opens some other section, in section `sec`:
/// inside `[script]` only a `[word]` header does (so shell lines such as
/// `[ -f x ] && ...` stay in the script); elsewhere any line starting with `[`.
pub open spec fn opens_other(t: Seq<char>, sec: Section) -> bool {
    if sec == Section::Script {
        word_header(t)
    } else {
        t.len() > 0 && t[0] == '['
    }
}

/// One config line applied to a scan.
pub open spec fn conf_step(st: ConfScan, line: Seq<char>) -> ConfScan {
    let t = trim(line);
    if eq_ignore_case(t, "[env]"@) {
        ConfScan { section: Section::Env, ..st }
    } else if eq_ignore_case(t, "[script]"@) {
        ConfScan { section: Section::Script, ..st }
    } else if opens_other(t, st.section) {
        ConfScan { section: Section::Other, ..st }
    } else {
        match st.section {
            Section::Script => ConfScan { script: st.script.push(line), ..st },
            Section::Top | Section::Env => {
                if t.len() == 0 || t[0] == '#' {
                    st
                } else {
                    match assignment(t) {
                        Some(kv) => if st.section == Section::Env {
                            ConfScan { env: st.env.push(kv), ..st }
                        } else {
                            ConfScan { props: st.props.push(kv), ..st }
                        },
                        None => st,
                    }
                }
            },
            Section::Other => st,
        }
    }
}

/// The scan of config lines from the top.
pub open spec fn conf_scan(ls: Seq<Seq<char>>) -> ConfScan
    decreases ls.len(),
{
    if ls.len() == 0 {
        ConfScan { props: seq![], env: seq![], script: seq![], section: Section::Top }
    } else {
        conf_step(conf_scan(ls.drop_last()), ls.last())
    }
}

/// The script body of the `[script]` lines: joined by `\n`, trailing
/// whitespace removed, none where that leaves nothing.
pub open spec fn script_of(ls: Seq<Seq<char>>) -> Option<Seq<char>> {
    if ls.len() == 0 {
        None
    } else {
        let b = trim_end(join(ls, seq!['\n']));
        if b.len() == 0 {
            None
        } else {
            Some(b)
        }
    }
}

/// The value of the last assignment of `key`.
pub open spec fn lookup(props: Seq<(Seq<char>, Seq<char>)>, key: Seq<char>) -> Option<Seq<char>>
    decreases props.len(),
{
    if props.len() == 0 {
        None
    } else if props.last().0 == key {
        Some(props.last().1)
    } else {
        lookup(props.drop_last(), key)
    }
}

/// The views of a sequence of string pairs.
pub open spec fn pair_views(v: Seq<(String, String)>) -> Seq<(Seq<char>, Seq<char>)> {
    v.map_values(|p: (String, String)| (p.0@, p.1@))
}

/// The pairs without those whose key is `k`.
pub open spec fn without_key(ps: Seq<(Seq<char>, Seq<char>)>, k: Seq<char>) -> Seq<
    (Seq<char>, Seq<char>),
>
    decreases ps.len(),
{
    if ps.len() == 0 {
        seq![]
    } else if ps.last().0 == k {
        without_key(ps.drop_last(), k)
    } else {
        without_key(ps.drop_last(), k).push(ps.last())
    }
}

/// Each key once, with the value of its last assignment, in the order of
/// those last assignments.
pub open spec fn latest(ps: Seq<(Seq<char>, Seq<char>)>) -> Seq<(Seq<char>, Seq<char>)>
    decreases ps.len(),
{
    if ps.len() == 0 {
        seq![]
    } else {
        without_key(latest(ps.drop_last()), ps.last().0).push(ps.last())
    }
}

/// A config's top-level properties (each key once, with its last value),
/// `[env]` assignments and script body.
pub open spec fn spec_parse_conf(content: Seq<char>) -> (
    Seq<(Seq<char>, Seq<char>)>,
    Seq<(Seq<char>, Seq<char>)>,
    Option<Seq<char>>,
) {
    let st = conf_scan(lines(content));
    (latest(st.props), st.env, script_of(st.script))
}

/// `prefix value\n`, or nothing without a value.
pub open spec fn opt_line(prefix: Seq<char>, o: Option<Seq<char>>) -> Seq<char> {
    match o {
        Some(v) => prefix + v + seq!['\n'],
        None => seq![],
    }
}

/// `key = value\n` for each environment variable.
pub open spec fn env_lines(env: Seq<(Seq<char>, Seq<char>)>) -> Seq<char>
    decreases env.len(),
{
    if env.len() == 0 {
        seq![]
    } else {
        env_lines(env.drop_last()) + env.last().0 + " = "@ + env.last().1 + seq!['\n']
    }
}

/// The text of a session's config file.
pub open spec fn conf_text(s: Session) -> Seq<char> {
    let header = opt_line("dir = "@, opt_view(s.working_dir)) + opt_line(
        "shell = "@,
        opt_view(s.shell),
    ) + opt_line("init_script = "@, opt_view(s.init_script));
    let env = if s.env_vars.len() == 0 {
        seq![]
    } else {
        "\n[env]\n"@ + env_lines(pair_views(s.env_vars@))
    };
    let script = match s.script_body {
        Some(b) => "\n[script]\n"@ + b@ + seq!['\n'],
        None => seq![],
    };
    header + env + script
}

/// `s` with a leading `~` or `~/` taken to the home directory, where there is one.
pub open spec fn spec_expand_tilde(s: Seq<char>, home: Option<Seq<char>>) -> Seq<char> {
    if s == seq!['~'] {
        match home {
            Some(h) => h,
            None => s,
        }
    } else {
        match strip_prefix(s, seq!['~', '/']) {
            Some(rest) => match home {
                Some(h) => spec_path_join(h, rest),
                None => s,
            },
            None => s,
        }
    }
}

/// The directory a session's shell starts in.
pub open spec fn spec_working_dir(s: Session, home: Option<Seq<char>>) -> Seq<char> {
    match s.working_dir {
        Some(d) => spec_expand_tilde(d@, home),
        None => match home {
            Some(h) => h,
            None => seq!['/'],
        },
    }
}

/// The lines of the init file: `source <init_script>`, the script body, and a
/// final `clear`; none where there is neither script.
pub open spec fn spec_init_text(s: Session) -> Option<Seq<char>> {
    let a: Seq<Seq<char>> = match s.init_script {
        Some(p) => seq!["source "@ + p@],
        None => seq![],
    };
    let b: Seq<Seq<char>> = match s.script_body {
        Some(body) => seq![body@],
        None => seq![],
    };
    if a.len() + b.len() == 0 {
        None
    } else {
        Some(join((a + b).push("clear"@), seq!['\n']))
    }
}

// ── Parsing ────────────────────────────────────────────────────────────────

/// ASCII lower-case code of `c`.
fn lower_code(c: char) -> (r: u32)
    ensures
        r == ascii_lower(c),
{
    let n = c as u32;
    if 'A' <= c && c <= 'Z' {
        n + 32
    } else {
        n
    }
}

/// `str::eq_ignore_ascii_case`.
pub fn eq_ignore_ascii_case(s: &Vec<char>, t: &Vec<char>) -> (b: bool)
    ensures
        b == eq_ignore_case(s@, t@),
{
    if s.len() != t.len() {
        return false;
    }
    let mut i: usize = 0;
    while i < s.len()
        invariant
            i <= s.len() == t.len(),
            forall|k: int| 0 <= k < i ==> ascii_lower(#[trigger] s@[k]) == ascii_lower(t@[k]),
        decreases s.len() - i,
    {
        if lower_code(s[i]) != lower_code(t[i]) {
            return false;
        }
        i += 1;
    }
    true
}

/// Whether `t` is a whole line of the form `[word]`.
fn is_word_header(t: &Vec<char>) -> (b: bool)
    ensures
        b == word_header(t@),
{
    if t.len() < 3 || t[0] != '[' || t[t.len() - 1] != ']' {
        return false;
    }
    let mut i: usize = 1;
    while i < t.len() - 1
        invariant
            1 <= i <= t.len() - 1,
            t.len() >= 3,
            forall|k: int|
                1 <= k < i ==> !is_ws(#[trigger] t@[k]) && t@[k] != '[' && t@[k] != ']',
        decreases t.len() - i,
    {
        let c = t[i];
        if crate::text::is_whitespace(c) || c == '[' || c == ']' {
            return false;
        }
        i += 1;
    }
    true
}

/// The pairs without those whose key is `k`.
fn without_key_of(ps: &Vec<(Vec<char>, Vec<char>)>, k: &Vec<char>) -> (r: Vec<(Vec<char>, Vec<char>)>)
    ensures
        vpair_views(r@) == without_key(vpair_views(ps@), k@),
{
    let mut r: Vec<(Vec<char>, Vec<char>)> = Vec::new();
    let mut i: usize = 0;
    assert(vpair_views(ps@).take(0) =~= seq![]);
    assert(vpair_views(r@) =~= seq![]);
    while i < ps.len()
        invariant
            i <= ps.len(),
            vpair_views(r@) == without_key(vpair_views(ps@).take(i as int), k@),
        decreases ps.len() - i,
    {
        let ghost pv = vpair_views(ps@);
        assert(pv.take(i + 1).drop_last() =~= pv.take(i as int));
        assert(pv.take(i + 1).last() == (ps@[i as int].0@, ps@[i as int].1@));
        if !chars_eq(&ps[i].0, k) {
            let p = (slice_of(&ps[i].0, 0, ps[i].0.len()), slice_of(&ps[i].1, 0, ps[i].1.len()));
            assert(p.0@ =~= ps@[i as int].0@);
            assert(p.1@ =~= ps@[i as int].1@);
            let ghost before = r@;
            r.push(p);
            assert(vpair_views(r@) =~= vpair_views(before).push((p.0@, p.1@)));
        }
        i += 1;
    }
    assert(vpair_views(ps@).take(ps.len() as int) =~= vpair_views(ps@));
    r
}

/// Each key once, with its last value, in the order of last assignment.
fn latest_of(ps: &Vec<(Vec<char>, Vec<char>)>) -> (r: Vec<(Vec<char>, Vec<char>)>)
    ensures
        vpair_views(r@) == latest(vpair_views(ps@)),
{
    let mut r: Vec<(Vec<char>, Vec<char>)> = Vec::new();
    let mut i: usize = 0;
    assert(vpair_views(ps@).take(0) =~= seq![]);
    assert(vpair_views(r@) =~= seq![]);
    while i < ps.len()
        invariant
            i <= ps.len(),
            vpair_views(r@) == latest(vpair_views(ps@).take(i as int)),
        decreases ps.len() - i,
    {
        let ghost pv = vpair_views(ps@);
        assert(pv.take(i + 1).drop_last() =~= pv.take(i as int));
        assert(pv.take(i + 1).last() == (ps@[i as int].0@, ps@[i as int].1@));
        let mut kept = without_key_of(&r, &ps[i].0);
        let p = (slice_of(&ps[i].0, 0, ps[i].0.len()), slice_of(&ps[i].1, 0, ps[i].1.len()));
        assert(p.0@ =~= ps@[i as int].0@);
        assert(p.1@ =~= ps@[i as int].1@);
        let ghost before = kept@;
        kept.push(p);
        assert(vpair_views(kept@) =~= vpair_views(before).push((p.0@, p.1@)));
        r = kept;
        i += 1;
    }
    assert(vpair_views(ps@).take(ps.len() as int) =~= vpair_views(ps@));
    r
}

/// Splits a `key = value` line.
fn parse_assignment(t: &Vec<char>) -> (r: Option<(Vec<char>, Vec<char>)>)
    ensures
        match (assignment(t@), r) {
            (Some(kv), Some(p)) => p.0@ == kv.0 && p.1@ == kv.1,
            (None, None) => true,
            _ => false,
        },
{
    let eq = index_of(t, '=');
    if eq >= t.len() {
        return None;
    }
    let k = trimmed(&slice_of(t, 0, eq));
    let v = unquote(&trimmed(&slice_of(t, eq + 1, t.len())));
    assert(t@.subrange(0, eq as int) =~= t@.take(eq as int));
    assert(t@.subrange(eq + 1, t.len() as int) =~= t@.skip(eq + 1));
    if k.len() > 0 {
        Some((k, v))
    } else {
        None
    }
}

/// The views of a sequence of character-vector pairs.
pub open spec fn vpair_views(v: Seq<(Vec<char>, Vec<char>)>) -> Seq<(Seq<char>, Seq<char>)> {
    v.map_values(|p: (Vec<char>, Vec<char>)| (p.0@, p.1@))
}

/// The `String` pairs of character-vector pairs.
fn string_pairs(v: &Vec<(Vec<char>, Vec<char>)>) -> (r: Vec<(String, String)>)
    ensures
        pair_views(r@) == vpair_views(v@),
{
    let mut r: Vec<(String, String)> = Vec::new();
    let mut i: usize = 0;
    while i < v.len()
        invariant
            i <= v.len(),
            pair_views(r@) == vpair_views(v@).take(i as int),
        decreases v.len() - i,
    {
        let k = string_of(&v[i].0);
        let x = string_of(&v[i].1);
        let ghost before = r@;
        r.push((k, x));
        assert(pair_views(r@) =~= pair_views(before).push((v@[i as int].0@, v@[i as int].1@)));
        assert(vpair_views(v@).take(i + 1) =~= vpair_views(v@).take(i as int).push(
            (v@[i as int].0@, v@[i as int].1@),
        ));
        i += 1;
    }
    assert(vpair_views(v@).take(v.len() as int) =~= vpair_views(v@));
    r
}

/// Parses config text into its top-level properties (each key once, with the
/// value of its last assignment), its `[env]` assignments and its script body.
pub fn parse_conf(content: &str) -> (r: (Vec<(String, String)>, Vec<(String, String)>, Option<String>))
    ensures
        (pair_views(r.0@), pair_views(r.1@), opt_view(r.2)) == spec_parse_conf(content@),
{
    let content = chars_of(content);
    let ls = split_lines(&content);
    let ghost lv = views(ls@);
    let env_h = chars_of("[env]");
    let script_h = chars_of("[script]");
    let mut props: Vec<(Vec<char>, Vec<char>)> = Vec::new();
    let mut env_vars: Vec<(Vec<char>, Vec<char>)> = Vec::new();
    let mut script_lines: Vec<Vec<char>> = Vec::new();
    let mut section = Section::Top;
    let mut i: usize = 0;
    assert(lv.take(0) =~= seq![]);
    assert(vpair_views(props@) =~= seq![]);
    assert(views(script_lines@) =~= seq![]);
    while i < ls.len()
        invariant
            i <= ls.len(),
            lv == views(ls@),
            lv == lines(content@),
            env_h@ == "[env]"@,
            script_h@ == "[script]"@,
            conf_scan(lv.take(i as int)) == (ConfScan {
                props: vpair_views(props@),
                env: vpair_views(env_vars@),
                script: views(script_lines@),
                section,
            }),
        decreases ls.len() - i,
    {
        assert(lv.take(i + 1).drop_last() =~= lv.take(i as int));
        assert(lv.take(i + 1).last() == ls@[i as int]@);
        let line = &ls[i];
        let t = trimmed(line);
        if eq_ignore_ascii_case(&t, &env_h) {
            section = Section::Env;
        } else if eq_ignore_ascii_case(&t, &script_h) {
            section = Section::Script;
        } else if (section == Section::Script && is_word_header(&t)) || (section
            != Section::Script && t.len() > 0 && t[0] == '[') {
            section = Section::Other;
        } else {
            match section {
                Section::Script => {
                    let l = slice_of(line, 0, line.len());
                    assert(l@ =~= line@);
                    let ghost before = script_lines@;
                    script_lines.push(l);
                    assert(views(script_lines@) =~= views(before).push(l@));
                },
                Section::Top | Section::Env => {
                    if !(t.len() == 0 || t[0] == '#') {
                        match parse_assignment(&t) {
                            Some(kv) => {
                                let ghost kvv = (kv.0@, kv.1@);
                                if section == Section::Env {
                                    let ghost before = env_vars@;
                                    env_vars.push(kv);
                                    assert(vpair_views(env_vars@) =~= vpair_views(before).push(
                                        kvv,
                                    ));
                                } else {
                                    let ghost before = props@;
                                    props.push(kv);
                                    assert(vpair_views(props@) =~= vpair_views(before).push(kvv));
                                }
                            },
                            None => {},
                        }
                    }
                },
                Section::Other => {},
            }
        }
        i += 1;
    }
    assert(lv.take(ls.len() as int) =~= lv);
    let newline = vec!['\n'];
    assert(newline@ =~= seq!['\n']);
    let script = if script_lines.len() == 0 {
        None
    } else {
        let body = trimmed_end(&join_with(&script_lines, &newline));
        if body.len() == 0 {
            None
        } else {
            Some(string_of(&body))
        }
    };
    (string_pairs(&latest_of(&props)), string_pairs(&env_vars), script)
}

/// The value of the last assignment of `key`.
pub fn lookup_prop(props: &Vec<(String, String)>, key: &str) -> (r: Option<String>)
    ensures
        opt_view(r) == lookup(pair_views(props@), key@),
{
    let k = String::from_str(key);
    let mut i = props.len();
    assert(pair_views(props@).take(i as int) =~= pair_views(props@));
    while i > 0
        invariant
            i <= props.len(),
            k@ == key@,
            lookup(pair_views(props@), key@) == lookup(pair_views(props@).take(i as int), key@),
        decreases i,
    {
        let ghost pv = pair_views(props@).take(i as int);
        assert(pv.drop_last() =~= pair_views(props@).take(i - 1));
        assert(pv.last() == (props@[i - 1].0@, props@[i - 1].1@));
        if props[i - 1].0 == k {
            return Some(props[i - 1].1.clone());
        }
        i -= 1;
    }
    assert(pair_views(props@).take(0) =~= seq![]);
    None
}

impl Session {
    /// The session that a config file's text describes.
    pub fn from_conf(name: &str, project: &str, file_path: &str, content: &str) -> (s: Session)
        ensures
            s.name@ == name@,
            s.project@ == project@,
            s.file_path@ == file_path@,
            ({
                let (props, env, script) = spec_parse_conf(content@);
                &&& opt_view(s.working_dir) == lookup(props, "dir"@)
                &&& opt_view(s.shell) == lookup(props, "shell"@)
                &&& opt_view(s.init_script) == lookup(props, "init_script"@)
                &&& opt_view(s.script_body) == script
                &&& pair_views(s.env_vars@) == env
            }),
    {
        let (props, env_vars, script_body) = parse_conf(content);
        Session {
            name: String::from_str(name),
            project: String::from_str(project),
            file_path: String::from_str(file_path),
            working_dir: lookup_prop(&props, "dir"),
            shell: lookup_prop(&props, "shell"),
            init_script: lookup_prop(&props, "init_script"),
            script_body,
            env_vars,
        }
    }
}

impl Session {
    /// The text of this session's config file.
    pub fn to_conf_string(&self) -> (r: String)
        ensures
            r@ == conf_text(*self),
    {
        let mut out: Vec<char> = Vec::new();
        push_opt_line(&mut out, "dir = ", &self.working_dir);
        push_opt_line(&mut out, "shell = ", &self.shell);
        push_opt_line(&mut out, "init_script = ", &self.init_script);
        let ghost header = out@;
        if self.env_vars.len() > 0 {
            push_str(&mut out, "\n[env]\n");
            push_env_lines(&mut out, &self.env_vars);
        }
        let ghost with_env = out@;
        match &self.script_body {
            Some(b) => {
                push_str(&mut out, "\n[script]\n");
                push_str(&mut out, b.as_str());
                out.push('\n');
            },
            None => {},
        }
        assert(out@ =~= conf_text(*self));
        string_of(&out)
    }

    /// The shell to start: the configured one, else `$SHELL` (handed in as
    /// `env_shell`), else `/bin/zsh`.
    pub fn shell_bin(&self, env_shell: Option<String>) -> (r: String)
        ensures
            r@ == match self.shell {
                Some(s) => s@,
                None => match env_shell {
                    Some(e) => e@,
                    None => "/bin/zsh"@,
                },
            },
    {
        match &self.shell {
            Some(s) => s.clone(),
            None => match env_shell {
                Some(e) => e,
                None => String::from_str("/bin/zsh"),
            },
        }
    }

    /// The directory the shell starts in, given the home directory: the
    /// configured one with `~` expanded, else home, else `/`.
    pub fn working_dir_path_in(&self, home: Option<String>) -> (r: String)
        ensures
            r@ == spec_working_dir(*self, opt_seq(home)),
    {
        match &self.working_dir {
            Some(d) => expand_tilde(d.as_str(), home),
            None => match home {
                Some(h) => h,
                None => {
                    proof {
                        reveal_strlit("/");
                    }
                    String::from_str("/")
                },
            },
        }
    }

    /// The directory the shell starts in, with the user's home directory.
    pub fn working_dir_path(&self) -> (r: String)
        ensures
            exists|home: Option<Seq<char>>| r@ == spec_working_dir(*self, home),
    {
        let home = home_dir();
        self.working_dir_path_in(home)
    }

    /// The init file to source at shell start, given the temp directory: its
    /// path `<tmp_dir>/ntx_<name>.sh` and its text; none where the session has
    /// neither an init script nor a script body.
    pub fn build_init_file(&self, tmp_dir: &str) -> (r: Option<(String, String)>)
        ensures
            match (r, spec_init_text(*self)) {
                (Some(f), Some(t)) => f.1@ == t && f.0@ == spec_path_join(
                    tmp_dir@,
                    "ntx_"@ + self.name@ + ".sh"@,
                ),
                (None, None) => true,
                _ => false,
            },
    {
        let mut parts: Vec<Vec<char>> = Vec::new();
        match &self.init_script {
            Some(p) => {
                let mut l = chars_of("source ");
                push_str(&mut l, p.as_str());
                parts.push(l);
            },
            None => {},
        }
        match &self.script_body {
            Some(b) => {
                let l = chars_of(b.as_str());
                parts.push(l);
            },
            None => {},
        }
        if parts.len() == 0 {
            return None;
        }
        let ghost before = views(parts@);
        parts.push(chars_of("clear"));
        assert(views(parts@) =~= before.push("clear"@));
        let ghost a: Seq<Seq<char>> = match opt_view(self.init_script) {
            Some(p) => seq!["source "@ + p],
            None => seq![],
        };
        let ghost b: Seq<Seq<char>> = match opt_view(self.script_body) {
            Some(body) => seq![body],
            None => seq![],
        };
        assert(before =~= a + b);
        let nl = vec!['\n'];
        assert(nl@ =~= seq!['\n']);
        let text = join_with(&parts, &nl);
        let mut file_name = chars_of("ntx_");
        push_str(&mut file_name, self.name.as_str());
        push_str(&mut file_name, ".sh");
        let file_name = string_of(&file_name);
        Some((path_join(tmp_dir, file_name.as_str()), string_of(&text)))
    }
}

/// Appends `prefix value\n` where there is a value.
fn push_opt_line(out: &mut Vec<char>, prefix: &str, o: &Option<String>)
    ensures
        final(out)@ == old(out)@ + opt_line(prefix@, opt_view(*o)),
{
    match o {
        Some(d) => {
            push_str(out, prefix);
            push_str(out, d.as_str());
            out.push('\n');
        },
        None => {
            assert(old(out)@ + opt_line(prefix@, opt_view(*o)) =~= old(out)@);
        },
    }
}

/// Appends `key = value\n` for each environment variable.
fn push_env_lines(out: &mut Vec<char>, env: &Vec<(String, String)>)
    ensures
        final(out)@ == old(out)@ + env_lines(pair_views(env@)),
{
    let ghost ev = pair_views(env@);
    let ghost start = out@;
    let mut i: usize = 0;
    assert(ev.take(0) =~= seq![]);
    assert(start + env_lines(ev.take(0)) =~= start);
    while i < env.len()
        invariant
            i <= env.len(),
            ev == pair_views(env@),
            out@ == start + env_lines(ev.take(i as int)),
        decreases env.len() - i,
    {
        assert(ev.take(i + 1).drop_last() =~= ev.take(i as int));
        push_str(out, env[i].0.as_str());
        push_str(out, " = ");
        push_str(out, env[i].1.as_str());
        out.push('\n');
        assert(out@ =~= start + env_lines(ev.take(i + 1)));
        i += 1;
    }
    assert(ev.take(env.len() as int) =~= ev);
}

/// Expands a leading `~` or `~/` to the home directory (kept as it is
/// where there is none).
pub fn expand_tilde(s: &str, home: Option<String>) -> (r: String)
    ensures
        r@ == spec_expand_tilde(s@, opt_seq(home)),
{
    let c = chars_of(s);
    if c.len() == 1 && c[0] == '~' {
        assert(c@ =~= seq!['~']);
        return match home {
            Some(h) => h,
            None => String::from_str(s),
        };
    }
    assert(s@ != seq!['~']);
    if c.len() >= 2 && c[0] == '~' && c[1] == '/' {
        assert(c@.take(2) =~= seq!['~', '/']);
        match home {
            Some(h) => {
                let rest = string_of(&slice_of(&c, 2, c.len()));
                assert(rest@ =~= c@.skip(2));
                path_join(h.as_str(), rest.as_str())
            },
            None => String::from_str(s),
        }
    } else {
        assert(!(c@.len() >= 2 && c@.take(2) == seq!['~', '/'])) by {
            if c@.len() >= 2 && c@.take(2) == seq!['~', '/'] {
                assert(c@.take(2)[0] == '~');
                assert(c@.take(2)[1] == '/');
            }
        }
        String::from_str(s)
    }
}

impl Session {
    /// The environment the shell is started with, in the order it is set:
    /// the `[env]` variables, then `TERM=xterm-256color`.
    pub fn child_env(&self) -> (r: Vec<(String, String)>)
        ensures
            pair_views(r@) == pair_views(self.env_vars@).push(("TERM"@, "xterm-256color"@)),
    {
        let mut r: Vec<(String, String)> = Vec::new();
        let mut i: usize = 0;
        while i < self.env_vars.len()
            invariant
                i <= self.env_vars.len(),
                pair_views(r@) == pair_views(self.env_vars@).take(i as int),
            decreases self.env_vars.len() - i,
        {
            let k = self.env_vars[i].0.clone();
            let v = self.env_vars[i].1.clone();
            let ghost before = r@;
            r.push((k, v));
            assert(pair_views(r@) =~= pair_views(before).push(
                (self.env_vars@[i as int].0@, self.env_vars@[i as int].1@),
            ));
            assert(pair_views(self.env_vars@).take(i + 1) =~= pair_views(self.env_vars@).take(
                i as int,
            ).push((self.env_vars@[i as int].0@, self.env_vars@[i as int].1@)));
            i += 1;
        }
        assert(pair_views(self.env_vars@).take(self.env_vars.len() as int) =~= pair_views(
            self.env_vars@,
        ));
        let ghost before = r@;
        r.push((String::from_str("TERM"), String::from_str("xterm-256color")));
        assert(pair_views(r@) =~= pair_views(before).push(("TERM"@, "xterm-256color"@)));
        r
    }
}

/// A file name's stem as `Path::file_stem` gives it: the name before its
/// last dot, the whole name where that dot leads it or there is none.
pub open spec fn file_stem(name: Seq<char>) -> Seq<char> {
    match last_dot(name) {
        Some(i) => if i > 0 {
            name.take(i as int)
        } else {
            name
        },
        None => name,
    }
}

/// The name of a session read from a config file: the file's stem, or
/// `unnamed` where the path has no file name.
pub open spec fn spec_session_name(file_name: Option<Seq<char>>) -> Seq<char> {
    match file_name {
        Some(n) => file_stem(n),
        None => "unnamed"@,
    }
}

/// The name of a session read from the config file of this file name.
pub fn session_name(file_name: Option<String>) -> (r: String)
    ensures
        r@ == spec_session_name(opt_view(file_name)),
{
    let name = match file_name {
        Some(n) => n,
        None => {
            return String::from_str("unnamed");
        },
    };
    let c = chars_of(name.as_str());
    let mut i = c.len();
    assert(c@.take(i as int) =~= c@);
    while i > 0 && c[i - 1] != '.'
        invariant
            i <= c.len(),
            last_dot(c@) == last_dot(c@.take(i as int)),
        decreases i,
    {
        assert(c@.take(i as int).drop_last() =~= c@.take(i - 1));
        i -= 1;
    }
    if i <= 1 {
        if i == 1 {
            assert(c@.take(1).last() == c@[0]);
        } else {
            assert(c@.take(0) =~= seq![]);
        }
        return name;
    }
    assert(c@.take(i as int).last() == c@[i - 1]);
    let stem = slice_of(&c, 0, i - 1);
    assert(stem@ =~= c@.take(i - 1));
    string_of(&stem)
}

} // verus!
