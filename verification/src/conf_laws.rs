//! Config files read back: the text that a session is written as gives the
//! session again when it is read.
use vstd::prelude::*;

use crate::notes::spec_unquote;
use crate::session::{
    assignment, conf_scan, conf_step, conf_text, env_lines, eq_ignore_case, latest, lookup, opt_line,
    pair_views, script_of, spec_parse_conf, without_key, word_header, ConfScan, Section, Session,
};
use crate::text::{
    is_ws, lemma_first_index_at, lemma_join_lines, lemma_lines_final_newline, lemma_lines_unlines,
    lemma_trim_end_at, lemma_trim_start_at, lemma_unlines_push, lines, no_cr_before_newline,
    no_newline, opt_view, trim, trim_end, trim_start, unlines,
};

verus! {

/// A value that a config line carries unchanged: on one line, with no
/// whitespace at either end, and not wrapped in a pair of quotes.
pub open spec fn conf_value_ok(v: Seq<char>) -> bool {
    &&& no_newline(v)
    &&& v.len() == 0 || (!is_ws(v[0]) && !is_ws(v.last()))
    &&& spec_unquote(v) == v
}

/// An `[env]` name that a config line carries unchanged: non-empty, on one
/// line, with no `=` and no whitespace at either end, and not starting as a
/// comment or a section header does.
pub open spec fn conf_key_ok(k: Seq<char>) -> bool {
    &&& k.len() > 0
    &&& no_newline(k)
    &&& forall|i: int| 0 <= i < k.len() ==> k[i] != '='
    &&& !is_ws(k[0]) && !is_ws(k.last())
    &&& k[0] != '[' && k[0] != '#'
}

/// A line that the `[script]` section keeps: not a section header (`[env]`,
/// `[script]` or another `[word]`).
pub open spec fn script_line_ok(l: Seq<char>) -> bool {
    &&& !eq_ignore_case(trim(l), "[env]"@)
    &&& !eq_ignore_case(trim(l), "[script]"@)
    &&& !word_header(trim(l))
}

/// A script body that a config file carries unchanged: non-empty, with no
/// whitespace at its end, no `\r` before a line break, and no line that
/// starts a section.
pub open spec fn conf_script_ok(b: Seq<char>) -> bool {
    &&& b.len() > 0
    &&& !is_ws(b.last())
    &&& no_cr_before_newline(b)
    &&& forall|j: int| 0 <= j < lines(b).len() ==> script_line_ok(#[trigger] lines(b)[j])
}

/// A session whose config text reads back as the session.
pub open spec fn conf_representable(s: Session) -> bool {
    &&& s.working_dir matches Some(v) ==> conf_value_ok(v@)
    &&& s.shell matches Some(v) ==> conf_value_ok(v@)
    &&& s.init_script matches Some(v) ==> conf_value_ok(v@)
    &&& forall|j: int|
        0 <= j < s.env_vars@.len() ==> conf_key_ok(#[trigger] s.env_vars@[j].0@) && conf_value_ok(
            s.env_vars@[j].1@,
        )
    &&& s.script_body matches Some(b) ==> conf_script_ok(b@)
}

/// `key = value`.
spec fn kv_line(k: Seq<char>, v: Seq<char>) -> Seq<char> {
    k + seq![' ', '=', ' '] + v
}

/// The `key = value` lines of pairs.
spec fn kv_lines(ps: Seq<(Seq<char>, Seq<char>)>) -> Seq<Seq<char>> {
    ps.map_values(|p: (Seq<char>, Seq<char>)| kv_line(p.0, p.1))
}

/// The pairs all carried unchanged.
spec fn pairs_ok(ps: Seq<(Seq<char>, Seq<char>)>) -> bool {
    forall|j: int| 0 <= j < ps.len() ==> conf_key_ok(#[trigger] ps[j].0) && conf_value_ok(ps[j].1)
}

/// The scan of config lines from a given point.
spec fn scan_from(st: ConfScan, ls: Seq<Seq<char>>) -> ConfScan
    decreases ls.len(),
{
    if ls.len() == 0 {
        st
    } else {
        conf_step(scan_from(st, ls.drop_last()), ls.last())
    }
}

spec fn scan_start() -> ConfScan {
    ConfScan { props: seq![], env: seq![], script: seq![], section: Section::Top }
}

proof fn lemma_scan_from_start(ls: Seq<Seq<char>>)
    ensures
        conf_scan(ls) == scan_from(scan_start(), ls),
    decreases ls.len(),
{
    if ls.len() > 0 {
        lemma_scan_from_start(ls.drop_last());
    }
}

proof fn lemma_scan_append(st: ConfScan, a: Seq<Seq<char>>, b: Seq<Seq<char>>)
    ensures
        scan_from(st, a + b) == scan_from(scan_from(st, a), b),
    decreases b.len(),
{
    if b.len() == 0 {
        assert(a + b =~= a);
    } else {
        assert((a + b).drop_last() =~= a + b.drop_last());
        assert((a + b).last() == b.last());
        lemma_scan_append(st, a, b.drop_last());
    }
}

/// `'['` is the only character that `ascii_lower` takes to its code.
proof fn lemma_not_bracket(t: Seq<char>, h: Seq<char>)
    requires
        t.len() > 0,
        t[0] != '[',
        h.len() > 0,
        h[0] == '[',
    ensures
        !crate::session::eq_ignore_case(t, h),
{
    assert(crate::session::ascii_lower(t[0]) != crate::session::ascii_lower(h[0]));
}

/// A `key = value` line of the top or `[env]` section adds its pair.
proof fn lemma_kv_step(st: ConfScan, k: Seq<char>, v: Seq<char>)
    requires
        conf_key_ok(k),
        conf_value_ok(v),
        st.section == Section::Top || st.section == Section::Env,
    ensures
        conf_step(st, kv_line(k, v)) == if st.section == Section::Env {
            ConfScan { env: st.env.push((k, v)), ..st }
        } else {
            ConfScan { props: st.props.push((k, v)), ..st }
        },
{
    let line = kv_line(k, v);
    let n: int = k.len() as int;
    assert(line[0] == k[0]);
    lemma_trim_start_at(line, 0);
    assert(line.skip(0) =~= line);
    let t = trim(line);
    if v.len() > 0 {
        assert(line.last() == v.last());
        lemma_trim_end_at(line, line.len() as int);
        assert(line.take(line.len() as int) =~= line);
        assert(t == line);
        assert(t.skip(n + 2) =~= seq![' '] + v);
    } else {
        assert(line[line.len() - 1] == ' ');
        assert(line[line.len() - 2] == '=');
        lemma_trim_end_at(line, line.len() - 1);
        assert(t == line.take(line.len() - 1));
        assert(t.skip(n + 2) =~= v);
    }
    assert(t.len() > 0 && t[0] == k[0]);
    reveal_strlit("[env]");
    reveal_strlit("[script]");
    lemma_not_bracket(t, "[env]"@);
    lemma_not_bracket(t, "[script]"@);
    assert forall|i: int| 0 <= i < n implies #[trigger] t[i] != '=' by {
        assert(t[i] == k[i]);
    }
    assert(t[n] == ' ');
    assert(t[n + 1] == '=');
    lemma_first_index_at(t, '=', n + 1);
    let kt = t.take(n + 1);
    assert(kt =~= k.push(' '));
    assert(kt[0] == k[0]);
    lemma_trim_start_at(kt, 0);
    assert(kt.skip(0) =~= kt);
    assert(kt[n - 1] == k.last());
    lemma_trim_end_at(kt, n as int);
    assert(kt.take(n as int) =~= k);
    let vt = t.skip(n + 2);
    if v.len() > 0 {
        assert(vt[0] == ' ');
        assert(vt[1] == v[0]);
        lemma_trim_start_at(vt, 1);
        assert(vt.skip(1) =~= v);
        lemma_trim_end_at(v, v.len() as int);
        assert(v.take(v.len() as int) =~= v);
    } else {
        lemma_trim_start_at(vt, 0);
        lemma_trim_end_at(vt, 0);
        assert(vt.take(0) =~= vt);
    }
    assert(trim(vt) == v);
}

/// The `key = value` lines of pairs add them all.
proof fn lemma_kv_scan(st: ConfScan, ps: Seq<(Seq<char>, Seq<char>)>)
    requires
        pairs_ok(ps),
        st.section == Section::Top || st.section == Section::Env,
    ensures
        scan_from(st, kv_lines(ps)) == if st.section == Section::Env {
            ConfScan { env: st.env + ps, ..st }
        } else {
            ConfScan { props: st.props + ps, ..st }
        },
    decreases ps.len(),
{
    if ps.len() == 0 {
        assert(st.env + ps =~= st.env);
        assert(st.props + ps =~= st.props);
    } else {
        let init = ps.drop_last();
        assert(kv_lines(ps).drop_last() =~= kv_lines(init));
        assert(kv_lines(ps).last() == kv_line(ps.last().0, ps.last().1));
        assert(pairs_ok(init)) by {
            assert forall|j: int| 0 <= j < init.len() implies conf_key_ok(#[trigger] init[j].0)
                && conf_value_ok(init[j].1) by {
                assert(init[j] == ps[j]);
            }
        }
        lemma_kv_scan(st, init);
        assert(conf_key_ok(ps[ps.len() - 1].0));
        lemma_kv_step(scan_from(st, kv_lines(init)), ps.last().0, ps.last().1);
        assert(st.env + init.push(ps.last()) =~= st.env + ps);
        assert(st.props + init.push(ps.last()) =~= st.props + ps);
        assert(init.push(ps.last()) =~= ps);
    }
}

/// A line that opens no section and is no assignment, in the top or `[env]`
/// section, changes nothing; `[env]` and `[script]` open their sections.
proof fn lemma_header_steps(st: ConfScan)
    ensures
        (st.section == Section::Top || st.section == Section::Env) ==> conf_step(st, seq![]) == st,
        conf_step(st, "[env]"@) == (ConfScan { section: Section::Env, ..st }),
        conf_step(st, "[script]"@) == (ConfScan { section: Section::Script, ..st }),
{
    reveal_strlit("[env]");
    reveal_strlit("[script]");
    let e = "[env]"@;
    let sc = "[script]"@;
    lemma_trim_start_at(seq![], 0);
    lemma_trim_end_at(seq![], 0);
    assert(trim(seq![]) =~= seq![]);
    lemma_trim_start_at(e, 0);
    assert(e.skip(0) =~= e);
    lemma_trim_end_at(e, e.len() as int);
    assert(e.take(e.len() as int) =~= e);
    lemma_trim_start_at(sc, 0);
    assert(sc.skip(0) =~= sc);
    lemma_trim_end_at(sc, sc.len() as int);
    assert(sc.take(sc.len() as int) =~= sc);
    assert(crate::session::eq_ignore_case(e, e));
    assert(crate::session::eq_ignore_case(sc, sc));
}

/// A line of the `[script]` section that opens no section is kept.
proof fn lemma_script_step(st: ConfScan, l: Seq<char>)
    requires
        st.section == Section::Script,
        script_line_ok(l),
    ensures
        conf_step(st, l) == (ConfScan { script: st.script.push(l), ..st }),
{
}

/// The lines of the `[script]` section that open no section are all kept.
proof fn lemma_script_scan(st: ConfScan, ls: Seq<Seq<char>>)
    requires
        st.section == Section::Script,
        forall|j: int| 0 <= j < ls.len() ==> script_line_ok(#[trigger] ls[j]),
    ensures
        scan_from(st, ls) == (ConfScan { script: st.script + ls, ..st }),
    decreases ls.len(),
{
    if ls.len() == 0 {
        assert(st.script + ls =~= st.script);
    } else {
        let init = ls.drop_last();
        assert forall|j: int| 0 <= j < init.len() implies script_line_ok(#[trigger] init[j]) by {
            assert(init[j] == ls[j]);
        }
        lemma_script_scan(st, init);
        assert(script_line_ok(ls[ls.len() - 1]));
        lemma_script_step(scan_from(st, init), ls.last());
        assert(st.script + init.push(ls.last()) =~= st.script + ls);
        assert(init.push(ls.last()) =~= ls);
    }
}

proof fn lemma_scan_two(st: ConfScan, a: Seq<char>, b: Seq<char>)
    ensures
        scan_from(st, seq![a, b]) == conf_step(conf_step(st, a), b),
{
    assert(seq![a, b].drop_last() =~= seq![a]);
    assert(seq![a].drop_last() =~= Seq::<Seq<char>>::empty());
    assert(scan_from(st, Seq::<Seq<char>>::empty()) == st);
    assert(scan_from(st, seq![a]) == conf_step(st, a));
}

/// The last assignment of a key in `a + b` is its last one in `b`, or else in `a`.
proof fn lemma_lookup_append(
    a: Seq<(Seq<char>, Seq<char>)>,
    b: Seq<(Seq<char>, Seq<char>)>,
    key: Seq<char>,
)
    ensures
        lookup(a + b, key) == match lookup(b, key) {
            Some(v) => Some(v),
            None => lookup(a, key),
        },
    decreases b.len(),
{
    if b.len() == 0 {
        assert(a + b =~= a);
    } else {
        assert((a + b).drop_last() =~= a + b.drop_last());
        assert((a + b).last() == b.last());
        lemma_lookup_append(a, b.drop_last(), key);
    }
}

/// The pair of a key and an optional value, if there is a value.
pub open spec fn opt_pair(k: Seq<char>, o: Option<String>) -> Seq<(Seq<char>, Seq<char>)> {
    match o {
        Some(v) => seq![(k, v@)],
        None => seq![],
    }
}

/// The top-level properties a session's config text holds: `dir`, `shell`
/// and `init_script`, each where the session has it.
pub open spec fn header_pairs(s: Session) -> Seq<(Seq<char>, Seq<char>)> {
    opt_pair("dir"@, s.working_dir) + opt_pair("shell"@, s.shell) + opt_pair(
        "init_script"@,
        s.init_script,
    )
}

proof fn lemma_unlines_append(a: Seq<Seq<char>>, b: Seq<Seq<char>>)
    ensures
        unlines(a + b) == unlines(a) + unlines(b),
    decreases a.len(),
{
    if a.len() == 0 {
        assert(a + b =~= b);
        assert(unlines(a) + unlines(b) =~= unlines(b));
    } else {
        assert((a + b).drop_first() =~= a.drop_first() + b);
        assert((a + b)[0] == a[0]);
        lemma_unlines_append(a.drop_first(), b);
        assert(unlines(a + b) =~= unlines(a) + unlines(b));
    }
}

proof fn lemma_unlines_one(l: Seq<char>)
    ensures
        unlines(seq![l]) == l + seq!['\n'],
{
    assert(seq![l].drop_first() =~= Seq::<Seq<char>>::empty());
    assert(unlines(Seq::<Seq<char>>::empty()) == Seq::<char>::empty());
    assert(unlines(seq![l]) =~= l + seq!['\n']);
}

proof fn lemma_env_lines(env: Seq<(Seq<char>, Seq<char>)>)
    ensures
        env_lines(env) == unlines(kv_lines(env)),
    decreases env.len(),
{
    reveal_strlit(" = ");
    if env.len() == 0 {
        assert(kv_lines(env) =~= Seq::<Seq<char>>::empty());
    } else {
        lemma_env_lines(env.drop_last());
        assert(kv_lines(env) =~= kv_lines(env.drop_last()).push(kv_line(env.last().0, env.last().1)));
        lemma_unlines_push(kv_lines(env.drop_last()), kv_line(env.last().0, env.last().1));
        assert(env_lines(env) =~= unlines(kv_lines(env)));
    }
}

proof fn lemma_opt_line(k: Seq<char>, prefix: Seq<char>, o: Option<String>)
    requires
        prefix == k + seq![' ', '=', ' '],
    ensures
        opt_line(prefix, opt_view(o)) == unlines(kv_lines(opt_pair(k, o))),
{
    match o {
        Some(v) => {
            assert(kv_lines(opt_pair(k, o)) =~= seq![kv_line(k, v@)]);
            lemma_unlines_one(kv_line(k, v@));
            assert(opt_line(prefix, opt_view(o)) =~= kv_line(k, v@) + seq!['\n']);
        },
        None => {
            assert(kv_lines(opt_pair(k, o)) =~= Seq::<Seq<char>>::empty());
        },
    }
}

proof fn lemma_lookup_opt_pair(k: Seq<char>, o: Option<String>, key: Seq<char>)
    ensures
        lookup(opt_pair(k, o), key) == if k == key {
            opt_view(o)
        } else {
            None
        },
{
    match o {
        Some(v) => {
            let ps = opt_pair(k, o);
            assert(ps.drop_last() =~= Seq::<(Seq<char>, Seq<char>)>::empty());
            assert(ps.last() == (k, v@));
            assert(lookup(Seq::<(Seq<char>, Seq<char>)>::empty(), key) == None::<Seq<char>>);
        },
        None => {},
    }
}

proof fn lemma_pairs_ok_append(a: Seq<(Seq<char>, Seq<char>)>, b: Seq<(Seq<char>, Seq<char>)>)
    requires
        pairs_ok(a),
        pairs_ok(b),
    ensures
        pairs_ok(a + b),
{
    let ab = a + b;
    assert forall|j: int| 0 <= j < ab.len() implies conf_key_ok(#[trigger] ab[j].0)
        && conf_value_ok(ab[j].1) by {
        if j < a.len() {
            assert(ab[j] == a[j]);
            assert(conf_key_ok(a[j].0) && conf_value_ok(a[j].1));
        } else {
            let i = j - a.len();
            assert(ab.len() == a.len() + b.len());
            assert(0 <= i < b.len());
            assert(ab[j] == b[i]);
            assert(conf_key_ok(b[i].0) && conf_value_ok(b[i].1));
        }
    }
}

proof fn lemma_pairs_ok_opt(k: Seq<char>, o: Option<String>)
    requires
        conf_key_ok(k),
        o matches Some(v) ==> conf_value_ok(v@),
    ensures
        pairs_ok(opt_pair(k, o)),
{
}

/// A `key = value` line is one line, not ended by `'\r'`.
proof fn lemma_kv_line_single(k: Seq<char>, v: Seq<char>)
    requires
        conf_key_ok(k),
        conf_value_ok(v),
    ensures
        no_newline(kv_line(k, v)),
        kv_line(k, v).last() != '\r',
{
    let l = kv_line(k, v);
    assert forall|i: int| 0 <= i < l.len() implies l[i] != '\n' by {
        if i < k.len() {
            assert(l[i] == k[i]);
        } else if i >= k.len() + 3 {
            assert(l[i] == v[i - k.len() - 3]);
        }
    }
    if v.len() > 0 {
        assert(l.last() == v.last());
    }
}

proof fn lemma_unlines_two(a: Seq<char>, b: Seq<char>)
    ensures
        unlines(seq![a, b]) == a + seq!['\n'] + b + seq!['\n'],
{
    assert(seq![a, b] =~= seq![a] + seq![b]);
    lemma_unlines_append(seq![a], seq![b]);
    lemma_unlines_one(a);
    lemma_unlines_one(b);
    assert(a + seq!['\n'] + (b + seq!['\n']) =~= a + seq!['\n'] + b + seq!['\n']);
}

/// The header section's lines.
spec fn header_lines(s: Session) -> Seq<Seq<char>> {
    kv_lines(header_pairs(s))
}

/// The `[env]` section's lines, if there are variables.
spec fn env_section(s: Session) -> Seq<Seq<char>> {
    if s.env_vars@.len() == 0 {
        seq![]
    } else {
        seq![seq![], "[env]"@] + kv_lines(pair_views(s.env_vars@))
    }
}

/// The `[script]` section's lines, if there is a script body.
spec fn script_section(s: Session) -> Seq<Seq<char>> {
    match s.script_body {
        Some(b) => seq![seq![], "[script]"@] + lines(b@),
        None => seq![],
    }
}

/// The script section's text.
spec fn script_text(s: Session) -> Seq<char> {
    match s.script_body {
        Some(b) => unlines(seq![seq![], "[script]"@]) + (b@ + seq!['\n']),
        None => seq![],
    }
}

/// The header and `[env]` pairs all fit on their lines.
proof fn lemma_conf_pairs_ok(s: Session)
    requires
        conf_representable(s),
    ensures
        pairs_ok(header_pairs(s)),
        pairs_ok(pair_views(s.env_vars@)),
{
    reveal_strlit("dir");
    reveal_strlit("shell");
    reveal_strlit("init_script");
    let kd = "dir"@;
    let ks = "shell"@;
    let ki = "init_script"@;
    assert(conf_key_ok(kd));
    assert(conf_key_ok(ks));
    assert(conf_key_ok(ki));
    let p1 = opt_pair(kd, s.working_dir);
    let p2 = opt_pair(ks, s.shell);
    let p3 = opt_pair(ki, s.init_script);
    lemma_pairs_ok_opt(kd, s.working_dir);
    lemma_pairs_ok_opt(ks, s.shell);
    lemma_pairs_ok_opt(ki, s.init_script);
    lemma_pairs_ok_append(p1, p2);
    lemma_pairs_ok_append(p1 + p2, p3);
    let ev = pair_views(s.env_vars@);
    assert forall|j: int| 0 <= j < ev.len() implies conf_key_ok(#[trigger] ev[j].0)
        && conf_value_ok(ev[j].1) by {
        assert(ev[j] == (s.env_vars@[j].0@, s.env_vars@[j].1@));
    }
}

/// A session's config text is its header and `[env]` lines, each ended by
/// `'\n'`, then its script section.
proof fn lemma_conf_text_parts(s: Session)
    ensures
        conf_text(s) == unlines(header_lines(s) + env_section(s)) + script_text(s),
{
    reveal_strlit("dir");
    reveal_strlit("shell");
    reveal_strlit("init_script");
    reveal_strlit("dir = ");
    reveal_strlit("shell = ");
    reveal_strlit("init_script = ");
    reveal_strlit("\n[env]\n");
    reveal_strlit("\n[script]\n");
    reveal_strlit("[env]");
    reveal_strlit("[script]");
    let kd = "dir"@;
    let ks = "shell"@;
    let ki = "init_script"@;
    let p1 = opt_pair(kd, s.working_dir);
    let p2 = opt_pair(ks, s.shell);
    let p3 = opt_pair(ki, s.init_script);
    let ev = pair_views(s.env_vars@);
    let hl = header_lines(s);
    let el = env_section(s);
    assert("dir = "@ =~= kd + seq![' ', '=', ' ']);
    assert("shell = "@ =~= ks + seq![' ', '=', ' ']);
    assert("init_script = "@ =~= ki + seq![' ', '=', ' ']);
    lemma_opt_line(kd, "dir = "@, s.working_dir);
    lemma_opt_line(ks, "shell = "@, s.shell);
    lemma_opt_line(ki, "init_script = "@, s.init_script);
    assert(hl =~= kv_lines(p1) + kv_lines(p2) + kv_lines(p3));
    lemma_unlines_append(kv_lines(p1), kv_lines(p2));
    lemma_unlines_append(kv_lines(p1) + kv_lines(p2), kv_lines(p3));
    lemma_unlines_two(seq![], "[env]"@);
    lemma_unlines_two(seq![], "[script]"@);
    lemma_env_lines(ev);
    if ev.len() > 0 {
        lemma_unlines_append(seq![seq![], "[env]"@], kv_lines(ev));
        assert(unlines(el) =~= "\n[env]\n"@ + env_lines(ev));
    } else {
        assert(unlines(el) =~= Seq::<char>::empty());
    }
    lemma_unlines_append(hl, el);
    assert(conf_text(s) =~= unlines(hl + el) + script_text(s));
}

/// The lines of a session's config text.
proof fn lemma_conf_lines(s: Session)
    requires
        conf_representable(s),
    ensures
        lines(conf_text(s)) == header_lines(s) + env_section(s) + script_section(s),
{
    reveal_strlit("[env]");
    reveal_strlit("[script]");
    lemma_conf_pairs_ok(s);
    lemma_conf_text_parts(s);
    let hp = header_pairs(s);
    let ev = pair_views(s.env_vars@);
    let hl = header_lines(s);
    let el = env_section(s);
    assert forall|j: int| 0 <= j < (hl + el).len() implies no_newline(#[trigger] (hl + el)[j]) && (
    (hl + el)[j].len() == 0 || (hl + el)[j].last() != '\r') by {
        if j < hl.len() {
            assert((hl + el)[j] == hl[j]);
            assert(hl[j] == kv_line(hp[j].0, hp[j].1));
            assert(conf_key_ok(hp[j].0) && conf_value_ok(hp[j].1));
            lemma_kv_line_single(hp[j].0, hp[j].1);
        } else {
            let i = j - hl.len();
            assert((hl + el)[j] == el[i]);
            if i >= 2 {
                let m = i - 2;
                assert(el[i] == kv_lines(ev)[m]);
                assert(kv_lines(ev)[m] == kv_line(ev[m].0, ev[m].1));
                assert(conf_key_ok(ev[m].0) && conf_value_ok(ev[m].1));
                lemma_kv_line_single(ev[m].0, ev[m].1);
            }
        }
    }
    lemma_lines_unlines(hl + el, script_text(s));
    match s.script_body {
        Some(b) => {
            assert(!is_ws(b@.last()));
            lemma_lines_final_newline(b@);
            lemma_lines_unlines(seq![seq![], "[script]"@], b@ + seq!['\n']);
        },
        None => {
            assert(lines(script_text(s)) =~= Seq::<Seq<char>>::empty());
        },
    }
    assert(lines(script_text(s)) == script_section(s));
}

/// The scan of a session's config lines: its header pairs, its `[env]`
/// pairs, and its script body's lines.
proof fn lemma_conf_scan(s: Session)
    requires
        conf_representable(s),
    ensures
        ({
            let st = conf_scan(header_lines(s) + env_section(s) + script_section(s));
            &&& st.props == header_pairs(s)
            &&& st.env == pair_views(s.env_vars@)
            &&& st.script == match s.script_body {
                Some(b) => lines(b@),
                None => seq![],
            }
        }),
{
    lemma_conf_pairs_ok(s);
    let hp = header_pairs(s);
    let ev = pair_views(s.env_vars@);
    let hl = header_lines(s);
    let el = env_section(s);
    let sl = script_section(s);
    let all = hl + el + sl;
    lemma_scan_from_start(all);
    lemma_scan_append(scan_start(), hl + el, sl);
    lemma_scan_append(scan_start(), hl, el);
    lemma_kv_scan(scan_start(), hp);
    let s1 = scan_from(scan_start(), hl);
    assert(Seq::<(Seq<char>, Seq<char>)>::empty() + hp =~= hp);
    assert(s1 == (ConfScan { props: hp, ..scan_start() }));
    let s2 = scan_from(s1, el);
    if s.env_vars@.len() > 0 {
        let head: Seq<Seq<char>> = seq![seq![], "[env]"@];
        lemma_scan_append(s1, head, kv_lines(ev));
        lemma_scan_two(s1, seq![], "[env]"@);
        lemma_header_steps(s1);
        let se = ConfScan { section: Section::Env, ..s1 };
        lemma_kv_scan(se, ev);
        assert(Seq::<(Seq<char>, Seq<char>)>::empty() + ev =~= ev);
        assert(s2 == (ConfScan { env: ev, ..se }));
    } else {
        assert(ev =~= Seq::<(Seq<char>, Seq<char>)>::empty());
        assert(s2 == s1);
    }
    assert(s2.props == hp && s2.env == ev);
    assert(s2.script =~= Seq::<Seq<char>>::empty());
    assert(s2.section == Section::Top || s2.section == Section::Env);
    match s.script_body {
        Some(b) => {
            let head: Seq<Seq<char>> = seq![seq![], "[script]"@];
            lemma_scan_append(s2, head, lines(b@));
            lemma_scan_two(s2, seq![], "[script]"@);
            lemma_header_steps(s2);
            let ss = ConfScan { section: Section::Script, ..s2 };
            assert(conf_script_ok(b@));
            lemma_script_scan(ss, lines(b@));
            assert(s2.script + lines(b@) =~= lines(b@));
        },
        None => {
            assert(sl =~= Seq::<Seq<char>>::empty());
        },
    }
}

/// The config file of a session reads back as the session: the directory,
/// shell, init script, `[env]` variables (in order) and script body that
/// `to_conf_string` writes are those that `from_conf` reads from its text,
/// for every session whose values each fit on their config lines unchanged.
pub proof fn law_conf_round_trip(s: Session)
    requires
        conf_representable(s),
    ensures
        ({
            let (props, env, script) = spec_parse_conf(conf_text(s));
            &&& props == header_pairs(s)
            &&& lookup(props, "dir"@) == opt_view(s.working_dir)
            &&& lookup(props, "shell"@) == opt_view(s.shell)
            &&& lookup(props, "init_script"@) == opt_view(s.init_script)
            &&& env == pair_views(s.env_vars@)
            &&& script == opt_view(s.script_body)
        }),
{
    lemma_conf_lines(s);
    lemma_conf_scan(s);
    reveal_strlit("dir");
    reveal_strlit("shell");
    reveal_strlit("init_script");
    let kd = "dir"@;
    let ks = "shell"@;
    let ki = "init_script"@;
    let p1 = opt_pair(kd, s.working_dir);
    let p2 = opt_pair(ks, s.shell);
    let p3 = opt_pair(ki, s.init_script);
    let st = conf_scan(lines(conf_text(s)));
    assert(st.props == p1 + p2 + p3);
    let hp = p1 + p2 + p3;
    assert(kd.len() == 3 && ks.len() == 5 && ki.len() == 11);
    assert forall|i: int, j: int| 0 <= i < j < hp.len() implies #[trigger] hp[i].0 != #[trigger] hp[j].0 by {
        let a = p1.len() as int;
        let b = a + p2.len();
        assert(p1.len() <= 1 && p2.len() <= 1 && p3.len() <= 1);
        if i < a {
            assert(hp[i] == p1[i]);
        } else if i < b {
            assert(hp[i] == p2[i - a]);
        } else {
            assert(hp[i] == p3[i - b]);
        }
        if j < a {
            assert(hp[j] == p1[j]);
        } else if j < b {
            assert(hp[j] == p2[j - a]);
        } else {
            assert(hp[j] == p3[j - b]);
        }
    }
    lemma_latest_of_distinct(hp);
    lemma_lookup_append(p1 + p2, p3, kd);
    lemma_lookup_append(p1, p2, kd);
    lemma_lookup_append(p1 + p2, p3, ks);
    lemma_lookup_append(p1, p2, ks);
    lemma_lookup_append(p1 + p2, p3, ki);
    lemma_lookup_append(p1, p2, ki);
    lemma_lookup_opt_pair(kd, s.working_dir, kd);
    lemma_lookup_opt_pair(ks, s.shell, kd);
    lemma_lookup_opt_pair(ki, s.init_script, kd);
    lemma_lookup_opt_pair(kd, s.working_dir, ks);
    lemma_lookup_opt_pair(ks, s.shell, ks);
    lemma_lookup_opt_pair(ki, s.init_script, ks);
    lemma_lookup_opt_pair(kd, s.working_dir, ki);
    lemma_lookup_opt_pair(ks, s.shell, ki);
    lemma_lookup_opt_pair(ki, s.init_script, ki);
    assert(kd.len() == 3 && ks.len() == 5 && ki.len() == 11);
    assert(kd != ks && kd != ki && ks != ki);
    match s.script_body {
        Some(b) => {
            let bv = b@;
            assert(conf_script_ok(bv));
            lemma_join_lines(bv);
            lemma_trim_end_at(bv, bv.len() as int);
            assert(bv.take(bv.len() as int) =~= bv);
            assert(lines(bv).len() > 0);
            assert(script_of(st.script) == Some(bv));
        },
        None => {},
    }
}

// ── Properties: each key once ─────────────────────────────────────────────

/// No key occurs twice.
pub open spec fn distinct_keys(ps: Seq<(Seq<char>, Seq<char>)>) -> bool {
    forall|i: int, j: int| 0 <= i < j < ps.len() ==> #[trigger] ps[i].0 != #[trigger] ps[j].0
}

/// Some pair has the key `k`.
pub open spec fn has_key(ps: Seq<(Seq<char>, Seq<char>)>, k: Seq<char>) -> bool {
    exists|i: int| 0 <= i < ps.len() && #[trigger] ps[i].0 == k
}

proof fn lemma_without_key_absent(ps: Seq<(Seq<char>, Seq<char>)>, k: Seq<char>)
    requires
        !has_key(ps, k),
    ensures
        without_key(ps, k) == ps,
    decreases ps.len(),
{
    if ps.len() > 0 {
        assert(ps[ps.len() - 1].0 != k);
        assert(!has_key(ps.drop_last(), k)) by {
            if has_key(ps.drop_last(), k) {
                let i = choose|i: int| 0 <= i < ps.drop_last().len() && #[trigger] ps.drop_last()[i].0 == k;
                assert(ps[i] == ps.drop_last()[i]);
            }
        }
        lemma_without_key_absent(ps.drop_last(), k);
        assert(ps.drop_last().push(ps.last()) =~= ps);
    }
}

proof fn lemma_latest_of_distinct(ps: Seq<(Seq<char>, Seq<char>)>)
    requires
        distinct_keys(ps),
    ensures
        latest(ps) == ps,
    decreases ps.len(),
{
    if ps.len() > 0 {
        let init = ps.drop_last();
        assert(distinct_keys(init)) by {
            assert forall|i: int, j: int| 0 <= i < j < init.len() implies #[trigger] init[i].0
                != #[trigger] init[j].0 by {
                assert(init[i] == ps[i] && init[j] == ps[j]);
            }
        }
        lemma_latest_of_distinct(init);
        assert(!has_key(init, ps.last().0)) by {
            if has_key(init, ps.last().0) {
                let i = choose|i: int| 0 <= i < init.len() && #[trigger] init[i].0 == ps.last().0;
                assert(ps[i] == init[i]);
                assert(ps[i].0 != ps[ps.len() - 1].0);
            }
        }
        lemma_without_key_absent(init, ps.last().0);
        assert(init.push(ps.last()) =~= ps);
    }
}

proof fn lemma_without_key_keys(ps: Seq<(Seq<char>, Seq<char>)>, k: Seq<char>)
    ensures
        !has_key(without_key(ps, k), k),
        forall|x: Seq<char>| has_key(without_key(ps, k), x) ==> has_key(ps, x),
        distinct_keys(ps) ==> distinct_keys(without_key(ps, k)),
    decreases ps.len(),
{
    if ps.len() > 0 {
        let init = ps.drop_last();
        let w = without_key(init, k);
        lemma_without_key_keys(init, k);
        assert forall|x: Seq<char>| has_key(init, x) implies has_key(ps, x) by {
            let i = choose|i: int| 0 <= i < init.len() && #[trigger] init[i].0 == x;
            assert(ps[i] == init[i]);
        }
        if distinct_keys(ps) {
            assert forall|i: int, j: int| 0 <= i < j < init.len() implies #[trigger] init[i].0
                != #[trigger] init[j].0 by {
                assert(init[i] == ps[i] && init[j] == ps[j]);
            }
        }
        if ps.last().0 != k {
            let r = w.push(ps.last());
            assert forall|x: Seq<char>| has_key(r, x) implies has_key(ps, x) by {
                let i = choose|i: int| 0 <= i < r.len() && #[trigger] r[i].0 == x;
                if i < w.len() {
                    assert(r[i] == w[i]);
                    assert(has_key(w, x));
                } else {
                    assert(ps[ps.len() - 1].0 == x);
                }
            }
            assert(!has_key(r, k)) by {
                if has_key(r, k) {
                    let i = choose|i: int| 0 <= i < r.len() && #[trigger] r[i].0 == k;
                    if i < w.len() {
                        assert(r[i] == w[i]);
                        assert(has_key(w, k));
                    }
                }
            }
            if distinct_keys(ps) {
                assert(!has_key(init, ps.last().0)) by {
                    if has_key(init, ps.last().0) {
                        let i = choose|i: int| 0 <= i < init.len() && #[trigger] init[i].0
                            == ps.last().0;
                        assert(ps[i] == init[i]);
                        assert(ps[i].0 != ps[ps.len() - 1].0);
                    }
                }
                assert forall|i: int, j: int| 0 <= i < j < r.len() implies #[trigger] r[i].0
                    != #[trigger] r[j].0 by {
                    assert(r[i] == w[i]);
                    if j < w.len() {
                        assert(r[j] == w[j]);
                    } else {
                        if r[i].0 == r[j].0 {
                            assert(has_key(w, ps.last().0));
                        }
                    }
                }
            }
        }
    }
}

proof fn lemma_lookup_without_key(ps: Seq<(Seq<char>, Seq<char>)>, k: Seq<char>, key: Seq<char>)
    ensures
        lookup(without_key(ps, k), key) == if key == k {
            None
        } else {
            lookup(ps, key)
        },
    decreases ps.len(),
{
    if ps.len() > 0 {
        lemma_lookup_without_key(ps.drop_last(), k, key);
        let w = without_key(ps.drop_last(), k);
        if ps.last().0 != k {
            assert(w.push(ps.last()).drop_last() =~= w);
        }
    }
}

/// Keeping each property key once, with its last value, changes no lookup:
/// a key reads the value of its last assignment either way.
pub proof fn law_latest_lookup(ps: Seq<(Seq<char>, Seq<char>)>, key: Seq<char>)
    ensures
        lookup(latest(ps), key) == lookup(ps, key),
    decreases ps.len(),
{
    if ps.len() > 0 {
        law_latest_lookup(ps.drop_last(), key);
        let w = without_key(latest(ps.drop_last()), ps.last().0);
        assert(w.push(ps.last()).drop_last() =~= w);
        lemma_lookup_without_key(latest(ps.drop_last()), ps.last().0, key);
    }
}

/// The properties a config file is read into hold each key once.
pub proof fn law_conf_props_distinct(content: Seq<char>)
    ensures
        distinct_keys(spec_parse_conf(content).0),
{
    lemma_latest_distinct(conf_scan(lines(content)).props);
}

proof fn lemma_latest_distinct(ps: Seq<(Seq<char>, Seq<char>)>)
    ensures
        distinct_keys(latest(ps)),
    decreases ps.len(),
{
    if ps.len() > 0 {
        let l = latest(ps.drop_last());
        let x = ps.last();
        lemma_latest_distinct(ps.drop_last());
        lemma_without_key_keys(l, x.0);
        let w = without_key(l, x.0);
        let r = w.push(x);
        assert forall|i: int, j: int| 0 <= i < j < r.len() implies #[trigger] r[i].0
            != #[trigger] r[j].0 by {
            assert(r[i] == w[i]);
            if j < w.len() {
                assert(r[j] == w[j]);
            } else if r[i].0 == r[j].0 {
                assert(has_key(w, x.0));
            }
        }
    }
}

// ── Comments ───────────────────────────────────────────────────────────────

/// A line whose trimmed text starts with `#`.
pub open spec fn comment_line(l: Seq<char>) -> bool {
    trim(l).len() > 0 && trim(l)[0] == '#'
}

/// Outside `[script]`, a comment line changes nothing.
pub proof fn law_comment_step(st: ConfScan, l: Seq<char>)
    requires
        st.section != Section::Script,
        comment_line(l),
    ensures
        conf_step(st, l) == st,
{
    reveal_strlit("[env]");
    reveal_strlit("[script]");
    lemma_not_bracket(trim(l), "[env]"@);
    lemma_not_bracket(trim(l), "[script]"@);
}

/// Putting a comment line anywhere outside `[script]` leaves the config's
/// reading unchanged: its properties, `[env]` variables, script and section.
pub proof fn law_comment_insert(a: Seq<Seq<char>>, l: Seq<char>, b: Seq<Seq<char>>)
    requires
        conf_scan(a).section != Section::Script,
        comment_line(l),
    ensures
        conf_scan(a + seq![l] + b) == conf_scan(a + b),
{
    lemma_scan_from_start(a + seq![l] + b);
    lemma_scan_from_start(a + b);
    lemma_scan_from_start(a);
    lemma_scan_append(scan_start(), a + seq![l], b);
    lemma_scan_append(scan_start(), a, seq![l]);
    lemma_scan_append(scan_start(), a, b);
    let st = scan_from(scan_start(), a);
    assert(seq![l].drop_last() =~= Seq::<Seq<char>>::empty());
    assert(scan_from(st, Seq::<Seq<char>>::empty()) == st);
    assert(scan_from(st, seq![l]) == conf_step(st, l));
    law_comment_step(st, l);
}

/// The first character of a trimmed text is no whitespace.
proof fn lemma_trim_start_first(s: Seq<char>)
    ensures
        trim_start(s).len() > 0 ==> !is_ws(trim_start(s)[0]),
    decreases s.len(),
{
    if s.len() > 0 && is_ws(s[0]) {
        lemma_trim_start_first(s.drop_first());
    }
}

/// `trim_end` keeps a prefix.
proof fn lemma_trim_end_prefix(s: Seq<char>)
    ensures
        trim_end(s).len() <= s.len(),
        trim_end(s) == s.take(trim_end(s).len() as int),
    decreases s.len(),
{
    if s.len() > 0 && is_ws(s.last()) {
        lemma_trim_end_prefix(s.drop_last());
        assert(s.drop_last().take(trim_end(s).len() as int) =~= s.take(trim_end(s).len() as int));
    } else {
        assert(s.take(s.len() as int) =~= s);
    }
}

/// The key of a `key = value` line starts as the trimmed line does.
proof fn lemma_assignment_key(t: Seq<char>)
    requires
        t.len() > 0,
        !is_ws(t[0]),
    ensures
        assignment(t) matches Some(kv) ==> kv.0.len() > 0 && kv.0[0] == t[0],
{
    let eq = crate::text::first_index(t, '=');
    if eq < t.len() && eq > 0 {
        let u = t.take(eq as int);
        assert(u[0] == t[0]);
        lemma_trim_start_at(u, 0);
        assert(u.skip(0) =~= u);
        lemma_trim_end_prefix(u);
        let k = trim(u);
        if k.len() > 0 {
            assert(k[0] == u[0]);
        }
    } else if eq == 0 {
        assert(t.take(0) =~= Seq::<char>::empty());
        lemma_trim_start_at(Seq::<char>::empty(), 0);
        lemma_trim_end_at(Seq::<char>::empty(), 0);
    }
}

/// Every key is non-empty and starts with no `#`.
pub open spec fn keys_no_comment(ps: Seq<(Seq<char>, Seq<char>)>) -> bool {
    forall|i: int| 0 <= i < ps.len() ==> (#[trigger] ps[i]).0.len() > 0 && ps[i].0[0] != '#'
}

proof fn lemma_scan_keys(ls: Seq<Seq<char>>)
    ensures
        keys_no_comment(conf_scan(ls).props),
        keys_no_comment(conf_scan(ls).env),
    decreases ls.len(),
{
    if ls.len() > 0 {
        lemma_scan_keys(ls.drop_last());
        let st = conf_scan(ls.drop_last());
        let l = ls.last();
        let t = trim(l);
        lemma_trim_start_first(l);
        lemma_trim_end_prefix(trim_start(l));
        if t.len() > 0 {
            assert(t[0] == trim_start(l)[0]);
            lemma_assignment_key(t);
        }
        let r = conf_step(st, l);
        assert forall|i: int| 0 <= i < r.props.len() implies (#[trigger] r.props[i]).0.len() > 0
            && r.props[i].0[0] != '#' by {
            if i < st.props.len() {
                assert(st.props[i].0.len() > 0 && st.props[i].0[0] != '#');
            }
        }
        assert forall|i: int| 0 <= i < r.env.len() implies (#[trigger] r.env[i]).0.len() > 0
            && r.env[i].0[0] != '#' by {
            if i < st.env.len() {
                assert(st.env[i].0.len() > 0 && st.env[i].0[0] != '#');
            }
        }
    }
}

proof fn lemma_latest_keys(ps: Seq<(Seq<char>, Seq<char>)>)
    ensures
        forall|x: Seq<char>| has_key(latest(ps), x) ==> has_key(ps, x),
    decreases ps.len(),
{
    if ps.len() > 0 {
        let init = ps.drop_last();
        lemma_latest_keys(init);
        lemma_without_key_keys(latest(init), ps.last().0);
        let w = without_key(latest(init), ps.last().0);
        let r = w.push(ps.last());
        assert forall|x: Seq<char>| has_key(r, x) implies has_key(ps, x) by {
            let i = choose|i: int| 0 <= i < r.len() && #[trigger] r[i].0 == x;
            if i < w.len() {
                assert(r[i] == w[i]);
                assert(has_key(w, x));
                assert(has_key(init, x));
                let j = choose|j: int| 0 <= j < init.len() && #[trigger] init[j].0 == x;
                assert(ps[j] == init[j]);
            } else {
                assert(ps[ps.len() - 1].0 == x);
            }
        }
    }
}

/// Comment lines add nothing: every property key and every `[env]` name a
/// config is read into is non-empty and does not start with `#`.
pub proof fn law_no_comment_keys(content: Seq<char>)
    ensures
        keys_no_comment(spec_parse_conf(content).0),
        keys_no_comment(spec_parse_conf(content).1),
{
    let st = conf_scan(lines(content));
    lemma_scan_keys(lines(content));
    lemma_latest_keys(st.props);
    let lp = latest(st.props);
    assert forall|i: int| 0 <= i < lp.len() implies (#[trigger] lp[i]).0.len() > 0 && lp[i].0[0]
        != '#' by {
        let x = lp[i].0;
        assert(lp[i].0 == x);
        assert(has_key(lp, x));
        assert(has_key(st.props, x));
        let j = choose|j: int| 0 <= j < st.props.len() && #[trigger] st.props[j].0 == x;
        assert(keys_no_comment(st.props));
        let pj = st.props[j];
        assert(pj.0.len() > 0 && pj.0[0] != '#');
    }
}

} // verus!
