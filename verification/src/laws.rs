//! Properties that hold across the library's operations.
use vstd::prelude::*;

use crate::app::{
    placeholder, spec_pty_size, spec_template_vars, template_scan, valid_var, AppView, KeyEvent,
    ModeView,
};
use crate::notes::{spec_sort_notes, lowercase, lower_names, Note};
use crate::sorting::{keyed, keys_sorted, lemma_stable_sorted_sorted, lex_le, stable_sorted, insert_pos, lemma_insert_pos_bound};
use crate::text::{
    all_digits, dec_value, decimal, digit_char, digits_part, first_index, is_digit,
    lemma_first_index_bound, spec_parse_usize,
};
use crate::ui::spec_truncate;

verus! {

// ── Numbers typed in the command bar ───────────────────────────────────────

proof fn lemma_decimal(n: nat)
    ensures
        decimal(n).len() > 0,
        all_digits(decimal(n)),
        dec_value(decimal(n)) == n,
    decreases n,
{
    if n < 10 {
        let c = digit_char(n);
        assert(seq![c].drop_last() =~= seq![]);
        assert((c as nat) == 48 + n);
        assert(dec_value(seq![c]) == dec_value(seq![c].drop_last()) * 10 + (c as nat - 48) as nat);
    } else {
        lemma_decimal(n / 10);
        let d = decimal(n / 10);
        let c = digit_char(n % 10);
        assert(d.push(c).drop_last() =~= d);
        assert((c as nat) == 48 + n % 10);
        vstd::arithmetic::div_mod::lemma_fundamental_div_mod(n as int, 10);
        assert(dec_value(d.push(c)) == dec_value(d) * 10 + (c as nat - 48) as nat);
        assert(dec_value(d) * 10 + n % 10 == n);
        assert forall|i: int| 0 <= i < d.push(c).len() implies is_digit(#[trigger] d.push(c)[i]) by {
            if i < d.len() {
                assert(d.push(c)[i] == d[i]);
            }
        }
    }
}

/// A block number written in decimal is read back as that number: typing
/// the number of a block into the command bar selects that block.
pub proof fn law_block_number_round_trip(n: usize)
    ensures
        spec_parse_usize(decimal(n as nat)) == Some(n as nat),
{
    lemma_decimal(n as nat);
    let d = decimal(n as nat);
    assert(is_digit(d[0]));
    assert(digits_part(d) == d);
}

// ── Template variables ─────────────────────────────────────────────────────

/// `v` follows a `<` at index `k` of `s`.
pub open spec fn opens_at(s: Seq<char>, v: Seq<char>, k: int) -> bool {
    0 <= k && k + 1 + v.len() <= s.len() && s[k] == '<' && s.subrange(k + 1, k + 1 + v.len()) == v
}

/// No variable stands twice.
pub open spec fn distinct(vs: Seq<Seq<char>>) -> bool {
    forall|i: int, j: int| 0 <= i < j < vs.len() ==> vs[i] != vs[j]
}

proof fn lemma_opens_shift(s: Seq<char>, d: int, v: Seq<char>, k: int)
    requires
        0 <= d <= s.len(),
        opens_at(s.skip(d), v, k),
    ensures
        opens_at(s, v, k + d),
{
    assert(s.skip(d).subrange(k + 1, k + 1 + v.len()) =~= s.subrange(k + d + 1, k + d + 1 + v.len()));
}

#[verifier::rlimit(40)]
proof fn lemma_template_scan(s: Seq<char>, found: Seq<Seq<char>>)
    ensures
        ({
            let r = template_scan(s, found);
            &&& r.len() >= found.len()
            &&& r.take(found.len() as int) == found
            &&& distinct(found) ==> distinct(r)
            &&& forall|i: int|
                found.len() <= i < r.len() ==> valid_var(#[trigger] r[i]) && exists|k: int|
                    opens_at(s, r[i], k)
        }),
    decreases s.len(),
{
    let r = template_scan(s, found);
    if s.len() == 0 {
        assert(r.take(found.len() as int) =~= found);
    } else if s[0] != '<' {
        lemma_template_scan(s.drop_first(), found);
        assert(s.drop_first() =~= s.skip(1));
        assert forall|i: int| found.len() <= i < r.len() implies valid_var(#[trigger] r[i])
            && exists|k: int| opens_at(s, r[i], k) by {
            let k = choose|k: int| opens_at(s.skip(1), r[i], k);
            lemma_opens_shift(s, 1, r[i], k);
        }
    } else {
        let rest = s.drop_first();
        lemma_first_index_bound(rest, '>');
        let j = first_index(rest, '>');
        let name = rest.take(j as int);
        let after = if j < rest.len() {
            rest.skip(j + 1 as int)
        } else {
            seq![]
        };
        let found2 = if valid_var(name) && !found.contains(name) {
            found.push(name)
        } else {
            found
        };
        lemma_template_scan(after, found2);
        assert(r == template_scan(after, found2));
        assert(found2.take(found.len() as int) =~= found);
        assert(r.take(found2.len() as int).take(found.len() as int) =~= r.take(found.len() as int));
        if distinct(found) {
            assert forall|a: int, b: int| 0 <= a < b < found2.len() implies found2[a] != found2[b] by {
                if b == found.len() {
                    assert(found2[a] == found[a]);
                    if found2[a] == found2[b] {
                        assert(found.contains(name));
                    }
                }
            }
        }
        let d: int = if j < rest.len() {
            j as int + 2
        } else {
            s.len() as int
        };
        assert(after =~= s.skip(d));
        assert(opens_at(s, name, 0)) by {
            assert(s.subrange(1, 1 + name.len() as int) =~= name);
        }
        assert forall|i: int| found.len() <= i < r.len() implies valid_var(#[trigger] r[i])
            && exists|k: int| opens_at(s, r[i], k) by {
            if i < found2.len() {
                assert(found2[i] == name);
                assert(r[i] == r.take(found2.len() as int)[i]);
            } else {
                let k = choose|k: int| opens_at(after, r[i], k);
                lemma_opens_shift(s, d, r[i], k);
            }
        }
    }
}

/// The variables a block asks for are distinct, each a valid name that
/// follows a `<` in the block: a block prompts once for each `<variable>`
/// placeholder it holds.
pub proof fn law_template_vars(content: Seq<char>)
    ensures
        distinct(spec_template_vars(content)),
        forall|i: int|
            0 <= i < spec_template_vars(content).len() ==> valid_var(
                #[trigger] spec_template_vars(content)[i],
            ) && exists|k: int| opens_at(content, spec_template_vars(content)[i], k),
{
    lemma_template_scan(content, seq![]);
}

// ── Navigation ─────────────────────────────────────────────────────────────

/// Moving down the project list and back up returns to the same project,
/// and so does moving up and back down; the selection stays in the list.
pub proof fn law_project_navigation(v: AppView)
    requires
        0 < v.projects.len() <= usize::MAX,
        v.project_selected < v.projects.len(),
    ensures
        v.select_next_project().select_prev_project() == v,
        v.select_prev_project().select_next_project() == v,
        v.select_next_project().project_selected < v.projects.len(),
        v.select_prev_project().project_selected < v.projects.len(),
{
    let n = v.projects.len() as int;
    let p = v.project_selected as int;
    if p + 1 < n {
        vstd::arithmetic::div_mod::lemma_small_mod((p + 1) as nat, n as nat);
    } else {
        vstd::arithmetic::div_mod::lemma_mod_self_0(n);
    }
    if p > 0 {
        vstd::arithmetic::div_mod::lemma_small_mod(p as nat, n as nat);
    }
    vstd::arithmetic::div_mod::lemma_mod_self_0(n);
    let w = v.select_next_project();
    assert(w.project_selected == (if p + 1 < n { p + 1 } else { 0 }));
    assert(w.select_prev_project().project_selected == v.project_selected);
    let u = v.select_prev_project();
    assert(u.project_selected == (if p == 0 { n - 1 } else { p - 1 }));
    assert(u.select_next_project().project_selected == v.project_selected);
}

/// Moving down the notes list and back up returns to the same note (with
/// the first block focused and the note unscrolled), and so does moving up
/// and back down; the selection stays in the list.
pub proof fn law_note_navigation(v: AppView)
    requires
        0 < v.notes.len() <= usize::MAX,
        v.notes_selected < v.notes.len(),
    ensures
        v.select_next_note().select_prev_note().notes_selected == v.notes_selected,
        v.select_prev_note().select_next_note().notes_selected == v.notes_selected,
        v.select_next_note().notes_selected < v.notes.len(),
        v.select_prev_note().notes_selected < v.notes.len(),
{
    let n = v.notes.len() as int;
    let p = v.notes_selected as int;
    if p + 1 < n {
        vstd::arithmetic::div_mod::lemma_small_mod((p + 1) as nat, n as nat);
    } else {
        vstd::arithmetic::div_mod::lemma_mod_self_0(n);
    }
    if p > 0 {
        vstd::arithmetic::div_mod::lemma_small_mod(p as nat, n as nat);
    }
    vstd::arithmetic::div_mod::lemma_mod_self_0(n);
    let w = v.select_next_note();
    assert(w.notes_selected == (if p + 1 < n { p + 1 } else { 0 }));
    let u = v.select_prev_note();
    assert(u.notes_selected == (if p == 0 { n - 1 } else { p - 1 }));
}

/// Moving to the next code block and back returns to the same block, and
/// so does moving back and on; the focus stays among the note's blocks.
pub proof fn law_block_navigation(v: AppView)
    requires
        v.selected_note() is Some,
        v.block_focused < v.selected_note()->0.code_blocks@.len() <= usize::MAX,
    ensures
        v.next_block().prev_block().block_focused == v.block_focused,
        v.prev_block().next_block().block_focused == v.block_focused,
        v.next_block().block_focused < v.selected_note()->0.code_blocks@.len(),
        v.prev_block().block_focused < v.selected_note()->0.code_blocks@.len(),
{
    let n = v.selected_note()->0.code_blocks@.len() as int;
    let p = v.block_focused as int;
    if p + 1 < n {
        vstd::arithmetic::div_mod::lemma_small_mod((p + 1) as nat, n as nat);
    } else {
        vstd::arithmetic::div_mod::lemma_mod_self_0(n);
    }
    if p > 0 {
        vstd::arithmetic::div_mod::lemma_small_mod(p as nat, n as nat);
    }
    vstd::arithmetic::div_mod::lemma_mod_self_0(n);
    let w = v.next_block();
    assert(w.block_focused == (if p + 1 < n { p + 1 } else { 0 }));
    assert(w.selected_note() == v.selected_note());
    let u = v.prev_block();
    assert(u.block_focused == (if p == 0 { n - 1 } else { p - 1 }));
    assert(u.selected_note() == v.selected_note());
}

// ── Status messages ────────────────────────────────────────────────────────

/// The state after `n` ticks.
pub open spec fn ticks(v: AppView, n: nat) -> AppView
    decreases n,
{
    if n == 0 {
        v
    } else {
        ticks(v, (n - 1) as nat).tick_status()
    }
}

/// A status message shows for exactly 40 ticks: after `n < 40` ticks it is
/// there with `40 - n` ticks left, and from the 40th tick on it is gone with
/// none left.
pub proof fn law_status_lifetime(v: AppView, msg: Seq<char>, n: nat)
    ensures
        n < 40 ==> ticks(v.set_status(msg), n).status_msg == Some(msg) && ticks(
            v.set_status(msg),
            n,
        ).status_ttl == 40 - n,
        n >= 40 ==> ticks(v.set_status(msg), n).status_msg is None && ticks(
            v.set_status(msg),
            n,
        ).status_ttl == 0,
    decreases n,
{
    lemma_ticks_ttl(v.set_status(msg), n);
}

proof fn lemma_ticks_ttl(w: AppView, n: nat)
    requires
        w.status_ttl == 40,
        w.status_msg is Some,
    ensures
        n < 40 ==> ticks(w, n).status_msg == w.status_msg && ticks(w, n).status_ttl == 40 - n,
        n >= 40 ==> ticks(w, n).status_msg is None && ticks(w, n).status_ttl == 0,
    decreases n,
{
    if n > 0 {
        lemma_ticks_ttl(w, (n - 1) as nat);
    }
}

// ── Layout ─────────────────────────────────────────────────────────────────

/// The terminal gets at least one row and one column, and never more than
/// the screen has.
pub proof fn law_pty_size_bounds(total_rows: u16, total_cols: u16, notes_open: bool)
    ensures
        ({
            let (rows, cols) = spec_pty_size(total_rows, total_cols, notes_open);
            &&& rows >= 1 && cols >= 1
            &&& total_rows >= 1 ==> rows <= total_rows
            &&& total_cols >= 1 ==> cols <= total_cols
        }),
{
}

/// A truncated name has at most the allowed number of characters (at least
/// one) and starts as the name does.
pub proof fn law_truncate(s: Seq<char>, max_chars: nat)
    ensures
        spec_truncate(s, max_chars).len() <= if max_chars == 0 {
            1
        } else {
            max_chars
        },
        spec_truncate(s, max_chars).len() < s.len() + 1,
        s.len() <= max_chars ==> spec_truncate(s, max_chars) == s,
{
}

// ── Notes order ────────────────────────────────────────────────────────────

proof fn lemma_sorted_keys_match(s: Seq<(Seq<char>, Note)>)
    requires
        forall|i: int| 0 <= i < s.len() ==> (#[trigger] s[i]).0 == lowercase(s[i].1.name@),
    ensures
        forall|i: int|
            0 <= i < stable_sorted(s).len() ==> (#[trigger] stable_sorted(s)[i]).0
                == lowercase(stable_sorted(s)[i].1.name@),
        stable_sorted(s).len() == s.len(),
        stable_sorted(s).map_values(|p: (Seq<char>, Note)| p.1).to_multiset() == s.map_values(
            |p: (Seq<char>, Note)| p.1,
        ).to_multiset(),
    decreases s.len(),
{
    broadcast use vstd::multiset::group_multiset_axioms, vstd::seq_lib::group_to_multiset_ensures;

    if s.len() > 0 {
        let t = s.drop_last();
        lemma_sorted_keys_match(t);
        let r = stable_sorted(t);
        lemma_insert_pos_bound(r, s.last().0);
        let p = insert_pos(r, s.last().0) as int;
        let ri = r.insert(p, s.last());
        assert forall|i: int| 0 <= i < ri.len() implies (#[trigger] ri[i]).0 == lowercase(
            ri[i].1.name@,
        ) by {
            if i < p {
                assert(ri[i] == r[i]);
            } else if i > p {
                assert(ri[i] == r[i - 1]);
            }
        }
        let f = |q: (Seq<char>, Note)| q.1;
        assert(ri.map_values(f) =~= r.map_values(f).insert(p, s.last().1));
        vstd::seq_lib::to_multiset_insert(r.map_values(f), p, s.last().1);
        assert(s.map_values(f) =~= t.map_values(f).push(s.last().1));
        vstd::seq_lib::to_multiset_build(t.map_values(f), s.last().1);
    }
}

/// The notes list is in order of lower-case name and holds exactly the
/// notes it was given, each as often as given.
pub proof fn law_notes_sorted(notes: Seq<Note>)
    ensures
        forall|i: int, j: int|
            0 <= i < j < spec_sort_notes(notes).len() ==> lex_le(
                lowercase((#[trigger] spec_sort_notes(notes)[i]).name@),
                lowercase((#[trigger] spec_sort_notes(notes)[j]).name@),
            ),
        spec_sort_notes(notes).to_multiset() == notes.to_multiset(),
{
    let s = keyed(lower_names(notes), notes);
    assert forall|i: int| 0 <= i < s.len() implies (#[trigger] s[i]).0 == lowercase(
        s[i].1.name@,
    ) by {}
    lemma_sorted_keys_match(s);
    lemma_stable_sorted_sorted(s);
    let r = stable_sorted(s);
    assert(s.map_values(|p: (Seq<char>, Note)| p.1) =~= notes);
    assert forall|i: int, j: int| 0 <= i < j < spec_sort_notes(notes).len() implies lex_le(
        lowercase((#[trigger] spec_sort_notes(notes)[i]).name@),
        lowercase((#[trigger] spec_sort_notes(notes)[j]).name@),
    ) by {
        assert(keys_sorted(r));
        assert(lex_le(r[i].0, r[j].0));
    }
}

// ── Keys ───────────────────────────────────────────────────────────────────

/// The command bar is closed or holds digits only.
pub open spec fn command_bar_ok(v: AppView) -> bool {
    match v.command_bar {
        Some(b) => all_digits(b),
        None => true,
    }
}

/// The command bar only ever holds digits: whatever key is pressed, a
/// closed or all-digit command bar stays closed or all-digit.
pub proof fn law_command_bar_digits(v: AppView, key: KeyEvent)
    requires
        command_bar_ok(v),
    ensures
        command_bar_ok(v.handle_key(key).0),
{
    if let Some(b) = v.command_bar {
        let b2 = crate::app::pop_char(b);
        assert forall|i: int| 0 <= i < b2.len() implies is_digit(#[trigger] b2[i]) by {
            assert(b2[i] == b[i]);
        }
        assert forall|c: char, i: int|
            '0' <= c && c <= '9' && 0 <= i < b.push(c).len() implies is_digit(#[trigger] b.push(c)[i]) by {
            if i < b.len() {
                assert(b.push(c)[i] == b[i]);
            }
        }
    }
    assert(all_digits(seq![]));
}

/// A block with `<variable>` placeholders is not run at once: the values
/// are asked for first, one prompt per variable, starting at the first;
/// a block without placeholders is handed to the shell as it is.
pub proof fn law_placeholders_prompt_first(v: AppView, content: Seq<char>)
    ensures
        spec_template_vars(content).len() > 0 ==> {
            let w = v.execute_content(content);
            &&& w.pending_exec == v.pending_exec
            &&& w.mode matches ModeView::TemplateInput { template, vars, values, current }
                && template == content && vars == spec_template_vars(content) && current == 0
                && values.len() == vars.len()
        },
        spec_template_vars(content).len() == 0 ==> v.execute_content(content).pending_exec == Some(
            content,
        ),
{
}

} // verus!
