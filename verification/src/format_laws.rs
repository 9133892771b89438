//! What keys send to the shell, how placeholders are filled, and how a
//! note's name and title are read, stated over all inputs.
use vstd::prelude::*;

use crate::app::{fill_template, placeholder, spec_key_bytes, valid_var, KeyCode, KeyEvent};
use crate::notes::{fm_name, heading_mark, line_name, name_key, title_of};
use crate::text::{
    is_ws, lemma_trim_end_at, lemma_trim_start_at, occurs_at, spec_replace, starts_with,
    strip_prefix, trim,
};

verus! {

// ── Keys typed into the terminal ───────────────────────────────────────────

/// The arrow keys send the cursor sequences `ESC [ A` (up), `ESC [ B`
/// (down), `ESC [ C` (right) and `ESC [ D` (left), whatever modifiers are
/// held, and so four different sequences.
pub proof fn law_arrow_key_bytes(key: KeyEvent)
    ensures
        key.code == KeyCode::Up ==> spec_key_bytes(key) == seq![27u8, 91u8, 65u8],
        key.code == KeyCode::Down ==> spec_key_bytes(key) == seq![27u8, 91u8, 66u8],
        key.code == KeyCode::Right ==> spec_key_bytes(key) == seq![27u8, 91u8, 67u8],
        key.code == KeyCode::Left ==> spec_key_bytes(key) == seq![27u8, 91u8, 68u8],
{
}

/// Two arrow keys send the same bytes only if they are the same key.
pub proof fn law_arrow_keys_distinct(a: KeyEvent, b: KeyEvent)
    requires
        a.code == KeyCode::Up || a.code == KeyCode::Down || a.code == KeyCode::Right || a.code
            == KeyCode::Left,
        b.code == KeyCode::Up || b.code == KeyCode::Down || b.code == KeyCode::Right || b.code
            == KeyCode::Left,
        spec_key_bytes(a) == spec_key_bytes(b),
    ensures
        a.code == b.code,
{
    law_arrow_key_bytes(a);
    law_arrow_key_bytes(b);
    assert(spec_key_bytes(a)[2] == spec_key_bytes(b)[2]);
}

/// The other keys send the bytes a terminal expects: Enter a carriage
/// return, Backspace DEL, Tab a tab, Esc ESC, and the editing keys their
/// `ESC [` sequences, whatever modifiers are held.
pub proof fn law_special_key_bytes(key: KeyEvent)
    ensures
        key.code == KeyCode::Enter ==> spec_key_bytes(key) == seq![13u8],
        key.code == KeyCode::Backspace ==> spec_key_bytes(key) == seq![127u8],
        key.code == KeyCode::Tab ==> spec_key_bytes(key) == seq![9u8],
        key.code == KeyCode::Esc ==> spec_key_bytes(key) == seq![27u8],
        key.code == KeyCode::Home ==> spec_key_bytes(key) == seq![27u8, 91u8, 72u8],
        key.code == KeyCode::End ==> spec_key_bytes(key) == seq![27u8, 91u8, 70u8],
        key.code == KeyCode::PageUp ==> spec_key_bytes(key) == seq![27u8, 91u8, 53u8, 126u8],
        key.code == KeyCode::PageDown ==> spec_key_bytes(key) == seq![27u8, 91u8, 54u8, 126u8],
        key.code == KeyCode::Delete ==> spec_key_bytes(key) == seq![27u8, 91u8, 51u8, 126u8],
        key.code == KeyCode::Insert ==> spec_key_bytes(key) == seq![27u8, 91u8, 50u8, 126u8],
        key.code == KeyCode::BackTab ==> spec_key_bytes(key) == Seq::<u8>::empty(),
        key.code == KeyCode::Other ==> spec_key_bytes(key) == Seq::<u8>::empty(),
{
}

/// The function keys F1 to F4 send `ESC O P` to `ESC O S`, F5 to F12 their
/// `ESC [ nn ~` sequences, and other function keys nothing.
pub proof fn law_function_key_bytes(key: KeyEvent, n: u8)
    requires
        key.code == KeyCode::F(n),
    ensures
        1 <= n <= 4 ==> spec_key_bytes(key) == seq![27u8, 79u8, (79 + n) as u8],
        n == 5 ==> spec_key_bytes(key) == seq![27u8, 91u8, 49u8, 53u8, 126u8],
        n == 6 ==> spec_key_bytes(key) == seq![27u8, 91u8, 49u8, 55u8, 126u8],
        n == 7 ==> spec_key_bytes(key) == seq![27u8, 91u8, 49u8, 56u8, 126u8],
        n == 8 ==> spec_key_bytes(key) == seq![27u8, 91u8, 49u8, 57u8, 126u8],
        n == 9 ==> spec_key_bytes(key) == seq![27u8, 91u8, 50u8, 48u8, 126u8],
        n == 10 ==> spec_key_bytes(key) == seq![27u8, 91u8, 50u8, 49u8, 126u8],
        n == 11 ==> spec_key_bytes(key) == seq![27u8, 91u8, 50u8, 51u8, 126u8],
        n == 12 ==> spec_key_bytes(key) == seq![27u8, 91u8, 50u8, 52u8, 126u8],
        (n == 0 || n > 12) ==> spec_key_bytes(key) == Seq::<u8>::empty(),
{
}

/// A typed ASCII character is sent as its one byte; with Ctrl held, a
/// lower-case letter is sent as its control code (Ctrl+A is 1, Ctrl+C is 3).
pub proof fn law_char_key_bytes(key: KeyEvent, c: char)
    requires
        key.code == KeyCode::Char(c),
    ensures
        !key.modifiers.control && c <= '\x7f' ==> spec_key_bytes(key) == seq![c as u8],
        key.modifiers.control && 'a' <= c <= 'z' ==> spec_key_bytes(key) == seq![
            (c as u32 - 96) as u8,
        ],
{
    if !key.modifiers.control && c <= '\x7f' {
        let u = c as u32;
        assert((u & 0x7F) == u) by (bit_vector)
            requires
                u <= 0x7F,
        ;
    }
}

// ── Filling placeholders ───────────────────────────────────────────────────

/// Replacing passes over a prefix at no index of which the pattern starts.
proof fn lemma_replace_prefix(a: Seq<char>, rest: Seq<char>, p: Seq<char>, x: Seq<char>)
    requires
        p.len() > 0,
        forall|i: int| 0 <= i < a.len() ==> !starts_with(#[trigger] (a + rest).skip(i), p),
    ensures
        spec_replace(a + rest, p, x) == a + spec_replace(rest, p, x),
    decreases a.len(),
{
    if a.len() == 0 {
        assert(a + rest =~= rest);
        assert(a + spec_replace(rest, p, x) =~= spec_replace(rest, p, x));
    } else {
        let s = a + rest;
        assert(s.skip(0) =~= s);
        assert(!starts_with(s, p));
        let t = a.drop_first();
        assert(s.drop_first() =~= t + rest);
        assert forall|i: int| 0 <= i < t.len() implies !starts_with(#[trigger] (t + rest).skip(i), p) by {
            assert((t + rest).skip(i) =~= s.skip(i + 1));
        }
        lemma_replace_prefix(t, rest, p, x);
        assert(seq![s[0]] + (t + spec_replace(rest, p, x)) =~= a + spec_replace(rest, p, x));
    }
}

/// Filling with one variable replaces its placeholder.
proof fn lemma_fill_one(t: Seq<char>, v: Seq<char>, x: Seq<char>)
    ensures
        fill_template(t, seq![v], seq![x]) == spec_replace(t, placeholder(v), x),
{
    assert(seq![v].take(0) =~= Seq::<Seq<char>>::empty());
    assert(seq![x].take(0) =~= Seq::<Seq<char>>::empty());
    assert(fill_template(t, Seq::<Seq<char>>::empty(), Seq::<Seq<char>>::empty()) == t);
    assert(seq![v][0] == v && seq![x][0] == x);
}

/// Filling a template replaces every `<v>` in it by the value of `v`, not
/// only the first: where the text before a `<v>` holds none, the filled
/// template is that text, the value, and the rest of the template filled
/// in the same way.
pub proof fn law_fill_every_placeholder(a: Seq<char>, b: Seq<char>, v: Seq<char>, x: Seq<char>)
    requires
        valid_var(v),
        forall|i: int| !occurs_at(a, placeholder(v), i),
    ensures
        fill_template(a + placeholder(v) + b, seq![v], seq![x]) == a + x + fill_template(
            b,
            seq![v],
            seq![x],
        ),
{
    let p = placeholder(v);
    let s = a + p + b;
    lemma_fill_one(s, v, x);
    lemma_fill_one(b, v, x);
    assert(s =~= a + (p + b));
    assert forall|i: int| 0 <= i < a.len() implies !starts_with(#[trigger] (a + (p + b)).skip(i), p) by {
        let w = (a + (p + b)).skip(i);
        if starts_with(w, p) {
            if i + p.len() <= a.len() {
                assert(a.subrange(i, i + p.len()) =~= w.take(p.len() as int));
                assert(occurs_at(a, p, i));
            } else {
                let k = a.len() - i;
                assert(1 <= k < p.len());
                assert(w[k] == p[0]);
                assert(w.take(p.len() as int)[k] == w[k]);
                assert(p[0] == '<');
                if k < p.len() - 1 {
                    assert(p[k] == v[k - 1]);
                    assert(crate::app::var_char(v[k - 1]));
                } else {
                    assert(p[k] == '>');
                }
            }
        }
    }
    lemma_replace_prefix(a, p + b, p, x);
    let pb = p + b;
    assert(pb.len() > 0);
    assert(pb.take(p.len() as int) =~= p);
    assert(pb.skip(p.len() as int) =~= b);
    assert(spec_replace(pb, p, x) == x + spec_replace(b, p, x));
    assert(a + (x + spec_replace(b, p, x)) =~= a + x + spec_replace(b, p, x));
}

/// A template in which `<v>` stands twice, with no other `<v>`, has both
/// filled.
pub proof fn law_fill_both_placeholders(
    a: Seq<char>,
    b: Seq<char>,
    c: Seq<char>,
    v: Seq<char>,
    x: Seq<char>,
)
    requires
        valid_var(v),
        forall|i: int| !occurs_at(a, placeholder(v), i),
        forall|i: int| !occurs_at(b, placeholder(v), i),
        forall|i: int| !occurs_at(c, placeholder(v), i),
    ensures
        fill_template(a + placeholder(v) + b + placeholder(v) + c, seq![v], seq![x]) == a + x + b
            + x + c,
{
    let p = placeholder(v);
    law_fill_every_placeholder(a, b + p + c, v, x);
    assert(a + p + b + p + c =~= a + p + (b + p + c));
    law_fill_every_placeholder(b, c, v, x);
    lemma_fill_without(c, v, x);
    assert(a + x + (b + x + c) =~= a + x + b + x + c);
}

/// A template with no `<v>` is left as it is.
proof fn lemma_fill_without(c: Seq<char>, v: Seq<char>, x: Seq<char>)
    requires
        valid_var(v),
        forall|i: int| !occurs_at(c, placeholder(v), i),
    ensures
        fill_template(c, seq![v], seq![x]) == c,
{
    let p = placeholder(v);
    lemma_fill_one(c, v, x);
    assert forall|i: int| 0 <= i < c.len() implies !starts_with(#[trigger] (c + seq![]).skip(i), p) by {
        assert(c + Seq::<char>::empty() =~= c);
        let w = c.skip(i);
        if starts_with(w, p) {
            assert(c.subrange(i, i + p.len()) =~= w.take(p.len() as int));
            assert(occurs_at(c, p, i));
        }
    }
    lemma_replace_prefix(c, seq![], p, x);
    assert(c + Seq::<char>::empty() =~= c);
}

// ── A note's name and title ────────────────────────────────────────────────

/// A frontmatter line `name: "X"` or `name: 'X'` names the note `X`: the
/// value with its one surrounding pair of quotes taken off.
pub proof fn law_quoted_name(l: Seq<char>, gap: Seq<char>, q: char, x: Seq<char>)
    requires
        q == '"' || q == '\'',
        forall|i: int| 0 <= i < gap.len() ==> is_ws(#[trigger] gap[i]),
        trim(l) == name_key() + gap + seq![q] + x + seq![q],
    ensures
        line_name(l) == Some(x),
{
    let t = trim(l);
    let v = gap + seq![q] + x + seq![q];
    assert(t.take(5) =~= name_key());
    assert(t.skip(5) =~= v);
    assert(strip_prefix(t, name_key()) == Some(v));
    assert(v[gap.len() as int] == q);
    lemma_trim_start_at(v, gap.len() as int);
    let w = seq![q] + x + seq![q];
    assert(v.skip(gap.len() as int) =~= w);
    assert(w.last() == q);
    lemma_trim_end_at(w, w.len() as int);
    assert(w.take(w.len() as int) =~= w);
    assert(w.subrange(1, w.len() - 1) =~= x);
}

/// The name comes from the last `name:` line of the frontmatter: a line
/// that names the note and is followed by no such line decides the name.
pub proof fn law_last_name_line(ls: Seq<Seq<char>>, k: int)
    requires
        0 <= k < ls.len(),
        line_name(ls[k]) is Some,
        forall|j: int| k < j < ls.len() ==> line_name(#[trigger] ls[j]) is None,
    ensures
        fm_name(ls) == line_name(ls[k]),
    decreases ls.len(),
{
    if k < ls.len() - 1 {
        let init = ls.drop_last();
        assert(line_name(ls[ls.len() - 1]) is None);
        assert forall|j: int| k < j < init.len() implies line_name(#[trigger] init[j]) is None by {
            assert(init[j] == ls[j]);
        }
        assert(init[k] == ls[k]);
        law_last_name_line(init, k);
    }
}

/// The title is the first heading: where line `k` is the first whose
/// trimmed text starts with `# `, the title is that text without the `# `,
/// whatever lines follow.
pub proof fn law_first_heading_title(ls: Seq<Seq<char>>, k: int)
    requires
        0 <= k < ls.len(),
        starts_with(trim(ls[k]), heading_mark()),
        forall|j: int| 0 <= j < k ==> !starts_with(trim(#[trigger] ls[j]), heading_mark()),
    ensures
        title_of(ls) == Some(trim(ls[k]).skip(2)),
    decreases k,
{
    if k > 0 {
        let rest = ls.drop_first();
        assert(!starts_with(trim(ls[0]), heading_mark()));
        assert forall|j: int| 0 <= j < k - 1 implies !starts_with(trim(#[trigger] rest[j]), heading_mark()) by {
            assert(rest[j] == ls[j + 1]);
        }
        assert(rest[k - 1] == ls[k]);
        law_first_heading_title(rest, k - 1);
    }
}

/// A note whose body has no heading line has no title.
pub proof fn law_no_heading_no_title(ls: Seq<Seq<char>>)
    requires
        forall|j: int| 0 <= j < ls.len() ==> !starts_with(trim(#[trigger] ls[j]), heading_mark()),
    ensures
        title_of(ls) is None,
    decreases ls.len(),
{
    if ls.len() > 0 {
        let rest = ls.drop_first();
        assert(!starts_with(trim(ls[0]), heading_mark()));
        assert forall|j: int| 0 <= j < rest.len() implies !starts_with(trim(#[trigger] rest[j]), heading_mark()) by {
            assert(rest[j] == ls[j + 1]);
        }
        law_no_heading_no_title(rest);
    }
}

} // verus!
