//! What the screen shows, as styled text: a note's body with numbered,
//! framed and word-wrapped code blocks, markdown lines, list labels, the
//! terminal's cells as styled spans, and popup placement.
use vstd::prelude::*;

use crate::text::{
    append_chars, chars_of, decimal, has_prefix, lines, slice_of, split, split_lines, split_on,
    starts_with, string_of, trim, trimmed, usize_to_chars, views,
};

verus! {

broadcast use vstd::string::group_string_axioms;

// ── Styles ─────────────────────────────────────────────────────────────────

/// A colour of the screen.
#[derive(Debug, Clone, Copy, PartialEq, Eq, Structural)]
pub enum Color {
    Reset,
    Red,
    Green,
    Yellow,
    Cyan,
    Gray,
    DarkGray,
    White,
    Indexed(u8),
    Rgb(u8, u8, u8),
}

/// A colour as the terminal emulator reports a cell's colour.
#[derive(Debug, Clone, Copy, PartialEq, Eq, Structural)]
pub enum TermColor {
    Default,
    Idx(u8),
    Rgb(u8, u8, u8),
}

/// How a span of text is drawn: unset colours and flags are left as they are.
#[derive(Debug, Clone, Copy, PartialEq, Eq, Structural)]
pub struct Style {
    pub fg: Option<Color>,
    pub bg: Option<Color>,
    pub bold: bool,
    pub italic: bool,
    pub underlined: bool,
    pub reversed: bool,
}

/// A run of text in one style.
#[derive(Debug, Clone)]
pub struct Span {
    pub content: String,
    pub style: Style,
}

/// A line of the screen.
#[derive(Debug, Clone)]
pub struct Line {
    pub spans: Vec<Span>,
}

/// A line as its spans' texts and styles.
pub open spec fn line_view(l: Line) -> Seq<(Seq<char>, Style)> {
    l.spans@.map_values(|s: Span| (s.content@, s.style))
}

/// Lines as their spans' texts and styles.
pub open spec fn lines_view(ls: Seq<Line>) -> Seq<Seq<(Seq<char>, Style)>> {
    ls.map_values(|l: Line| line_view(l))
}

pub open spec fn plain() -> Style {
    Style { fg: None, bg: None, bold: false, italic: false, underlined: false, reversed: false }
}

pub open spec fn fg(c: Color) -> Style {
    Style { fg: Some(c), ..plain() }
}

pub open spec fn fg_bold(c: Color) -> Style {
    Style { fg: Some(c), bold: true, ..plain() }
}

fn style_fg(c: Color) -> (s: Style)
    ensures
        s == fg(c),
{
    Style { fg: Some(c), bg: None, bold: false, italic: false, underlined: false, reversed: false }
}

fn style_fg_bold(c: Color) -> (s: Style)
    ensures
        s == fg_bold(c),
{
    Style { fg: Some(c), bg: None, bold: true, italic: false, underlined: false, reversed: false }
}

fn span(content: Vec<char>, style: Style) -> (s: Span)
    ensures
        s.content@ == content@,
        s.style == style,
{
    Span { content: string_of(&content), style }
}

fn one_span_line(content: Vec<char>, style: Style) -> (l: Line)
    ensures
        line_view(l) == seq![(content@, style)],
{
    let s = span(content, style);
    let mut spans = Vec::new();
    spans.push(s);
    let l = Line { spans };
    assert(line_view(l) =~= seq![(content@, style)]);
    l
}

// ── Note body ──────────────────────────────────────────────────────────────

/// The number of bytes of `c` in UTF-8.
pub open spec fn char_utf8_len(c: char) -> nat {
    if c as u32 <= 0x7F {
        1
    } else if c as u32 <= 0x7FF {
        2
    } else if c as u32 <= 0xFFFF {
        3
    } else {
        4
    }
}

/// The number of bytes of `s` in UTF-8 (`str::len`).
pub open spec fn byte_len(s: Seq<char>) -> nat
    decreases s.len(),
{
    if s.len() == 0 {
        0
    } else {
        byte_len(s.drop_last()) + char_utf8_len(s.last())
    }
}

/// Where a word wrap stands: the finished pieces and the piece being filled.
pub open spec fn wrap_words(words: Seq<Seq<char>>, first_max: nat, cont_max: nat) -> (
    Seq<Seq<char>>,
    Seq<char>,
)
    decreases words.len(),
{
    if words.len() == 0 {
        (seq![], seq![])
    } else {
        let (wrapped, cur) = wrap_words(words.drop_last(), first_max, cont_max);
        let word = words.last();
        let max = if wrapped.len() == 0 {
            first_max
        } else {
            cont_max
        };
        if cur.len() == 0 {
            (wrapped, word)
        } else if byte_len(cur) + 1 + byte_len(word) <= max {
            (wrapped, cur + seq![' '] + word)
        } else {
            (wrapped.push(cur), word)
        }
    }
}

/// The pieces a code line is wrapped into: words split at single spaces are
/// put together while the first piece stays within `first_max` bytes and
/// later ones within `cont_max`; a word that fits nowhere stands alone.
pub open spec fn wrap_line(line: Seq<char>, first_max: nat, cont_max: nat) -> Seq<Seq<char>> {
    let (wrapped, cur) = wrap_words(split(line, ' '), first_max, cont_max);
    if cur.len() > 0 {
        wrapped.push(cur)
    } else {
        wrapped
    }
}

/// `s` with `n` copies of `c`.
pub open spec fn repeat(c: char, n: nat) -> Seq<char> {
    Seq::new(n, |i: int| c)
}

/// The styled line of a markdown line outside code blocks: headings in
/// green (`###`), yellow (`##`) or cyan (`#`), bold; list items indented;
/// others white; blank lines empty.
pub open spec fn spec_markdown_line(line: Seq<char>) -> Seq<(Seq<char>, Style)> {
    let t = trim(line);
    if starts_with(t, "### "@) {
        seq![(seq![' '] + t, fg_bold(Color::Green))]
    } else if starts_with(t, "## "@) {
        seq![(seq![' '] + t, fg_bold(Color::Yellow))]
    } else if starts_with(t, "# "@) {
        seq![(seq![' '] + t, fg_bold(Color::Cyan))]
    } else if starts_with(t, "- "@) || starts_with(t, "* "@) {
        seq![(seq![' ', ' '] + t, fg(Color::White))]
    } else if t.len() == 0 {
        seq![]
    } else {
        seq![(seq![' '] + t, fg(Color::White))]
    }
}

/// Where a scan of a note's lines stands.
pub struct BodyScan {
    pub out: Seq<Seq<(Seq<char>, Style)>>,
    pub block: nat,
    pub in_block: bool,
    pub focused_line: Option<nat>,
}

/// `a - b`, or 0.
pub open spec fn nat_sub(a: nat, b: nat) -> nat {
    if a >= b {
        (a - b) as nat
    } else {
        0
    }
}

/// The label line of code block `idx`: `>` when it is the focused one,
/// its number in brackets, and the fence's language.
pub open spec fn block_label(idx: nat, focused: bool, fence_line: Seq<char>) -> Seq<(Seq<char>, Style)> {
    let lang = trim(trim(fence_line).skip(3));
    let lang_display = if lang.len() == 0 {
        seq![]
    } else {
        seq![' '] + lang
    };
    let marker = if focused {
        seq!['>']
    } else {
        seq![' ']
    };
    seq![
        (
            marker + seq!['['] + decimal(idx) + seq![']'] + lang_display,
            if focused {
                fg_bold(Color::Cyan)
            } else {
                fg(Color::DarkGray)
            },
        ),
    ]
}

/// The top or bottom frame line of a code block on a pane `w` wide.
pub open spec fn frame_line(w: nat, left: char, right: char) -> Seq<(Seq<char>, Style)> {
    seq![
        (
            seq![' ', left] + repeat('\u{2500}', nat_sub(w, 4)) + seq![right],
            fg(Color::DarkGray),
        ),
    ]
}

/// The lines of a wrapped code line: a `│` gutter, the first piece as it
/// is and later ones indented by two.
pub open spec fn code_lines(pieces: Seq<Seq<char>>, focused: bool) -> Seq<
    Seq<(Seq<char>, Style)>,
> {
    Seq::new(
        pieces.len(),
        |i: int|
            seq![
                (seq![' ', '\u{2502}', ' '], fg(Color::DarkGray)),
                (
                    if i == 0 {
                        pieces[i]
                    } else {
                        seq![' ', ' '] + pieces[i]
                    },
                    if focused {
                        fg(Color::White)
                    } else {
                        fg(Color::Gray)
                    },
                ),
            ],
    )
}

/// One line of a note's body applied to the scan.
pub open spec fn body_step(st: BodyScan, line: Seq<char>, focused_block: nat, w: nat) -> BodyScan {
    let t = trim(line);
    let fence = starts_with(t, "```"@);
    if !st.in_block && fence {
        let is_focused = st.block == focused_block;
        BodyScan {
            out: st.out + seq![block_label(st.block, is_focused, line)] + seq![
                frame_line(w, '\u{250c}', '\u{2510}'),
            ],
            in_block: true,
            focused_line: if is_focused {
                Some(st.out.len())
            } else {
                st.focused_line
            },
            ..st
        }
    } else if st.in_block && fence {
        BodyScan {
            out: st.out + seq![frame_line(w, '\u{2514}', '\u{2518}')],
            block: st.block + 1,
            in_block: false,
            ..st
        }
    } else if st.in_block {
        let max_content = nat_sub(w, 3);
        BodyScan {
            out: st.out + code_lines(
                wrap_line(line, max_content, nat_sub(max_content, 2)),
                st.block == focused_block,
            ),
            ..st
        }
    } else {
        BodyScan { out: st.out.push(spec_markdown_line(line)), ..st }
    }
}

/// The scan of a note's lines from the top.
pub open spec fn body_scan(ls: Seq<Seq<char>>, focused_block: nat, w: nat) -> BodyScan
    decreases ls.len(),
{
    if ls.len() == 0 {
        BodyScan { out: seq![], block: 0, in_block: false, focused_line: None }
    } else {
        body_step(body_scan(ls.drop_last(), focused_block, w), ls.last(), focused_block, w)
    }
}

/// The byte length of `s`, or `cap` where it is longer.
fn byte_len_capped(s: &Vec<char>, cap: usize) -> (r: usize)
    requires
        0 < cap <= usize::MAX - 4,
    ensures
        r == if byte_len(s@) < cap {
            byte_len(s@)
        } else {
            cap as nat
        },
{
    let mut acc: usize = 0;
    let mut i: usize = 0;
    assert(s@.take(0) =~= seq![]);
    while i < s.len()
        invariant
            i <= s.len(),
            0 < cap <= usize::MAX - 4,
            acc == byte_len(s@.take(i as int)),
            acc < cap,
        decreases s.len() - i,
    {
        assert(s@.take(i + 1).drop_last() =~= s@.take(i as int));
        let n = s[i] as u32;
        let l: usize = if n <= 0x7F {
            1
        } else if n <= 0x7FF {
            2
        } else if n <= 0xFFFF {
            3
        } else {
            4
        };
        acc = acc + l;
        i += 1;
        if acc >= cap {
            proof {
                lemma_byte_len_prefix(s@, i as int);
            }
            return cap;
        }
    }
    assert(s@.take(s.len() as int) =~= s@);
    acc
}

/// A prefix has no more bytes than the whole.
proof fn lemma_byte_len_prefix(s: Seq<char>, k: int)
    requires
        0 <= k <= s.len(),
    ensures
        byte_len(s.take(k)) <= byte_len(s),
    decreases s.len() - k,
{
    if k < s.len() {
        assert(s.drop_last().take(k) =~= s.take(k));
        lemma_byte_len_prefix(s.drop_last(), k);
    } else {
        assert(s.take(k) =~= s);
    }
}

/// The pieces a code line is wrapped into.
pub fn wrap_code_line(line: &Vec<char>, first_max: usize, cont_max: usize) -> (r: Vec<Vec<char>>)
    requires
        first_max <= u16::MAX,
        cont_max <= u16::MAX,
    ensures
        views(r@) == wrap_line(line@, first_max as nat, cont_max as nat),
{
    let words = split_on(line, ' ');
    let ghost wv = views(words@);
    let cap: usize = 0x10000;
    let mut wrapped: Vec<Vec<char>> = Vec::new();
    let mut current: Vec<char> = Vec::new();
    let mut i: usize = 0;
    assert(wv.take(0) =~= seq![]);
    while i < words.len()
        invariant
            i <= words.len(),
            wv == views(words@),
            first_max <= u16::MAX,
            cont_max <= u16::MAX,
            cap == 0x10000,
            wrap_words(wv.take(i as int), first_max as nat, cont_max as nat) == (
                views(wrapped@),
                current@,
            ),
        decreases words.len() - i,
    {
        assert(wv.take(i + 1).drop_last() =~= wv.take(i as int));
        assert(wv.take(i + 1).last() == words@[i as int]@);
        let max = if wrapped.len() == 0 {
            first_max
        } else {
            cont_max
        };
        let word = slice_of(&words[i], 0, words[i].len());
        assert(word@ =~= words@[i as int]@);
        if current.len() == 0 {
            current = word;
        } else {
            let a = byte_len_capped(&current, cap);
            let b = byte_len_capped(&word, cap);
            if a + 1 + b <= max {
                current.push(' ');
                append_chars(&mut current, &word);
            } else {
                let ghost before = views(wrapped@);
                let done = current;
                let ghost dv = done@;
                wrapped.push(done);
                assert(views(wrapped@) =~= before.push(dv));
                current = word;
            }
        }
        i += 1;
    }
    assert(wv.take(words.len() as int) =~= wv);
    assert(wv =~= split(line@, ' '));
    if current.len() > 0 {
        let ghost before = views(wrapped@);
        let ghost cv = current@;
        wrapped.push(current);
        assert(views(wrapped@) =~= before.push(cv));
    }
    wrapped
}

/// The styled line of a markdown line outside code blocks.
pub fn style_markdown_line(line: &Vec<char>) -> (l: Line)
    ensures
        line_view(l) == spec_markdown_line(line@),
{
    let t = trimmed(line);
    let h3 = chars_of("### ");
    let h2 = chars_of("## ");
    let h1 = chars_of("# ");
    let li1 = chars_of("- ");
    let li2 = chars_of("* ");
    let mut text = vec![' '];
    assert(text@ =~= seq![' ']);
    if has_prefix(&t, &h3) {
        append_chars(&mut text, &t);
        one_span_line(text, style_fg_bold(Color::Green))
    } else if has_prefix(&t, &h2) {
        append_chars(&mut text, &t);
        one_span_line(text, style_fg_bold(Color::Yellow))
    } else if has_prefix(&t, &h1) {
        append_chars(&mut text, &t);
        one_span_line(text, style_fg_bold(Color::Cyan))
    } else if has_prefix(&t, &li1) || has_prefix(&t, &li2) {
        text.push(' ');
        append_chars(&mut text, &t);
        assert(text@ =~= seq![' ', ' '] + t@);
        one_span_line(text, style_fg(Color::White))
    } else if t.len() == 0 {
        let l = Line { spans: Vec::new() };
        assert(line_view(l) =~= seq![]);
        l
    } else {
        append_chars(&mut text, &t);
        one_span_line(text, style_fg(Color::White))
    }
}

/// `n` copies of `c`.
fn repeated(c: char, n: usize) -> (r: Vec<char>)
    ensures
        r@ == repeat(c, n as nat),
{
    let mut r: Vec<char> = Vec::new();
    let mut i: usize = 0;
    while i < n
        invariant
            i <= n,
            r@ == repeat(c, i as nat),
        decreases n - i,
    {
        r.push(c);
        assert(r@ =~= repeat(c, (i + 1) as nat));
        i += 1;
    }
    r
}

fn frame(w: usize, left: char, right: char) -> (l: Line)
    ensures
        line_view(l) == frame_line(w as nat, left, right),
{
    let mut text = vec![' ', left];
    let border = repeated('\u{2500}', w.saturating_sub(4));
    append_chars(&mut text, &border);
    text.push(right);
    assert(text@ =~= seq![' ', left] + repeat('\u{2500}', nat_sub(w as nat, 4)) + seq![right]);
    one_span_line(text, style_fg(Color::DarkGray))
}

fn label(idx: usize, focused: bool, fence_line: &Vec<char>) -> (l: Line)
    requires
        trim(fence_line@).len() >= 3,
    ensures
        line_view(l) == block_label(idx as nat, focused, fence_line@),
{
    let t = trimmed(fence_line);
    let ghost tt = trim(fence_line@);
    let after = slice_of(&t, 3, t.len());
    assert(after@ =~= tt.skip(3));
    let lang = trimmed(&after);
    let mut text: Vec<char> = Vec::new();
    text.push(if focused {
        '>'
    } else {
        ' '
    });
    text.push('[');
    let digits = usize_to_chars(idx);
    append_chars(&mut text, &digits);
    text.push(']');
    if lang.len() > 0 {
        text.push(' ');
        append_chars(&mut text, &lang);
    }
    let style = if focused {
        style_fg_bold(Color::Cyan)
    } else {
        style_fg(Color::DarkGray)
    };
    let ghost lang_display = if lang@.len() == 0 {
        seq![]
    } else {
        seq![' '] + lang@
    };
    let ghost marker = if focused {
        seq!['>']
    } else {
        seq![' ']
    };
    assert(text@ =~= marker + seq!['['] + decimal(idx as nat) + seq![']'] + lang_display);
    one_span_line(text, style)
}

fn push_code_lines(out: &mut Vec<Line>, pieces: &Vec<Vec<char>>, focused: bool)
    ensures
        lines_view(final(out)@) == lines_view(old(out)@) + code_lines(views(pieces@), focused),
{
    let ghost start = lines_view(out@);
    let ghost pv = views(pieces@);
    let code_style = if focused {
        style_fg(Color::White)
    } else {
        style_fg(Color::Gray)
    };
    let mut i: usize = 0;
    assert(code_lines(pv, focused).take(0) =~= seq![]);
    assert(start + code_lines(pv, focused).take(0) =~= start);
    while i < pieces.len()
        invariant
            i <= pieces.len(),
            pv == views(pieces@),
            code_style == if focused {
                fg(Color::White)
            } else {
                fg(Color::Gray)
            },
            lines_view(out@) == start + code_lines(pv, focused).take(i as int),
        decreases pieces.len() - i,
    {
        let mut text: Vec<char> = Vec::new();
        if i > 0 {
            text.push(' ');
            text.push(' ');
        }
        append_chars(&mut text, &pieces[i]);
        assert(text@ =~= if i == 0 {
            pv[i as int]
        } else {
            seq![' ', ' '] + pv[i as int]
        });
        let gutter = vec![' ', '\u{2502}', ' '];
        assert(gutter@ =~= seq![' ', '\u{2502}', ' ']);
        let s1 = span(gutter, style_fg(Color::DarkGray));
        let s2 = span(text, code_style);
        let mut spans: Vec<Span> = Vec::new();
        spans.push(s1);
        spans.push(s2);
        let l = Line { spans };
        let ghost lv = line_view(l);
        assert(lv =~= code_lines(pv, focused)[i as int]);
        let ghost before = out@;
        out.push(l);
        assert(lines_view(out@) =~= lines_view(before).push(lv));
        assert(code_lines(pv, focused).take(i + 1) =~= code_lines(pv, focused).take(i as int).push(
            lv,
        ));
        i += 1;
    }
    assert(code_lines(pv, focused).take(pieces.len() as int) =~= code_lines(pv, focused));
}

/// Walks a note body line by line, rendering headings, prose, and fenced
/// code blocks with `[N]` labels; returns the lines and the index of the
/// focused block's label line.
pub fn build_note_lines(body: &str, focused_block: usize, width: u16) -> (r: (Vec<Line>, Option<usize>))
    ensures
        ({
            let st = body_scan(lines(body@), focused_block as nat, width as nat);
            &&& lines_view(r.0@) == st.out
            &&& match (r.1, st.focused_line) {
                (Some(a), Some(b)) => a == b,
                (None, None) => true,
                _ => false,
            }
        }),
{
    let w = width as usize;
    let b = chars_of(body);
    let ls = split_lines(&b);
    let ghost lv = views(ls@);
    let fence = chars_of("```");
    let mut out: Vec<Line> = Vec::new();
    let mut block_idx: usize = 0;
    let mut in_block = false;
    let mut focused_line: Option<usize> = None;
    let mut i: usize = 0;
    assert(lv.take(0) =~= seq![]);
    assert(lines_view(out@) =~= seq![]);
    while i < ls.len()
        invariant
            i <= ls.len(),
            lv == views(ls@),
            lv == lines(body@),
            fence@ == "```"@,
            w == width as usize,
            block_idx <= i,
            ({
                let st = body_scan(lv.take(i as int), focused_block as nat, w as nat);
                &&& st.out == lines_view(out@)
                &&& st.block == block_idx
                &&& st.in_block == in_block
                &&& match (focused_line, st.focused_line) {
                    (Some(a), Some(b)) => a == b,
                    (None, None) => true,
                    _ => false,
                }
            }),
        decreases ls.len() - i,
    {
        assert(lv.take(i + 1).drop_last() =~= lv.take(i as int));
        assert(lv.take(i + 1).last() == ls@[i as int]@);
        let line = &ls[i];
        let t = trimmed(line);
        let is_fence = has_prefix(&t, &fence);
        let ghost before = lines_view(out@);
        if !in_block && is_fence {
            in_block = true;
            let is_focused = block_idx == focused_block;
            if is_focused {
                focused_line = Some(out.len());
            }
            proof {
                reveal_strlit("```");
            }
            let l1 = label(block_idx, is_focused, line);
            let l2 = frame(w, '\u{250c}', '\u{2510}');
            out.push(l1);
            out.push(l2);
            assert(lines_view(out@) =~= before + seq![line_view(l1)] + seq![line_view(l2)]);
        } else if in_block && is_fence {
            let l = frame(w, '\u{2514}', '\u{2518}');
            out.push(l);
            assert(lines_view(out@) =~= before + seq![line_view(l)]);
            block_idx += 1;
            in_block = false;
        } else if in_block {
            let max_content = w.saturating_sub(3);
            let pieces = wrap_code_line(line, max_content, max_content.saturating_sub(2));
            push_code_lines(&mut out, &pieces, block_idx == focused_block);
        } else {
            let l = style_markdown_line(line);
            out.push(l);
            assert(lines_view(out@) =~= before.push(line_view(l)));
        }
        i += 1;
    }
    assert(lv.take(ls.len() as int) =~= lv);
    (out, focused_line)
}

/// How far a note's content is scrolled: as the user scrolled it, else,
/// when focused, so that the focused block stands a third down the pane
/// where it would be out of view, else not at all.
pub open spec fn spec_note_scroll(
    note_view_scroll: u16,
    focused_line: Option<usize>,
    focused: bool,
    height: u16,
) -> u16 {
    if note_view_scroll > 0 {
        note_view_scroll
    } else if focused {
        let target = match focused_line {
            Some(l) => l as u16,
            None => 0,
        };
        if target >= height {
            let d = height / 3;
            if target >= d {
                (target - d) as u16
            } else {
                0
            }
        } else {
            0
        }
    } else {
        0
    }
}

/// How far a note's content is scrolled.
pub fn note_scroll(note_view_scroll: u16, focused_line: Option<usize>, focused: bool, height: u16) -> (r:
    u16)
    ensures
        r == spec_note_scroll(note_view_scroll, focused_line, focused, height),
{
    if note_view_scroll > 0 {
        note_view_scroll
    } else if focused {
        let target = match focused_line {
            Some(l) => l as u16,
            None => 0,
        };
        if target >= height {
            target.saturating_sub(height / 3)
        } else {
            0
        }
    } else {
        0
    }
}

// ── Small pieces ───────────────────────────────────────────────────────────

/// `s` cut to `max_chars` characters, the last of them `…` where it was longer.
pub open spec fn spec_truncate(s: Seq<char>, max_chars: nat) -> Seq<char> {
    if s.len() <= max_chars {
        s
    } else {
        s.take(nat_sub(max_chars, 1) as int).push('\u{2026}')
    }
}

/// Cuts `s` to `max_chars` characters, ending in `…` where it was longer.
pub fn truncate(s: &str, max_chars: usize) -> (r: String)
    ensures
        r@ == spec_truncate(s@, max_chars as nat),
{
    let c = chars_of(s);
    if c.len() <= max_chars {
        string_of(&c)
    } else {
        let mut t = slice_of(&c, 0, max_chars.saturating_sub(1));
        t.push('\u{2026}');
        string_of(&t)
    }
}

/// A rectangle of the screen.
#[derive(Debug, Clone, Copy, PartialEq, Eq, Structural)]
pub struct Rect {
    pub x: u16,
    pub y: u16,
    pub width: u16,
    pub height: u16,
}

/// A rectangle `percent_x` percent as wide as `area`, `height` high,
/// centred in it.
pub open spec fn spec_centered_rect(percent_x: u16, height: u16, area: Rect) -> Rect {
    let w = (area.width * percent_x / 100) as u16;
    Rect {
        x: (area.x + (if area.width >= w { area.width - w } else { 0 }) / 2) as u16,
        y: (area.y + area.height / 2 - height / 2) as u16,
        width: w,
        height,
    }
}

/// The centred popup rectangle; the arithmetic is `u16`, as the screen's.
pub fn centered_rect(percent_x: u16, height: u16, area: Rect) -> (r: Rect)
    requires
        area.width * percent_x <= u16::MAX,
        area.x + (if area.width >= area.width * percent_x / 100 {
            area.width - area.width * percent_x / 100
        } else {
            0
        }) / 2 <= u16::MAX,
        area.y + area.height / 2 >= height / 2,
        area.y + area.height / 2 <= u16::MAX,
    ensures
        r == spec_centered_rect(percent_x, height, area),
{
    let w = area.width * percent_x / 100;
    let x = area.x + (area.width.saturating_sub(w)) / 2;
    let y = area.y + area.height / 2 - height / 2;
    Rect { x, y, width: w, height }
}

/// A list entry: `▸ ` before the selected one, two spaces before others.
pub open spec fn spec_list_label(name: Seq<char>, selected: bool) -> Seq<char> {
    (if selected {
        seq!['\u{25b8}', ' ']
    } else {
        seq![' ', ' ']
    }) + name
}

/// A list entry's text.
pub fn list_label(name: &str, selected: bool) -> (r: String)
    ensures
        r@ == spec_list_label(name@, selected),
{
    let mut t: Vec<char> = if selected {
        vec!['\u{25b8}', ' ']
    } else {
        vec![' ', ' ']
    };
    let n = chars_of(name);
    append_chars(&mut t, &n);
    string_of(&t)
}

/// The template prompt's title: ` <var> (<n>/<count>) `, `?` where there is
/// no such variable.
pub open spec fn spec_template_title(vars: Seq<Seq<char>>, current: usize) -> Seq<char> {
    let name = if current < vars.len() {
        vars[current as int]
    } else {
        seq!['?']
    };
    seq![' '] + name + seq![' ', '('] + decimal(current as nat + 1) + seq!['/'] + decimal(
        vars.len(),
    ) + seq![')', ' ']
}

/// The template prompt's title.
pub fn template_title(vars: &Vec<String>, current: usize) -> (r: String)
    requires
        current < usize::MAX,
    ensures
        r@ == spec_template_title(crate::text::string_views(vars@), current),
{
    let mut t: Vec<char> = vec![' '];
    if current < vars.len() {
        let n = chars_of(vars[current].as_str());
        append_chars(&mut t, &n);
    } else {
        t.push('?');
    }
    t.push(' ');
    t.push('(');
    let a = usize_to_chars(current + 1);
    append_chars(&mut t, &a);
    t.push('/');
    let b = usize_to_chars(vars.len());
    append_chars(&mut t, &b);
    t.push(')');
    t.push(' ');
    string_of(&t)
}

// ── Terminal screen ────────────────────────────────────────────────────────

/// A cell of the terminal emulator's screen.
#[derive(Debug, Clone)]
pub struct Cell {
    pub contents: String,
    pub fgcolor: TermColor,
    pub bgcolor: TermColor,
    pub bold: bool,
    pub italic: bool,
    pub underline: bool,
    pub inverse: bool,
}

/// A terminal colour as a screen colour.
pub open spec fn spec_vt100_color(c: TermColor) -> Color {
    match c {
        TermColor::Default => Color::Reset,
        TermColor::Idx(i) => Color::Indexed(i),
        TermColor::Rgb(r, g, b) => Color::Rgb(r, g, b),
    }
}

/// A terminal colour as a screen colour.
pub fn vt100_color(c: TermColor) -> (r: Color)
    ensures
        r == spec_vt100_color(c),
{
    match c {
        TermColor::Default => Color::Reset,
        TermColor::Idx(i) => Color::Indexed(i),
        TermColor::Rgb(r, g, b) => Color::Rgb(r, g, b),
    }
}

/// The style a cell is drawn in.
pub open spec fn cell_style(c: Cell) -> Style {
    Style {
        fg: Some(spec_vt100_color(c.fgcolor)),
        bg: Some(spec_vt100_color(c.bgcolor)),
        bold: c.bold,
        italic: c.italic,
        underlined: c.underline,
        reversed: c.inverse,
    }
}

/// The text a cell shows: its contents, or a space where it is empty.
pub open spec fn cell_text(c: Cell) -> Seq<char> {
    if c.contents@.len() == 0 {
        seq![' ']
    } else {
        c.contents@
    }
}

/// The spans of a row of cells: each cell's text, adjacent cells of one
/// style in one span; missing cells are skipped.
pub open spec fn row_spans(cells: Seq<Option<Cell>>) -> Seq<(Seq<char>, Style)>
    decreases cells.len(),
{
    if cells.len() == 0 {
        seq![]
    } else {
        let spans = row_spans(cells.drop_last());
        match cells.last() {
            None => spans,
            Some(c) => {
                let st = cell_style(c);
                if spans.len() > 0 && spans.last().1 == st {
                    spans.drop_last().push((spans.last().0 + cell_text(c), st))
                } else {
                    spans.push((cell_text(c), st))
                }
            },
        }
    }
}

/// The styled line of a row of the terminal's cells.
pub fn render_row(cells: &Vec<Option<Cell>>) -> (l: Line)
    ensures
        line_view(l) == row_spans(cells@),
{
    let mut texts: Vec<Vec<char>> = Vec::new();
    let mut styles: Vec<Style> = Vec::new();
    let mut i: usize = 0;
    assert(cells@.take(0) =~= seq![]);
    while i < cells.len()
        invariant
            i <= cells.len(),
            texts.len() == styles.len(),
            row_spans(cells@.take(i as int)) =~= Seq::new(
                texts.len() as nat,
                |k: int| (texts@[k]@, styles@[k]),
            ),
        decreases cells.len() - i,
    {
        assert(cells@.take(i + 1).drop_last() =~= cells@.take(i as int));
        assert(cells@.take(i + 1).last() == cells@[i as int]);
        match &cells[i] {
            None => {},
            Some(c) => {
                let text = if c.contents.as_str().is_empty() {
                    vec![' ']
                } else {
                    chars_of(c.contents.as_str())
                };
                assert(text@ =~= cell_text(*c));
                let style = Style {
                    fg: Some(vt100_color(c.fgcolor)),
                    bg: Some(vt100_color(c.bgcolor)),
                    bold: c.bold,
                    italic: c.italic,
                    underlined: c.underline,
                    reversed: c.inverse,
                };
                let n = styles.len();
                if n > 0 && styles[n - 1] == style {
                    let mut last = slice_of(&texts[n - 1], 0, texts[n - 1].len());
                    assert(last@ =~= texts@[n - 1]@);
                    append_chars(&mut last, &text);
                    texts.set(n - 1, last);
                } else {
                    texts.push(text);
                    styles.push(style);
                }
            },
        }
        i += 1;
    }
    assert(cells@.take(cells.len() as int) =~= cells@);
    let mut spans: Vec<Span> = Vec::new();
    let mut k: usize = 0;
    while k < texts.len()
        invariant
            k <= texts.len() == styles.len(),
            spans.len() == k,
            forall|j: int|
                0 <= j < k ==> (#[trigger] spans@[j]).content@ == texts@[j]@ && spans@[j].style
                    == styles@[j],
        decreases texts.len() - k,
    {
        let s = span(slice_of(&texts[k], 0, texts[k].len()), styles[k]);
        assert(texts@[k as int]@.subrange(0, texts@[k as int]@.len() as int) =~= texts@[k as int]@);
        spans.push(s);
        k += 1;
    }
    let l = Line { spans };
    assert(line_view(l) =~= Seq::new(texts.len() as nat, |j: int| (texts@[j]@, styles@[j])));
    l
}

/// Where the cursor is drawn: at its column and row where it is shown and
/// within the area.
pub open spec fn spec_cursor_position(hidden: bool, row: u16, col: u16, area_rows: u16, area_cols: u16) -> Option<(u16, u16)> {
    if hidden {
        None
    } else if row < area_rows && col < area_cols {
        Some((col, row))
    } else {
        None
    }
}

/// Where the cursor is drawn, as (column, row).
pub fn cursor_position(hidden: bool, cursor: (u16, u16), area_rows: u16, area_cols: u16) -> (r: Option<(u16, u16)>)
    ensures
        r == spec_cursor_position(hidden, cursor.0, cursor.1, area_rows, area_cols),
{
    if hidden {
        return None;
    }
    let (crow, ccol) = cursor;
    if crow < area_rows && ccol < area_cols {
        Some((ccol, crow))
    } else {
        None
    }
}

} // verus!
