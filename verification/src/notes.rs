//! Markdown notes: YAML-style frontmatter (`name`, `tags`), the first `# `
//! heading as title, and the fenced code blocks that can be run.
use vstd::prelude::*;

use crate::sorting::{keyed, stable_sort, stable_sorted};
use crate::text::{
    chars_of, find, find_in, has_prefix, join, join_with, lines, opt_view, slice_of, split,
    split_lines, split_on, starts_with, string_of, string_views, strings_of, strip_prefix, trim,
    trim_end_matches, trim_start, trim_start_matches, trimmed, trimmed_end_matches,
    trimmed_start, trimmed_start_matches, views,
};

verus! {

/// A parsed note loaded from a .md file.
#[derive(Debug, Clone)]
pub struct Note {
    pub name: String,
    pub title: Option<String>,
    pub tags: Vec<String>,
    pub body: String,
    pub code_blocks: Vec<CodeBlock>,
    pub path: String,
}

/// A fenced code block extracted from markdown.
#[derive(Debug, Clone)]
pub struct CodeBlock {
    pub content: String,
}

// ── Model ──────────────────────────────────────────────────────────────────

/// `---`
pub open spec fn dashes() -> Seq<char> {
    seq!['-', '-', '-']
}

/// `\n---`, the line that closes the frontmatter.
pub open spec fn closing_dashes() -> Seq<char> {
    seq!['\n', '-', '-', '-']
}

/// The fence that opens and closes a code block.
pub open spec fn fence() -> Seq<char> {
    seq!['`', '`', '`']
}

/// `name:`
pub open spec fn name_key() -> Seq<char> {
    seq!['n', 'a', 'm', 'e', ':']
}

/// `tags:`
pub open spec fn tags_key() -> Seq<char> {
    seq!['t', 'a', 'g', 's', ':']
}

/// `# `, the start of a top-level heading.
pub open spec fn heading_mark() -> Seq<char> {
    seq!['#', ' ']
}

/// Frontmatter and body of a note's text. The frontmatter stands between an
/// opening `---` line (after leading whitespace) and the closing line that
/// starts with `---`; where the closing line comes right after the opening
/// one, the frontmatter is empty and the body follows the closing line.
/// Without a closing line, the frontmatter is empty and the body is all the
/// text.
pub open spec fn spec_split_frontmatter(content: Seq<char>) -> (Seq<char>, Seq<char>) {
    let trimmed = trim_start(content);
    if !starts_with(trimmed, dashes()) {
        (seq![], content)
    } else {
        let rest = trim_start_matches(trim_start_matches(trimmed.skip(3), '-'), '\n');
        if starts_with(rest, dashes()) {
            (seq![], trim_start(trim_start_matches(rest.skip(3), '-')))
        } else {
            match find(rest, closing_dashes()) {
                Some(end) => (
                    rest.take(end),
                    trim_start(trim_start_matches(rest.skip(end + 4), '-')),
                ),
                None => (seq![], content),
            }
        }
    }
}

/// `s` without one pair of surrounding double or single quotes.
pub open spec fn spec_unquote(s: Seq<char>) -> Seq<char> {
    if s.len() >= 2 && ((s[0] == '"' && s.last() == '"') || (s[0] == '\'' && s.last()
        == '\'')) {
        s.subrange(1, s.len() - 1)
    } else {
        s
    }
}

/// The non-empty unquoted, trimmed pieces, in order.
pub open spec fn clean_tags(pieces: Seq<Seq<char>>) -> Seq<Seq<char>>
    decreases pieces.len(),
{
    if pieces.len() == 0 {
        seq![]
    } else {
        let rest = clean_tags(pieces.drop_last());
        let t = spec_unquote(trim(pieces.last()));
        if t.len() > 0 {
            rest.push(t)
        } else {
            rest
        }
    }
}

/// The tags of a list like `[build, "install", run]`.
pub open spec fn spec_parse_tag_list(s: Seq<char>) -> Seq<Seq<char>> {
    clean_tags(split(trim_end_matches(trim_start_matches(s, '['), ']'), ','))
}

/// The name that a frontmatter line sets, if it is a `name:` line.
pub open spec fn line_name(l: Seq<char>) -> Option<Seq<char>> {
    match strip_prefix(trim(l), name_key()) {
        Some(v) => Some(spec_unquote(trim(v))),
        None => None,
    }
}

/// The tags that a frontmatter line sets, if it is a `tags:` line.
pub open spec fn line_tags(l: Seq<char>) -> Option<Seq<Seq<char>>> {
    match strip_prefix(trim(l), tags_key()) {
        Some(v) => Some(spec_parse_tag_list(trim(v))),
        None => None,
    }
}

/// The name set by the last `name:` line.
pub open spec fn fm_name(ls: Seq<Seq<char>>) -> Option<Seq<char>>
    decreases ls.len(),
{
    if ls.len() == 0 {
        None
    } else {
        match line_name(ls.last()) {
            Some(n) => Some(n),
            None => fm_name(ls.drop_last()),
        }
    }
}

/// The tags set by the last `tags:` line; none without one.
pub open spec fn fm_tags(ls: Seq<Seq<char>>) -> Seq<Seq<char>>
    decreases ls.len(),
{
    if ls.len() == 0 {
        seq![]
    } else {
        match line_tags(ls.last()) {
            Some(t) => t,
            None => fm_tags(ls.drop_last()),
        }
    }
}

/// The text of the first line whose trimmed form starts with `# `.
pub open spec fn title_of(ls: Seq<Seq<char>>) -> Option<Seq<char>>
    decreases ls.len(),
{
    if ls.len() == 0 {
        None
    } else if starts_with(trim(ls[0]), heading_mark()) {
        Some(trim(ls[0]).skip(2))
    } else {
        title_of(ls.drop_first())
    }
}

/// A line opens or closes a code block.
pub open spec fn is_fence(l: Seq<char>) -> bool {
    starts_with(trim(l), fence())
}

/// Where a scan of lines stands: the blocks closed so far, whether a block
/// is open, and the lines of the open block.
pub open spec fn block_scan(ls: Seq<Seq<char>>) -> (Seq<Seq<char>>, bool, Seq<Seq<char>>)
    decreases ls.len(),
{
    if ls.len() == 0 {
        (seq![], false, seq![])
    } else {
        let (blocks, open, cur) = block_scan(ls.drop_last());
        let l = ls.last();
        if !open && is_fence(l) {
            (blocks, true, seq![])
        } else if open && is_fence(l) {
            (blocks.push(join(cur, seq!['\n'])), false, cur)
        } else if open {
            (blocks, true, cur.push(l))
        } else {
            (blocks, false, cur)
        }
    }
}

/// The contents of the closed fenced code blocks of a body, in order: the
/// lines between a fence and the next fence, joined by `\n`.
pub open spec fn code_blocks_of(body: Seq<char>) -> Seq<Seq<char>> {
    block_scan(lines(body)).0
}

/// The contents of code blocks.
pub open spec fn block_contents(bs: Seq<CodeBlock>) -> Seq<Seq<char>> {
    bs.map_values(|b: CodeBlock| b.content@)
}

/// The note that `parse_note` makes of a slug, the file's text and its path.
pub open spec fn note_matches(n: Note, slug: Seq<char>, content: Seq<char>, path: Seq<char>) -> bool {
    let (fm, body) = spec_split_frontmatter(content);
    let fl = lines(fm);
    &&& n.name@ == match fm_name(fl) {
        Some(v) => v,
        None => slug,
    }
    &&& opt_view(n.title) == title_of(lines(body))
    &&& string_views(n.tags@) == fm_tags(fl)
    &&& n.body@ == body
    &&& block_contents(n.code_blocks@) == code_blocks_of(body)
    &&& n.path@ == path
}

// ── Parsing ────────────────────────────────────────────────────────────────

/// Parses a markdown file's content into a Note: the frontmatter's `name`
/// (else the slug) and `tags`, the first `# heading` as title, and all
/// fenced code blocks of the body.
pub fn parse_note(slug: &str, content: &str, path: &str) -> (note: Note)
    ensures
        note_matches(note, slug@, content@, path@),
{
    let content = chars_of(content);
    let (frontmatter, body) = split_frontmatter(&content);
    let (fm_name, tags) = parse_frontmatter(&frontmatter);
    let name = match fm_name {
        Some(n) => n,
        None => chars_of(slug),
    };
    let title = extract_title(&body);
    let code_blocks = extract_code_blocks(&body);
    let title = match title {
        Some(t) => Some(string_of(&t)),
        None => None,
    };
    Note {
        name: string_of(&name),
        title,
        tags: strings_of(&tags),
        body: string_of(&body),
        code_blocks,
        path: string_of(&chars_of(path)),
    }
}

/// Splits a note's text into frontmatter and body.
pub fn split_frontmatter(content: &Vec<char>) -> (r: (Vec<char>, Vec<char>))
    ensures
        (r.0@, r.1@) == spec_split_frontmatter(content@),
{
    let whole = slice_of(content, 0, content.len());
    assert(content@.subrange(0, content.len() as int) =~= content@);
    let trimmed = trimmed_start(content);
    let three = vec!['-', '-', '-'];
    assert(three@ =~= dashes());
    if !has_prefix(&trimmed, &three) {
        return (Vec::new(), whole);
    }
    let after_first = slice_of(&trimmed, 3, trimmed.len());
    assert(after_first@ =~= trim_start(content@).skip(3));
    let rest = trimmed_start_matches(&trimmed_start_matches(&after_first, '-'), '\n');
    if has_prefix(&rest, &three) {
        let after = slice_of(&rest, 3, rest.len());
        assert(after@ =~= rest@.skip(3));
        return (Vec::new(), trimmed_start(&trimmed_start_matches(&after, '-')));
    }
    let closing = vec!['\n', '-', '-', '-'];
    assert(closing@ =~= closing_dashes());
    match find_in(&rest, &closing) {
        Some(end) => {
            assert(closing@.len() == 4);
            assert(end + closing@.len() <= rest@.len());
            assert(end + 4 <= rest.len());
            let fm = slice_of(&rest, 0, end);
            let after = slice_of(&rest, end + 4, rest.len());
            let body = trimmed_start(&trimmed_start_matches(&after, '-'));
            assert(fm@ =~= rest@.take(end as int));
            assert(after@ =~= rest@.skip(end + 4));
            (fm, body)
        },
        None => (Vec::new(), whole),
    }
}

/// Removes one pair of surrounding quotes.
pub fn unquote(s: &Vec<char>) -> (r: Vec<char>)
    ensures
        r@ == spec_unquote(s@),
{
    let n = s.len();
    if n >= 2 && ((s[0] == '"' && s[n - 1] == '"') || (s[0] == '\'' && s[n - 1] == '\'')) {
        slice_of(s, 1, n - 1)
    } else {
        slice_of(s, 0, n)
    }
}

/// Parses a YAML-style tag list like `[build, install, run]`.
pub fn parse_tag_list(s: &Vec<char>) -> (r: Vec<Vec<char>>)
    ensures
        views(r@) == spec_parse_tag_list(s@),
{
    let inner = trimmed_end_matches(&trimmed_start_matches(s, '['), ']');
    let pieces = split_on(&inner, ',');
    let ghost pv = views(pieces@);
    let mut r: Vec<Vec<char>> = Vec::new();
    let mut i: usize = 0;
    while i < pieces.len()
        invariant
            i <= pieces.len(),
            pv == views(pieces@),
            views(r@) == clean_tags(pv.take(i as int)),
        decreases pieces.len() - i,
    {
        let t = unquote(&trimmed(&pieces[i]));
        assert(pv.take(i + 1).drop_last() =~= pv.take(i as int));
        if t.len() > 0 {
            let ghost before = r@;
            r.push(t);
            assert(views(r@) =~= views(before).push(t@));
        }
        i += 1;
    }
    assert(pv.take(pieces.len() as int) =~= pv);
    r
}

/// The value after `key` on a trimmed line, trimmed, if the line starts with it.
fn value_after(trimmed_line: &Vec<char>, key: &Vec<char>) -> (r: Option<Vec<char>>)
    ensures
        match strip_prefix(trimmed_line@, key@) {
            Some(v) => r is Some && r->0@ == trim(v),
            None => r is None,
        },
{
    if has_prefix(trimmed_line, key) {
        let v = slice_of(trimmed_line, key.len(), trimmed_line.len());
        assert(v@ =~= trimmed_line@.skip(key@.len() as int));
        Some(trimmed(&v))
    } else {
        None
    }
}

/// Extracts the name and tags from frontmatter text.
pub fn parse_frontmatter(fm: &Vec<char>) -> (r: (Option<Vec<char>>, Vec<Vec<char>>))
    ensures
        match r.0 {
            Some(n) => fm_name(lines(fm@)) == Some(n@),
            None => fm_name(lines(fm@)) is None,
        },
        views(r.1@) == fm_tags(lines(fm@)),
{
    let ls = split_lines(fm);
    let ghost lv = views(ls@);
    let name_k = vec!['n', 'a', 'm', 'e', ':'];
    let tags_k = vec!['t', 'a', 'g', 's', ':'];
    assert(name_k@ =~= name_key());
    assert(tags_k@ =~= tags_key());
    let mut name: Option<Vec<char>> = None;
    let mut tags: Vec<Vec<char>> = Vec::new();
    let mut i: usize = 0;
    while i < ls.len()
        invariant
            i <= ls.len(),
            lv == views(ls@),
            lv == lines(fm@),
            name_k@ == name_key(),
            tags_k@ == tags_key(),
            match name {
                Some(n) => fm_name(lv.take(i as int)) == Some(n@),
                None => fm_name(lv.take(i as int)) is None,
            },
            views(tags@) == fm_tags(lv.take(i as int)),
        decreases ls.len() - i,
    {
        assert(lv.take(i + 1).drop_last() =~= lv.take(i as int));
        assert(lv.take(i + 1).last() == ls@[i as int]@);
        let t = trimmed(&ls[i]);
        match value_after(&t, &name_k) {
            Some(v) => {
                name = Some(unquote(&v));
            },
            None => {
                assert(!starts_with(trim(lv[i as int]), tags_key()) || line_name(lv[i as int])
                    is None);
                match value_after(&t, &tags_k) {
                    Some(v) => {
                        tags = parse_tag_list(&v);
                    },
                    None => {},
                }
            },
        }
        i += 1;
    }
    assert(lv.take(ls.len() as int) =~= lv);
    (name, tags)
}

/// Extracts the first `# heading` of a markdown body.
pub fn extract_title(body: &Vec<char>) -> (r: Option<Vec<char>>)
    ensures
        match r {
            Some(t) => title_of(lines(body@)) == Some(t@),
            None => title_of(lines(body@)) is None,
        },
{
    let ls = split_lines(body);
    let ghost lv = views(ls@);
    let mark = vec!['#', ' '];
    assert(mark@ =~= heading_mark());
    assert(lv.skip(0) =~= lv);
    let mut i: usize = 0;
    while i < ls.len()
        invariant
            i <= ls.len(),
            lv == views(ls@),
            mark@ == heading_mark(),
            title_of(lines(body@)) == title_of(lv.skip(i as int)),
        decreases ls.len() - i,
    {
        assert(lv.skip(i as int)[0] == ls@[i as int]@);
        assert(lv.skip(i as int).drop_first() =~= lv.skip(i + 1));
        let t = trimmed(&ls[i]);
        if has_prefix(&t, &mark) {
            let r = slice_of(&t, 2, t.len());
            assert(r@ =~= t@.skip(2));
            return Some(r);
        }
        i += 1;
    }
    None
}

/// Extracts all closed fenced code blocks of a markdown body.
pub fn extract_code_blocks(body: &Vec<char>) -> (r: Vec<CodeBlock>)
    ensures
        block_contents(r@) == code_blocks_of(body@),
{
    let ls = split_lines(body);
    let ghost lv = views(ls@);
    let fence_v = vec!['`', '`', '`'];
    assert(fence_v@ =~= fence());
    let newline = vec!['\n'];
    let mut blocks: Vec<CodeBlock> = Vec::new();
    let mut in_block = false;
    let mut content_lines: Vec<Vec<char>> = Vec::new();
    let mut i: usize = 0;
    while i < ls.len()
        invariant
            i <= ls.len(),
            lv == views(ls@),
            lv == lines(body@),
            fence_v@ == fence(),
            newline@ == seq!['\n'],
            block_scan(lv.take(i as int)) == (
                block_contents(blocks@),
                in_block,
                views(content_lines@),
            ),
        decreases ls.len() - i,
    {
        assert(lv.take(i + 1).drop_last() =~= lv.take(i as int));
        assert(lv.take(i + 1).last() == ls@[i as int]@);
        let t = trimmed(&ls[i]);
        let is_f = has_prefix(&t, &fence_v);
        if !in_block && is_f {
            in_block = true;
            content_lines = Vec::new();
            assert(views(content_lines@) =~= seq![]);
        } else if in_block && is_f {
            let content = string_of(&join_with(&content_lines, &newline));
            let ghost before = blocks@;
            blocks.push(CodeBlock { content });
            assert(block_contents(blocks@) =~= block_contents(before).push(content@));
            in_block = false;
        } else if in_block {
            let line = slice_of(&ls[i], 0, ls[i].len());
            assert(line@ =~= ls@[i as int]@);
            let ghost before = content_lines@;
            content_lines.push(line);
            assert(views(content_lines@) =~= views(before).push(line@));
        }
        i += 1;
    }
    assert(lv.take(ls.len() as int) =~= lv);
    blocks
}

// ── Note files ─────────────────────────────────────────────────────────────

/// The index of the last `.` in `s`.
pub open spec fn last_dot(s: Seq<char>) -> Option<nat>
    decreases s.len(),
{
    if s.len() == 0 {
        None
    } else if s.last() == '.' {
        Some((s.len() - 1) as nat)
    } else {
        last_dot(s.drop_last())
    }
}

/// The slug of a note file: the file name's stem where its extension is
/// `md` (as `Path::extension` and `Path::file_stem` split a name at its last
/// dot, a leading dot not counting).
pub open spec fn spec_note_slug(file_name: Seq<char>) -> Option<Seq<char>> {
    match last_dot(file_name) {
        Some(i) => if i > 0 && file_name.skip(i + 1 as int) == seq!['m', 'd'] {
            Some(file_name.take(i as int))
        } else {
            None
        },
        None => None,
    }
}

/// The slug of a note file, if the file is a markdown note.
pub fn note_slug(file_name: &str) -> (r: Option<String>)
    ensures
        opt_view(r) == spec_note_slug(file_name@),
{
    let c = chars_of(file_name);
    let mut i = c.len();
    assert(c@.take(i as int) =~= c@);
    while i > 0 && c[i - 1] != '.'
        invariant
            i <= c.len(),
            last_dot(c@) == last_dot(c@.take(i as int)),
        decreases i,
    {
        assert(c@.take(i as int).drop_last() =~= c@.take(i - 1));
        i -= 1;
    }
    if i == 0 {
        assert(c@.take(0) =~= seq![]);
        return None;
    }
    let dot = i - 1;
    assert(c@.take(i as int).last() == c@[dot as int]);
    let ext = slice_of(&c, dot + 1, c.len());
    assert(ext@ =~= c@.skip(dot + 1));
    if dot > 0 && ext.len() == 2 && ext[0] == 'm' && ext[1] == 'd' {
        assert(ext@ =~= seq!['m', 'd']);
        let stem = slice_of(&c, 0, dot);
        assert(stem@ =~= c@.take(dot as int));
        Some(string_of(&stem))
    } else {
        assert(ext@ != seq!['m', 'd'] || dot == 0) by {
            if ext@ == seq!['m', 'd'] {
                assert(ext@.len() == 2 && ext@[0] == 'm' && ext@[1] == 'd');
            }
        }
        None
    }
}

/// `str::to_lowercase`: the string in lower case by Unicode's mappings (of
/// each character, and of a capital sigma by where it stands in a word).
pub uninterp spec fn unicode_lowercase(s: Seq<char>) -> Seq<char>;

/// ASCII upper case letters taken to lower case.
pub open spec fn ascii_lowercase(s: Seq<char>) -> Seq<char> {
    s.map_values(|c: char| if 'A' <= c && c <= 'Z' { ((c as u32) + 32) as char } else { c })
}

/// `str::to_lowercase`: the string in lower case by Unicode's mapping;
/// only the name of that mapping is stated here.
#[verifier::external_body]
fn to_lowercase(s: &str) -> (r: String)
    ensures
        r@ == unicode_lowercase(s@),
{
    s.to_lowercase()
}

/// `s` holds ASCII characters only.
pub open spec fn all_ascii(s: Seq<char>) -> bool {
    forall|i: int| 0 <= i < s.len() ==> #[trigger] s[i] <= '\x7f'
}

/// `str::to_lowercase`: ASCII upper case letters taken to lower case in an
/// ASCII string, Unicode's mapping in any other.
pub open spec fn lowercase(s: Seq<char>) -> Seq<char> {
    if all_ascii(s) {
        ascii_lowercase(s)
    } else {
        unicode_lowercase(s)
    }
}

/// `str::to_lowercase`, computed in place for ASCII strings.
pub fn lowercase_of(s: &str) -> (r: Vec<char>)
    ensures
        r@ == lowercase(s@),
{
    let c = chars_of(s);
    let mut out: Vec<char> = Vec::new();
    let mut i: usize = 0;
    while i < c.len()
        invariant
            i <= c.len(),
            c@ == s@,
            all_ascii(c@.take(i as int)),
            out@ == ascii_lowercase(c@.take(i as int)),
        decreases c.len() - i,
    {
        let ch = c[i];
        if ch > '\x7f' {
            assert(!all_ascii(s@)) by {
                assert(s@[i as int] > '\x7f');
            }
            let l = to_lowercase(s);
            return chars_of(l.as_str());
        }
        let lc = if 'A' <= ch && ch <= 'Z' {
            ((ch as u8) + 32) as char
        } else {
            ch
        };
        out.push(lc);
        assert(c@.take(i + 1) =~= c@.take(i as int).push(ch));
        assert(ascii_lowercase(c@.take(i + 1)) =~= ascii_lowercase(c@.take(i as int)).push(lc));
        assert(all_ascii(c@.take(i + 1))) by {
            assert forall|k: int| 0 <= k < i + 1 implies #[trigger] c@.take(i + 1)[k] <= '\x7f' by {
                if k < i {
                    assert(c@.take(i + 1)[k] == c@.take(i as int)[k]);
                }
            }
        }
        i += 1;
    }
    assert(c@.take(c.len() as int) =~= s@);
    out
}

/// The notes' names in lower case.
pub open spec fn lower_names(notes: Seq<Note>) -> Seq<Seq<char>> {
    notes.map_values(|n: Note| lowercase(n.name@))
}

/// The notes ordered by lower-case name, notes of equal such names in
/// their given order.
pub open spec fn spec_sort_notes(notes: Seq<Note>) -> Seq<Note> {
    stable_sorted(keyed(lower_names(notes), notes)).map_values(|p: (Seq<char>, Note)| p.1)
}

/// Orders notes by name, ignoring case (as the notes list shows them).
pub fn sort_notes(notes: Vec<Note>) -> (r: Vec<Note>)
    ensures
        r@ == spec_sort_notes(notes@),
{
    let mut keys: Vec<Vec<char>> = Vec::new();
    let mut i: usize = 0;
    while i < notes.len()
        invariant
            i <= notes.len(),
            views(keys@) == lower_names(notes@).take(i as int),
        decreases notes.len() - i,
    {
        let k = lowercase_of(notes[i].name.as_str());
        let ghost before = views(keys@);
        keys.push(k);
        assert(views(keys@) =~= before.push(k@));
        assert(lower_names(notes@).take(i + 1) =~= lower_names(notes@).take(i as int).push(
            lowercase(notes@[i as int].name@),
        ));
        i += 1;
    }
    assert(lower_names(notes@).take(notes.len() as int) =~= lower_names(notes@));
    stable_sort(notes, keys)
}

// ── New notes ───────────────────────────────────────────────────────────────

/// The text a new note starts with: empty frontmatter, an empty heading and
/// an empty `bash` block.
pub open spec fn new_note_template() -> Seq<char> {
    "---\nname: \ntags: []\n---\n\n# \n\n```bash\n\n```\n"@
}

/// The file name of a note created at unix time `t`: `new-note-<t>.md`.
pub open spec fn spec_new_note_name(t: int) -> Seq<char> {
    "new-note-"@ + crate::text::signed_decimal(t) + ".md"@
}

/// The file name and starting text of a note created at unix time `t`.
pub fn new_note_file(t: i64) -> (r: (String, String))
    ensures
        r.0@ == spec_new_note_name(t as int),
        r.1@ == new_note_template(),
{
    let mut name = chars_of("new-note-");
    let digits = crate::text::i64_to_chars(t);
    crate::text::append_chars(&mut name, &digits);
    crate::text::push_str(&mut name, ".md");
    (string_of(&name), String::from_str("---\nname: \ntags: []\n---\n\n# \n\n```bash\n\n```\n"))
}

} // verus!
