//! Text as sequences of characters: the string operations that the note and
//! config formats are written in, each stated over `Seq<char>` and implemented
//! over `Vec<char>`.
use vstd::prelude::*;

verus! {

broadcast use vstd::string::group_string_axioms;

// ── Model ──────────────────────────────────────────────────────────────────

/// Unicode `White_Space`, the set that `char::is_whitespace` tests.
pub open spec fn is_ws(c: char) -> bool {
    ||| c == '\t' || c == '\n' || c == '\x0B' || c == '\x0C' || c == '\r' || c == ' '
    ||| c == '\u{85}' || c == '\u{A0}' || c == '\u{1680}'
    ||| ('\u{2000}' <= c && c <= '\u{200A}')
    ||| c == '\u{2028}' || c == '\u{2029}' || c == '\u{202F}' || c == '\u{205F}'
    ||| c == '\u{3000}'
}

/// `s` without its leading whitespace.
pub open spec fn trim_start(s: Seq<char>) -> Seq<char>
    decreases s.len(),
{
    if s.len() > 0 && is_ws(s[0]) {
        trim_start(s.drop_first())
    } else {
        s
    }
}

/// `s` without its trailing whitespace.
pub open spec fn trim_end(s: Seq<char>) -> Seq<char>
    decreases s.len(),
{
    if s.len() > 0 && is_ws(s.last()) {
        trim_end(s.drop_last())
    } else {
        s
    }
}

/// `s` without leading and trailing whitespace.
pub open spec fn trim(s: Seq<char>) -> Seq<char> {
    trim_end(trim_start(s))
}

/// `s` without any leading run of `c`.
pub open spec fn trim_start_matches(s: Seq<char>, c: char) -> Seq<char>
    decreases s.len(),
{
    if s.len() > 0 && s[0] == c {
        trim_start_matches(s.drop_first(), c)
    } else {
        s
    }
}

/// `s` without any trailing run of `c`.
pub open spec fn trim_end_matches(s: Seq<char>, c: char) -> Seq<char>
    decreases s.len(),
{
    if s.len() > 0 && s.last() == c {
        trim_end_matches(s.drop_last(), c)
    } else {
        s
    }
}

/// `p` is a prefix of `s`.
pub open spec fn starts_with(s: Seq<char>, p: Seq<char>) -> bool {
    p.len() <= s.len() && s.take(p.len() as int) == p
}

/// What follows the prefix `p` in `s`, if `s` starts with it.
pub open spec fn strip_prefix(s: Seq<char>, p: Seq<char>) -> Option<Seq<char>> {
    if starts_with(s, p) {
        Some(s.skip(p.len() as int))
    } else {
        None
    }
}

/// The index of the first `c` in `s`, or `s.len()` where there is none.
pub open spec fn first_index(s: Seq<char>, c: char) -> nat
    decreases s.len(),
{
    if s.len() == 0 {
        0
    } else if s[0] == c {
        0
    } else {
        1 + first_index(s.drop_first(), c)
    }
}

/// `first_index` is within `s`.
pub proof fn lemma_first_index_bound(s: Seq<char>, c: char)
    ensures
        first_index(s, c) <= s.len(),
        first_index(s, c) < s.len() ==> s[first_index(s, c) as int] == c,
    decreases s.len(),
{
    if s.len() > 0 && s[0] != c {
        lemma_first_index_bound(s.drop_first(), c);
    }
}

/// The view of an optional string.
pub open spec fn opt_view(o: Option<String>) -> Option<Seq<char>> {
    match o {
        Some(s) => Some(s@),
        None => None,
    }
}

/// The views of a sequence of strings.
pub open spec fn string_views(v: Seq<String>) -> Seq<Seq<char>> {
    v.map_values(|x: String| x@)
}

/// The views of a sequence of character vectors.
pub open spec fn views(v: Seq<Vec<char>>) -> Seq<Seq<char>> {
    v.map_values(|x: Vec<char>| x@)
}

/// `p` occurs in `s` at index `i`.
pub open spec fn occurs_at(s: Seq<char>, p: Seq<char>, i: int) -> bool {
    0 <= i && i + p.len() <= s.len() && s.subrange(i, i + p.len()) == p
}

/// The first index at or after `i` at which `p` occurs in `s`.
pub open spec fn find_from(s: Seq<char>, p: Seq<char>, i: int) -> Option<int>
    decreases s.len() + 1 - i,
{
    if i < 0 || i + p.len() > s.len() {
        None
    } else if occurs_at(s, p, i) {
        Some(i)
    } else {
        find_from(s, p, i + 1)
    }
}

/// The first index at which `p` occurs in `s` (`str::find`).
pub open spec fn find(s: Seq<char>, p: Seq<char>) -> Option<int> {
    find_from(s, p, 0)
}

/// A line without the `'\r'` of a `"\r\n"` ending.
pub open spec fn strip_cr(l: Seq<char>) -> Seq<char> {
    if l.len() > 0 && l.last() == '\r' {
        l.drop_last()
    } else {
        l
    }
}

/// The lines of `s` as `str::lines` gives them: split after each `'\n'`,
/// a `'\r'` just before that `'\n'` removed, no empty line after a final `'\n'`.
pub open spec fn lines(s: Seq<char>) -> Seq<Seq<char>>
    decreases s.len(),
{
    if s.len() == 0 {
        seq![]
    } else {
        let i = first_index(s, '\n');
        proof {
            lemma_first_index_bound(s, '\n');
        }
        if i == s.len() {
            seq![s]
        } else {
            seq![strip_cr(s.take(i as int))] + lines(s.skip(i + 1 as int))
        }
    }
}

/// The pieces of `s` between the occurrences of `c` (`str::split` on a char).
pub open spec fn split(s: Seq<char>, c: char) -> Seq<Seq<char>>
    decreases s.len(),
{
    let i = first_index(s, c);
    proof {
        lemma_first_index_bound(s, c);
    }
    if i == s.len() {
        seq![s]
    } else {
        seq![s.take(i as int)] + split(s.skip(i + 1 as int), c)
    }
}

/// The parts joined, `sep` between each two.
pub open spec fn join(parts: Seq<Seq<char>>, sep: Seq<char>) -> Seq<char>
    decreases parts.len(),
{
    if parts.len() == 0 {
        seq![]
    } else if parts.len() == 1 {
        parts[0]
    } else {
        join(parts.drop_last(), sep) + sep + parts.last()
    }
}

// ── Lemmas ─────────────────────────────────────────────────────────────────

/// `trim_start` drops exactly the leading whitespace up to `j`.
pub proof fn lemma_trim_start_at(s: Seq<char>, j: int)
    requires
        0 <= j <= s.len(),
        forall|k: int| 0 <= k < j ==> is_ws(#[trigger] s[k]),
        j == s.len() || !is_ws(s[j]),
    ensures
        trim_start(s) == s.skip(j),
    decreases j,
{
    if j == 0 {
        assert(s.skip(0) =~= s);
    } else {
        assert(s.drop_first().skip(j - 1) =~= s.skip(j));
        assert forall|k: int| 0 <= k < j - 1 implies is_ws(#[trigger] s.drop_first()[k]) by {
            assert(s.drop_first()[k] == s[k + 1]);
        }
        lemma_trim_start_at(s.drop_first(), j - 1);
    }
}

/// `trim_end` drops exactly the trailing whitespace from `j` on.
pub proof fn lemma_trim_end_at(s: Seq<char>, j: int)
    requires
        0 <= j <= s.len(),
        forall|k: int| j <= k < s.len() ==> is_ws(#[trigger] s[k]),
        j == 0 || !is_ws(s[j - 1]),
    ensures
        trim_end(s) == s.take(j),
    decreases s.len() - j,
{
    if j == s.len() {
        assert(s.take(j) =~= s);
    } else {
        assert(s.drop_last().take(j) =~= s.take(j));
        lemma_trim_end_at(s.drop_last(), j);
    }
}

/// `trim_start_matches` drops exactly the leading run of `c` up to `j`.
pub proof fn lemma_trim_start_matches_at(s: Seq<char>, c: char, j: int)
    requires
        0 <= j <= s.len(),
        forall|k: int| 0 <= k < j ==> #[trigger] s[k] == c,
        j == s.len() || s[j] != c,
    ensures
        trim_start_matches(s, c) == s.skip(j),
    decreases j,
{
    if j == 0 {
        assert(s.skip(0) =~= s);
    } else {
        assert(s.drop_first().skip(j - 1) =~= s.skip(j));
        assert forall|k: int| 0 <= k < j - 1 implies #[trigger] s.drop_first()[k] == c by {
            assert(s.drop_first()[k] == s[k + 1]);
        }
        lemma_trim_start_matches_at(s.drop_first(), c, j - 1);
    }
}

/// `trim_end_matches` drops exactly the trailing run of `c` from `j` on.
pub proof fn lemma_trim_end_matches_at(s: Seq<char>, c: char, j: int)
    requires
        0 <= j <= s.len(),
        forall|k: int| j <= k < s.len() ==> #[trigger] s[k] == c,
        j == 0 || s[j - 1] != c,
    ensures
        trim_end_matches(s, c) == s.take(j),
    decreases s.len() - j,
{
    if j == s.len() {
        assert(s.take(j) =~= s);
    } else {
        assert(s.drop_last().take(j) =~= s.take(j));
        lemma_trim_end_matches_at(s.drop_last(), c, j);
    }
}

/// `first_index` is the index of the first `c`.
pub proof fn lemma_first_index_at(s: Seq<char>, c: char, j: int)
    requires
        0 <= j <= s.len(),
        forall|k: int| 0 <= k < j ==> #[trigger] s[k] != c,
        j == s.len() || s[j] == c,
    ensures
        first_index(s, c) == j,
    decreases j,
{
    if j > 0 {
        assert forall|k: int| 0 <= k < j - 1 implies #[trigger] s.drop_first()[k] != c by {
            assert(s.drop_first()[k] == s[k + 1]);
        }
        lemma_first_index_at(s.drop_first(), c, j - 1);
    }
}

/// Joining one more part appends the separator and that part.
pub proof fn lemma_join_push(parts: Seq<Seq<char>>, sep: Seq<char>, p: Seq<char>)
    requires
        parts.len() > 0,
    ensures
        join(parts.push(p), sep) == join(parts, sep) + sep + p,
{
    assert(parts.push(p).drop_last() =~= parts);
}

/// Joining a part before others puts it and the separator in front.
pub proof fn lemma_join_prepend(p: Seq<char>, parts: Seq<Seq<char>>, sep: Seq<char>)
    requires
        parts.len() > 0,
    ensures
        join(seq![p] + parts, sep) == p + sep + join(parts, sep),
    decreases parts.len(),
{
    let all = seq![p] + parts;
    assert(all.len() >= 2);
    assert(all.last() == parts.last());
    assert(all.drop_last() =~= seq![p] + parts.drop_last());
    assert(join(all, sep) == join(all.drop_last(), sep) + sep + all.last());
    if parts.len() == 1 {
        assert(seq![p] + parts.drop_last() =~= seq![p]);
        assert(join(seq![p], sep) == p);
        assert(join(parts, sep) == parts[0]);
        assert(join(all, sep) =~= p + sep + join(parts, sep));
    } else {
        lemma_join_prepend(p, parts.drop_last(), sep);
        assert(join(parts, sep) == join(parts.drop_last(), sep) + sep + parts.last());
        assert(join(all, sep) =~= p + sep + join(parts, sep));
    }
}

/// No `c` stands before `first_index(s, c)`.
pub proof fn lemma_first_index_before(s: Seq<char>, c: char)
    ensures
        forall|k: int| 0 <= k < first_index(s, c) ==> s[k] != c,
    decreases s.len(),
{
    if s.len() > 0 && s[0] != c {
        lemma_first_index_before(s.drop_first(), c);
        lemma_first_index_bound(s.drop_first(), c);
        assert(first_index(s, c) == 1 + first_index(s.drop_first(), c));
        assert forall|k: int| 0 <= k < first_index(s, c) implies s[k] != c by {
            if k > 0 {
                assert(s[k] == s.drop_first()[k - 1]);
            }
        }
    }
}

/// `s` holds no `'\n'`.
pub open spec fn no_newline(s: Seq<char>) -> bool {
    forall|i: int| 0 <= i < s.len() ==> s[i] != '\n'
}

/// Every `'\n'` in `s` is not preceded by `'\r'`.
pub open spec fn no_cr_before_newline(s: Seq<char>) -> bool {
    forall|i: int| 0 < i < s.len() && #[trigger] s[i] == '\n' ==> s[i - 1] != '\r'
}

/// The lines, each ended by `'\n'`.
pub open spec fn unlines(ls: Seq<Seq<char>>) -> Seq<char>
    decreases ls.len(),
{
    if ls.len() == 0 {
        seq![]
    } else {
        ls[0] + seq!['\n'] + unlines(ls.drop_first())
    }
}

/// One more line ended by `'\n'` at the end.
pub proof fn lemma_unlines_push(ls: Seq<Seq<char>>, l: Seq<char>)
    ensures
        unlines(ls.push(l)) == unlines(ls) + l + seq!['\n'],
    decreases ls.len(),
{
    if ls.len() == 0 {
        assert(ls.push(l).drop_first() =~= Seq::<Seq<char>>::empty());
        assert(unlines(Seq::<Seq<char>>::empty()) == Seq::<char>::empty());
        assert(unlines(ls.push(l)) == ls.push(l)[0] + seq!['\n'] + unlines(ls.push(l).drop_first()));
        assert(unlines(ls.push(l)) =~= unlines(ls) + l + seq!['\n']);
    } else {
        assert(ls.push(l).drop_first() =~= ls.drop_first().push(l));
        lemma_unlines_push(ls.drop_first(), l);
        assert(unlines(ls.push(l)) == ls.push(l)[0] + seq!['\n'] + unlines(ls.push(l).drop_first()));
        assert(unlines(ls.push(l)) =~= unlines(ls) + l + seq!['\n']);
    }
}

/// Lines ended by `'\n'` are read back as they were, followed by the lines
/// of what comes after them.
pub proof fn lemma_lines_unlines(ls: Seq<Seq<char>>, rest: Seq<char>)
    requires
        forall|j: int|
            0 <= j < ls.len() ==> no_newline(#[trigger] ls[j]) && (ls[j].len() == 0
                || ls[j].last() != '\r'),
    ensures
        lines(unlines(ls) + rest) == ls + lines(rest),
    decreases ls.len(),
{
    if ls.len() == 0 {
        assert(unlines(ls) + rest =~= rest);
        assert(ls + lines(rest) =~= lines(rest));
    } else {
        let l = ls[0];
        let tail = unlines(ls.drop_first()) + rest;
        let s = unlines(ls) + rest;
        assert(s =~= l + seq!['\n'] + tail);
        assert(no_newline(ls[0]));
        assert forall|k: int| 0 <= k < l.len() implies #[trigger] s[k] != '\n' by {
            assert(s[k] == l[k]);
        }
        lemma_first_index_at(s, '\n', l.len() as int);
        assert(s.take(l.len() as int) =~= l);
        assert(s.skip(l.len() + 1 as int) =~= tail);
        assert(strip_cr(l) == l);
        assert forall|j: int| 0 <= j < ls.drop_first().len() implies no_newline(
            #[trigger] ls.drop_first()[j],
        ) && (ls.drop_first()[j].len() == 0 || ls.drop_first()[j].last() != '\r') by {
            assert(ls.drop_first()[j] == ls[j + 1]);
        }
        lemma_lines_unlines(ls.drop_first(), rest);
        assert(ls =~= seq![l] + ls.drop_first());
        assert(lines(s) == seq![l] + lines(tail));
        assert(seq![l] + (ls.drop_first() + lines(rest)) =~= ls + lines(rest));
    }
}

/// A final `'\n'` adds no line to a text that ends in neither `'\n'` nor `'\r'`.
pub proof fn lemma_lines_final_newline(b: Seq<char>)
    requires
        b.len() > 0,
        b.last() != '\n',
        b.last() != '\r',
    ensures
        lines(b + seq!['\n']) == lines(b),
    decreases b.len(),
{
    let s = b + seq!['\n'];
    let i = first_index(b, '\n');
    lemma_first_index_bound(b, '\n');
    lemma_first_index_before(b, '\n');
    if i == b.len() {
        assert forall|k: int| 0 <= k < b.len() implies #[trigger] s[k] != '\n' by {
            assert(s[k] == b[k]);
        }
        lemma_first_index_at(s, '\n', b.len() as int);
        assert(s.take(b.len() as int) =~= b);
        assert(s.skip(b.len() + 1 as int) =~= seq![]);
        assert(lines(b) == seq![b]);
        assert(lines(s) == seq![strip_cr(b)] + lines(seq![]));
        assert(lines(s) =~= seq![b]);
    } else {
        assert forall|k: int| 0 <= k < i implies #[trigger] s[k] != '\n' by {
            assert(s[k] == b[k]);
        }
        lemma_first_index_at(s, '\n', i as int);
        let rest = b.skip(i + 1 as int);
        assert(s.take(i as int) =~= b.take(i as int));
        assert(s.skip(i + 1 as int) =~= rest + seq!['\n']);
        assert(rest.len() > 0);
        assert(rest.last() == b.last());
        lemma_lines_final_newline(rest);
    }
}

/// Joining the lines of a text with `'\n'` gives the text back, where no
/// line ends in `'\r'` before its `'\n'` and the text does not end in `'\n'`.
pub proof fn lemma_join_lines(b: Seq<char>)
    requires
        b.len() == 0 || b.last() != '\n',
        no_cr_before_newline(b),
    ensures
        join(lines(b), seq!['\n']) == b,
    decreases b.len(),
{
    if b.len() > 0 {
        let i = first_index(b, '\n');
        lemma_first_index_bound(b, '\n');
        if i < b.len() {
            let rest = b.skip(i + 1 as int);
            assert(rest.len() > 0);
            assert(rest.last() == b.last());
            assert forall|j: int| 0 < j < rest.len() && #[trigger] rest[j] == '\n' implies rest[j - 1]
                != '\r' by {
                assert(rest[j] == b[i + 1 + j]);
                assert(rest[j - 1] == b[i + j]);
            }
            lemma_join_lines(rest);
            let first = b.take(i as int);
            assert(strip_cr(first) == first) by {
                if i > 0 {
                    assert(first.last() == b[i - 1]);
                }
            }
            let ls = lines(rest);
            let ri = first_index(rest, '\n');
            lemma_first_index_bound(rest, '\n');
            assert(ls.len() > 0);
            lemma_join_prepend(first, ls, seq!['\n']);
            assert(lines(b) == seq![first] + ls);
            assert(first + seq!['\n'] + rest =~= b);
        }
    }
}

// ── Operations ─────────────────────────────────────────────────────────────

/// Appends one character to a `String` (`String::push`).
#[verifier::external_body]
pub(crate) fn string_push(s: &mut String, c: char)
    ensures
        final(s)@ == old(s)@.push(c),
{
    s.push(c)
}

/// The characters of a string slice, in order.
pub fn chars_of(s: &str) -> (v: Vec<char>)
    ensures
        v@ == s@,
{
    let mut v: Vec<char> = Vec::new();
    for c in it: s.chars()
        invariant
            v@ == it.seq().take(it.index() as int),
            it.seq() == s@,
    {
        v.push(c);
    }
    v
}

/// The `String` with these characters.
pub fn string_of(v: &Vec<char>) -> (s: String)
    ensures
        s@ == v@,
{
    let mut s = String::new();
    let mut i: usize = 0;
    while i < v.len()
        invariant
            i <= v.len(),
            s@ == v@.take(i as int),
        decreases v.len() - i,
    {
        string_push(&mut s, v[i]);
        assert(v@.take(i + 1) =~= v@.take(i as int).push(v@[i as int]));
        i += 1;
    }
    assert(v@.take(v.len() as int) =~= v@);
    s
}

/// The `String`s with these characters.
pub fn strings_of(v: &Vec<Vec<char>>) -> (r: Vec<String>)
    ensures
        string_views(r@) == views(v@),
{
    let mut r: Vec<String> = Vec::new();
    let mut i: usize = 0;
    while i < v.len()
        invariant
            i <= v.len(),
            string_views(r@) == views(v@).take(i as int),
        decreases v.len() - i,
    {
        let s = string_of(&v[i]);
        let ghost before = r@;
        r.push(s);
        assert(string_views(r@) =~= string_views(before).push(s@));
        assert(views(v@).take(i + 1) =~= views(v@).take(i as int).push(v@[i as int]@));
        i += 1;
    }
    assert(views(v@).take(v.len() as int) =~= views(v@));
    r
}

/// `char::is_whitespace`.
pub fn is_whitespace(c: char) -> (b: bool)
    ensures
        b == is_ws(c),
{
    c == '\t' || c == '\n' || c == '\x0B' || c == '\x0C' || c == '\r' || c == ' ' || c
        == '\u{85}' || c == '\u{A0}' || c == '\u{1680}' || ('\u{2000}' <= c && c <= '\u{200A}')
        || c == '\u{2028}' || c == '\u{2029}' || c == '\u{202F}' || c == '\u{205F}' || c
        == '\u{3000}'
}

/// The characters of `s` from `lo` up to `hi`.
pub fn slice_of(s: &Vec<char>, lo: usize, hi: usize) -> (r: Vec<char>)
    requires
        lo <= hi <= s.len(),
    ensures
        r@ == s@.subrange(lo as int, hi as int),
{
    let mut r: Vec<char> = Vec::new();
    let mut i = lo;
    while i < hi
        invariant
            lo <= i <= hi,
            hi <= s.len(),
            r@ == s@.subrange(lo as int, i as int),
        decreases hi - i,
    {
        r.push(s[i]);
        assert(s@.subrange(lo as int, i + 1) =~= s@.subrange(lo as int, i as int).push(
            s@[i as int],
        ));
        i += 1;
    }
    r
}

/// Whether two character vectors hold the same characters.
pub fn chars_eq(a: &Vec<char>, b: &Vec<char>) -> (r: bool)
    ensures
        r == (a@ == b@),
{
    if a.len() != b.len() {
        return false;
    }
    let mut i: usize = 0;
    while i < a.len()
        invariant
            i <= a.len() == b.len(),
            forall|k: int| 0 <= k < i ==> a@[k] == b@[k],
        decreases a.len() - i,
    {
        if a[i] != b[i] {
            return false;
        }
        i += 1;
    }
    assert(a@ =~= b@);
    true
}

/// `str::trim`.
pub fn trimmed(s: &Vec<char>) -> (r: Vec<char>)
    ensures
        r@ == trim(s@),
{
    let mut lo: usize = 0;
    while lo < s.len() && is_whitespace(s[lo])
        invariant
            lo <= s.len(),
            forall|k: int| 0 <= k < lo ==> is_ws(#[trigger] s@[k]),
        decreases s.len() - lo,
    {
        lo += 1;
    }
    proof {
        lemma_trim_start_at(s@, lo as int);
    }
    let mut hi: usize = s.len();
    while hi > lo && is_whitespace(s[hi - 1])
        invariant
            lo <= hi <= s.len(),
            forall|k: int| hi <= k < s.len() ==> is_ws(#[trigger] s@[k]),
        decreases hi,
    {
        hi -= 1;
    }
    proof {
        let t = s@.skip(lo as int);
        assert forall|k: int| hi - lo <= k < t.len() implies is_ws(#[trigger] t[k]) by {
            assert(t[k] == s@[k + lo]);
        }
        lemma_trim_end_at(t, hi - lo);
        assert(t.take(hi - lo) =~= s@.subrange(lo as int, hi as int));
    }
    slice_of(s, lo, hi)
}

/// `str::trim_start`.
pub fn trimmed_start(s: &Vec<char>) -> (r: Vec<char>)
    ensures
        r@ == trim_start(s@),
{
    let mut lo: usize = 0;
    while lo < s.len() && is_whitespace(s[lo])
        invariant
            lo <= s.len(),
            forall|k: int| 0 <= k < lo ==> is_ws(#[trigger] s@[k]),
        decreases s.len() - lo,
    {
        lo += 1;
    }
    proof {
        lemma_trim_start_at(s@, lo as int);
        assert(s@.skip(lo as int) =~= s@.subrange(lo as int, s.len() as int));
    }
    slice_of(s, lo, s.len())
}

/// `str::trim_end`.
pub fn trimmed_end(s: &Vec<char>) -> (r: Vec<char>)
    ensures
        r@ == trim_end(s@),
{
    let mut hi: usize = s.len();
    while hi > 0 && is_whitespace(s[hi - 1])
        invariant
            hi <= s.len(),
            forall|k: int| hi <= k < s.len() ==> is_ws(#[trigger] s@[k]),
        decreases hi,
    {
        hi -= 1;
    }
    proof {
        lemma_trim_end_at(s@, hi as int);
        assert(s@.take(hi as int) =~= s@.subrange(0, hi as int));
    }
    slice_of(s, 0, hi)
}

/// `str::trim_start_matches` with a single character.
pub fn trimmed_start_matches(s: &Vec<char>, c: char) -> (r: Vec<char>)
    ensures
        r@ == trim_start_matches(s@, c),
{
    let mut lo: usize = 0;
    while lo < s.len() && s[lo] == c
        invariant
            lo <= s.len(),
            forall|k: int| 0 <= k < lo ==> #[trigger] s@[k] == c,
        decreases s.len() - lo,
    {
        lo += 1;
    }
    proof {
        lemma_trim_start_matches_at(s@, c, lo as int);
        assert(s@.skip(lo as int) =~= s@.subrange(lo as int, s.len() as int));
    }
    slice_of(s, lo, s.len())
}

/// `str::trim_end_matches` with a single character.
pub fn trimmed_end_matches(s: &Vec<char>, c: char) -> (r: Vec<char>)
    ensures
        r@ == trim_end_matches(s@, c),
{
    let mut hi: usize = s.len();
    while hi > 0 && s[hi - 1] == c
        invariant
            hi <= s.len(),
            forall|k: int| hi <= k < s.len() ==> #[trigger] s@[k] == c,
        decreases hi,
    {
        hi -= 1;
    }
    proof {
        lemma_trim_end_matches_at(s@, c, hi as int);
        assert(s@.take(hi as int) =~= s@.subrange(0, hi as int));
    }
    slice_of(s, 0, hi)
}

/// Whether `s` starts with `p`.
pub fn has_prefix(s: &Vec<char>, p: &Vec<char>) -> (b: bool)
    ensures
        b == starts_with(s@, p@),
{
    if p.len() > s.len() {
        return false;
    }
    let mut i: usize = 0;
    while i < p.len()
        invariant
            i <= p.len() <= s.len(),
            forall|k: int| 0 <= k < i ==> s@[k] == p@[k],
        decreases p.len() - i,
    {
        if s[i] != p[i] {
            assert(s@.take(p.len() as int)[i as int] != p@[i as int]);
            return false;
        }
        i += 1;
    }
    assert(s@.take(p.len() as int) =~= p@);
    true
}

/// Whether `p` occurs in `s` at `i`.
fn occurs(s: &Vec<char>, p: &Vec<char>, i: usize) -> (b: bool)
    ensures
        b == occurs_at(s@, p@, i as int),
{
    if i > s.len() || p.len() > s.len() - i {
        return false;
    }
    let mut k: usize = 0;
    while k < p.len()
        invariant
            k <= p.len(),
            i + p.len() <= s.len(),
            forall|m: int| 0 <= m < k ==> s@[i + m] == p@[m],
        decreases p.len() - k,
    {
        if s[i + k] != p[k] {
            assert(s@.subrange(i as int, i + p.len())[k as int] != p@[k as int]);
            return false;
        }
        k += 1;
    }
    assert(s@.subrange(i as int, i + p.len()) =~= p@);
    true
}

/// `str::find` with a string pattern.
pub fn find_in(s: &Vec<char>, p: &Vec<char>) -> (r: Option<usize>)
    ensures
        match r {
            Some(i) => find(s@, p@) == Some(i as int) && occurs_at(s@, p@, i as int),
            None => find(s@, p@) is None,
        },
{
    let mut i: usize = 0;
    loop
        invariant
            i <= s.len(),
            find(s@, p@) == find_from(s@, p@, i as int),
        decreases s.len() - i,
    {
        if p.len() > s.len() - i {
            return None;
        }
        if occurs(s, p, i) {
            return Some(i);
        }
        assert(p@.len() == 0 ==> s@.subrange(i as int, i as int) =~= p@);
        i += 1;
    }
}

/// The index of the first `c` in `s`, or `s.len()`.
pub fn index_of(s: &Vec<char>, c: char) -> (r: usize)
    ensures
        r == first_index(s@, c),
        r <= s.len(),
{
    let mut i: usize = 0;
    while i < s.len() && s[i] != c
        invariant
            i <= s.len(),
            forall|k: int| 0 <= k < i ==> #[trigger] s@[k] != c,
        decreases s.len() - i,
    {
        i += 1;
    }
    proof {
        lemma_first_index_at(s@, c, i as int);
    }
    i
}

/// `str::lines`.
pub fn split_lines(s: &Vec<char>) -> (r: Vec<Vec<char>>)
    ensures
        views(r@) == lines(s@),
{
    let mut r: Vec<Vec<char>> = Vec::new();
    let mut rest = slice_of(s, 0, s.len());
    assert(s@.subrange(0, s.len() as int) =~= s@);
    while rest.len() > 0
        invariant
            lines(s@) == views(r@) + lines(rest@),
        decreases rest.len(),
    {
        let i = index_of(&rest, '\n');
        if i == rest.len() {
            r.push(rest);
            assert(lines(s@) =~= views(r@));
            return r;
        }
        let mut line = slice_of(&rest, 0, i);
        if line.len() > 0 && line[line.len() - 1] == '\r' {
            line.pop();
        }
        assert(line@ == strip_cr(rest@.take(i as int)));
        let next = slice_of(&rest, i + 1, rest.len());
        assert(next@ =~= rest@.skip(i + 1));
        let ghost before = views(r@);
        r.push(line);
        assert(views(r@) =~= before.push(line@));
        assert(lines(s@) =~= views(r@) + lines(next@));
        rest = next;
    }
    assert(lines(s@) =~= views(r@));
    r
}

/// `str::split` on a character.
pub fn split_on(s: &Vec<char>, c: char) -> (r: Vec<Vec<char>>)
    ensures
        views(r@) == split(s@, c),
{
    let mut r: Vec<Vec<char>> = Vec::new();
    let mut rest = slice_of(s, 0, s.len());
    assert(s@.subrange(0, s.len() as int) =~= s@);
    loop
        invariant
            split(s@, c) == views(r@) + split(rest@, c),
        decreases rest.len(),
    {
        let i = index_of(&rest, c);
        if i == rest.len() {
            let ghost before = views(r@);
            r.push(rest);
            assert(views(r@) =~= before.push(rest@));
            assert(split(s@, c) =~= views(r@));
            return r;
        }
        let piece = slice_of(&rest, 0, i);
        let next = slice_of(&rest, i + 1, rest.len());
        assert(next@ =~= rest@.skip(i + 1));
        let ghost before = views(r@);
        r.push(piece);
        assert(views(r@) =~= before.push(piece@));
        assert(split(s@, c) =~= views(r@) + split(next@, c));
        rest = next;
    }
}

/// Appends `t` to `s`.
pub fn append_chars(s: &mut Vec<char>, t: &Vec<char>)
    ensures
        final(s)@ == old(s)@ + t@,
{
    let mut i: usize = 0;
    while i < t.len()
        invariant
            i <= t.len(),
            s@ == old(s)@ + t@.take(i as int),
        decreases t.len() - i,
    {
        s.push(t[i]);
        assert(t@.take(i + 1) =~= t@.take(i as int).push(t@[i as int]));
        i += 1;
    }
    assert(t@.take(t.len() as int) =~= t@);
}

/// Appends the characters of `t` to `s`.
pub fn push_str(s: &mut Vec<char>, t: &str)
    ensures
        final(s)@ == old(s)@ + t@,
{
    let c = chars_of(t);
    append_chars(s, &c);
}

/// The parts joined, `sep` between each two (`[T]::join`).
pub fn join_with(parts: &Vec<Vec<char>>, sep: &Vec<char>) -> (r: Vec<char>)
    ensures
        r@ == join(views(parts@), sep@),
{
    let mut r: Vec<char> = Vec::new();
    let mut i: usize = 0;
    while i < parts.len()
        invariant
            i <= parts.len(),
            r@ == join(views(parts@).take(i as int), sep@),
        decreases parts.len() - i,
    {
        let ghost pv = views(parts@);
        if i > 0 {
            append_chars(&mut r, sep);
            proof {
                lemma_join_push(pv.take(i as int), sep@, pv[i as int]);
            }
        } else {
            assert(pv.take(1) =~= seq![pv[0]]);
        }
        append_chars(&mut r, &parts[i]);
        assert(pv.take(i + 1) =~= pv.take(i as int).push(pv[i as int]));
        i += 1;
    }
    assert(views(parts@).take(parts.len() as int) =~= views(parts@));
    r
}

// ── Numbers ────────────────────────────────────────────────────────────────

/// The decimal digit for `d < 10`.
pub open spec fn digit_char(d: nat) -> char {
    (48 + d) as char
}

/// `n` in decimal, as `format!("{n}")` writes it.
pub open spec fn decimal(n: nat) -> Seq<char>
    decreases n,
{
    if n < 10 {
        seq![digit_char(n)]
    } else {
        decimal(n / 10).push(digit_char(n % 10))
    }
}

/// `c` is an ASCII digit.
pub open spec fn is_digit(c: char) -> bool {
    '0' <= c && c <= '9'
}

/// The value of a string of decimal digits.
pub open spec fn dec_value(d: Seq<char>) -> nat
    decreases d.len(),
{
    if d.len() == 0 {
        0
    } else {
        dec_value(d.drop_last()) * 10 + (d.last() as nat - 48) as nat
    }
}

/// `str::parse::<usize>`: an optional `+`, then one or more ASCII digits
/// whose value fits in a `usize`.
pub open spec fn spec_parse_usize(s: Seq<char>) -> Option<nat> {
    let d = digits_part(s);
    if d.len() > 0 && all_digits(d) && dec_value(d) <= usize::MAX {
        Some(dec_value(d))
    } else {
        None
    }
}

/// `s` without a leading `+`.
pub open spec fn digits_part(s: Seq<char>) -> Seq<char> {
    if s.len() > 0 && s[0] == '+' {
        s.drop_first()
    } else {
        s
    }
}

/// Every character of `d` is an ASCII digit.
pub open spec fn all_digits(d: Seq<char>) -> bool {
    forall|i: int| 0 <= i < d.len() ==> is_digit(#[trigger] d[i])
}

/// A longer digit string has at least the value of its prefix.
pub proof fn lemma_dec_value_prefix(d: Seq<char>, k: int)
    requires
        0 <= k <= d.len(),
        forall|i: int| 0 <= i < d.len() ==> is_digit(#[trigger] d[i]),
    ensures
        dec_value(d.take(k)) <= dec_value(d),
    decreases d.len() - k,
{
    if k < d.len() {
        assert(d.drop_last().take(k) =~= d.take(k));
        assert forall|i: int| 0 <= i < d.drop_last().len() implies is_digit(
            #[trigger] d.drop_last()[i],
        ) by {
            assert(d.drop_last()[i] == d[i]);
        }
        lemma_dec_value_prefix(d.drop_last(), k);
    } else {
        assert(d.take(k) =~= d);
    }
}

/// The digit character of `d < 10`.
fn digit(d: usize) -> (c: char)
    requires
        d < 10,
    ensures
        c == digit_char(d as nat),
{
    match d {
        0 => '0',
        1 => '1',
        2 => '2',
        3 => '3',
        4 => '4',
        5 => '5',
        6 => '6',
        7 => '7',
        8 => '8',
        _ => '9',
    }
}

/// `n` in decimal.
pub fn usize_to_chars(n: usize) -> (r: Vec<char>)
    ensures
        r@ == decimal(n as nat),
    decreases n,
{
    if n < 10 {
        let mut r = Vec::new();
        r.push(digit(n));
        assert(r@ =~= seq![digit_char(n as nat)]);
        r
    } else {
        let mut r = usize_to_chars(n / 10);
        r.push(digit(n % 10));
        r
    }
}

/// `n` in decimal.
pub fn u64_to_chars(n: u64) -> (r: Vec<char>)
    ensures
        r@ == decimal(n as nat),
    decreases n,
{
    if n < 10 {
        let mut r = Vec::new();
        r.push(digit(n as usize));
        assert(r@ =~= seq![digit_char(n as nat)]);
        r
    } else {
        let mut r = u64_to_chars(n / 10);
        r.push(digit((n % 10) as usize));
        r
    }
}

/// `n` in decimal, with a `-` where it is negative (`i64`'s `Display`).
pub open spec fn signed_decimal(n: int) -> Seq<char> {
    if n < 0 {
        seq!['-'] + decimal((-n) as nat)
    } else {
        decimal(n as nat)
    }
}

/// `n` in decimal, with a `-` where it is negative.
pub fn i64_to_chars(n: i64) -> (r: Vec<char>)
    ensures
        r@ == signed_decimal(n as int),
{
    if n < 0 {
        let m: u64 = ((-(n + 1)) as u64) + 1;
        let mut r = vec!['-'];
        let d = u64_to_chars(m);
        append_chars(&mut r, &d);
        r
    } else {
        u64_to_chars(n as u64)
    }
}

/// `str::parse::<usize>`.
pub fn parse_usize(s: &Vec<char>) -> (r: Option<usize>)
    ensures
        match (r, spec_parse_usize(s@)) {
            (Some(v), Some(w)) => v == w,
            (None, None) => true,
            _ => false,
        },
{
    let start: usize = if s.len() > 0 && s[0] == '+' {
        1
    } else {
        0
    };
    let ghost d = digits_part(s@);
    assert(d =~= s@.skip(start as int));
    if start >= s.len() {
        return None;
    }
    let mut i = start;
    while i < s.len()
        invariant
            start <= i <= s.len(),
            d =~= s@.skip(start as int),
            d == digits_part(s@),
            forall|k: int| start <= k < i ==> is_digit(#[trigger] s@[k]),
        decreases s.len() - i,
    {
        if !('0' <= s[i] && s[i] <= '9') {
            assert(spec_parse_usize(s@) is None) by {
                assert(!is_digit(d[i - start]));
            }
            return None;
        }
        i += 1;
    }
    assert forall|k: int| 0 <= k < d.len() implies is_digit(#[trigger] d[k]) by {
        assert(d[k] == s@[k + start]);
    }
    let mut acc: usize = 0;
    let mut j = start;
    assert(d.take(0) =~= seq![]);
    while j < s.len()
        invariant
            start <= j <= s.len(),
            d =~= s@.skip(start as int),
            d == digits_part(s@),
            forall|k: int| 0 <= k < d.len() ==> is_digit(#[trigger] d[k]),
            acc == dec_value(d.take(j - start)),
        decreases s.len() - j,
    {
        let ghost k = j - start;
        assert(d.take(k + 1).drop_last() =~= d.take(k));
        assert(d.take(k + 1).last() == s@[j as int]);
        let dv = (s[j] as u32 - 48) as usize;
        let next = match acc.checked_mul(10) {
            Some(m) => m.checked_add(dv),
            None => None,
        };
        match next {
            Some(n) => {
                acc = n;
            },
            None => {
                proof {
                    lemma_dec_value_prefix(d, k + 1);
                }
                return None;
            },
        }
        j += 1;
    }
    assert(d.take(d.len() as int) =~= d);
    Some(acc)
}

// ── Replacing ──────────────────────────────────────────────────────────────

/// `s` with every occurrence of `p` (left to right, not overlapping)
/// replaced by `r` (`str::replace`; `p` is not empty).
pub open spec fn spec_replace(s: Seq<char>, p: Seq<char>, r: Seq<char>) -> Seq<char>
    decreases s.len(),
{
    if s.len() == 0 || p.len() == 0 {
        s
    } else if starts_with(s, p) {
        r + spec_replace(s.skip(p.len() as int), p, r)
    } else {
        seq![s[0]] + spec_replace(s.drop_first(), p, r)
    }
}

/// `str::replace` with a non-empty pattern.
pub fn replace_all(s: &Vec<char>, p: &Vec<char>, r: &Vec<char>) -> (out: Vec<char>)
    requires
        p.len() > 0,
    ensures
        out@ == spec_replace(s@, p@, r@),
{
    let mut out: Vec<char> = Vec::new();
    let mut i: usize = 0;
    assert(s@.skip(0) =~= s@);
    while i < s.len()
        invariant
            i <= s.len(),
            p.len() > 0,
            spec_replace(s@, p@, r@) == out@ + spec_replace(s@.skip(i as int), p@, r@),
        decreases s.len() - i,
    {
        let ghost rest = s@.skip(i as int);
        if occurs(s, p, i) {
            assert(rest.take(p.len() as int) =~= s@.subrange(i as int, i + p.len()));
            assert(rest.skip(p.len() as int) =~= s@.skip(i + p.len()));
            append_chars(&mut out, r);
            i += p.len();
        } else {
            assert(!starts_with(rest, p@)) by {
                if starts_with(rest, p@) {
                    assert(rest.take(p.len() as int) =~= s@.subrange(i as int, i + p.len()));
                }
            }
            assert(rest.drop_first() =~= s@.skip(i + 1));
            out.push(s[i]);
            i += 1;
        }
    }
    assert(s@.skip(i as int) =~= seq![]);
    out
}

} // verus!
