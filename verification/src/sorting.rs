//! Ordering of strings by code point (the order of `str`'s `Ord`, which
//! compares UTF-8 bytes) and a stable sort of items by string keys.
use vstd::prelude::*;

verus! {

/// `a` comes before `b`: at the first difference `a` has the smaller
/// character, or `a` is a proper prefix of `b`.
pub open spec fn lex_lt(a: Seq<char>, b: Seq<char>) -> bool
    decreases a.len(),
{
    if a.len() == 0 {
        b.len() > 0
    } else if b.len() == 0 {
        false
    } else if a[0] != b[0] {
        a[0] < b[0]
    } else {
        lex_lt(a.drop_first(), b.drop_first())
    }
}

/// `a` comes before or equals `b`.
pub open spec fn lex_le(a: Seq<char>, b: Seq<char>) -> bool {
    a == b || lex_lt(a, b)
}

/// Where an item with key `k` goes among sorted keyed items: after every
/// item whose key is not greater.
pub open spec fn insert_pos<T>(s: Seq<(Seq<char>, T)>, k: Seq<char>) -> nat
    decreases s.len(),
{
    if s.len() == 0 {
        0
    } else if lex_lt(k, s[0].0) {
        0
    } else {
        1 + insert_pos(s.drop_first(), k)
    }
}

/// The keyed items in key order, items of equal keys in their first order.
pub open spec fn stable_sorted<T>(s: Seq<(Seq<char>, T)>) -> Seq<(Seq<char>, T)>
    decreases s.len(),
{
    if s.len() == 0 {
        seq![]
    } else {
        let r = stable_sorted(s.drop_last());
        r.insert(insert_pos(r, s.last().0) as int, s.last())
    }
}

/// The keys are in order.
pub open spec fn keys_sorted<T>(s: Seq<(Seq<char>, T)>) -> bool {
    forall|i: int, j: int| 0 <= i < j < s.len() ==> lex_le(#[trigger] s[i].0, #[trigger] s[j].0)
}

// ── Lemmas ─────────────────────────────────────────────────────────────────

/// No string comes before itself.
pub proof fn lemma_lex_irreflexive(a: Seq<char>)
    ensures
        !lex_lt(a, a),
    decreases a.len(),
{
    if a.len() > 0 {
        lemma_lex_irreflexive(a.drop_first());
    }
}

/// Of two different strings one comes first.
pub proof fn lemma_lex_total(a: Seq<char>, b: Seq<char>)
    ensures
        a == b || lex_lt(a, b) || lex_lt(b, a),
    decreases a.len(),
{
    if a.len() > 0 && b.len() > 0 && a[0] == b[0] {
        lemma_lex_total(a.drop_first(), b.drop_first());
        if a.drop_first() == b.drop_first() {
            assert(a =~= seq![a[0]] + a.drop_first());
            assert(b =~= seq![b[0]] + b.drop_first());
        }
    } else if a.len() == 0 && b.len() == 0 {
        assert(a =~= b);
    }
}

/// Coming first is transitive.
pub proof fn lemma_lex_transitive(a: Seq<char>, b: Seq<char>, c: Seq<char>)
    requires
        lex_lt(a, b),
        lex_lt(b, c),
    ensures
        lex_lt(a, c),
    decreases a.len(),
{
    if a.len() > 0 && b.len() > 0 && c.len() > 0 && a[0] == b[0] && b[0] == c[0] {
        lemma_lex_transitive(a.drop_first(), b.drop_first(), c.drop_first());
    }
}

/// Not coming first is coming after or being equal.
pub proof fn lemma_lex_not_lt(a: Seq<char>, b: Seq<char>)
    ensures
        !lex_lt(a, b) ==> lex_le(b, a),
{
    lemma_lex_total(a, b);
}

/// The insert position is within the sequence.
pub proof fn lemma_insert_pos_bound<T>(s: Seq<(Seq<char>, T)>, k: Seq<char>)
    ensures
        insert_pos(s, k) <= s.len(),
    decreases s.len(),
{
    if s.len() > 0 && !lex_lt(k, s[0].0) {
        lemma_insert_pos_bound(s.drop_first(), k);
    }
}

/// `insert_pos` is the first index whose key is greater.
pub proof fn lemma_insert_pos_at<T>(s: Seq<(Seq<char>, T)>, k: Seq<char>, j: int)
    requires
        0 <= j <= s.len(),
        forall|i: int| 0 <= i < j ==> !lex_lt(k, #[trigger] s[i].0),
        j == s.len() || lex_lt(k, s[j].0),
    ensures
        insert_pos(s, k) == j,
    decreases j,
{
    if j > 0 {
        assert forall|i: int| 0 <= i < j - 1 implies !lex_lt(k, #[trigger] s.drop_first()[i].0) by {
            assert(s.drop_first()[i] == s[i + 1]);
        }
        lemma_insert_pos_at(s.drop_first(), k, j - 1);
    }
}

/// Inserting at `insert_pos` keeps keys in order.
pub proof fn lemma_insert_keeps_sorted<T>(s: Seq<(Seq<char>, T)>, x: (Seq<char>, T))
    requires
        keys_sorted(s),
    ensures
        keys_sorted(s.insert(insert_pos(s, x.0) as int, x)),
    decreases s.len(),
{
    lemma_insert_pos_bound(s, x.0);
    let p = insert_pos(s, x.0) as int;
    let r = s.insert(p, x);
    assert forall|i: int, j: int| 0 <= i < j < r.len() implies lex_le(
        #[trigger] r[i].0,
        #[trigger] r[j].0,
    ) by {
        if i != p && j != p {
            let si = if i < p {
                i
            } else {
                i - 1
            };
            let sj = if j < p {
                j
            } else {
                j - 1
            };
            assert(r[i] == s[si] && r[j] == s[sj]);
        } else if i == p {
            // x comes before every later item
            let sj = j - 1;
            assert(r[j] == s[sj]);
            lemma_first_greater(s, x.0, sj);
        } else {
            // every earlier item comes before x
            assert(r[i] == s[i]);
            lemma_not_greater_before(s, x.0, i);
        }
    }
}

/// Items from `insert_pos` on have keys at or after `k`.
proof fn lemma_first_greater<T>(s: Seq<(Seq<char>, T)>, k: Seq<char>, j: int)
    requires
        keys_sorted(s),
        insert_pos(s, k) <= j < s.len(),
    ensures
        lex_le(k, s[j].0),
    decreases s.len(),
{
    if s.len() > 0 {
        if lex_lt(k, s[0].0) {
            if j == 0 {
            } else {
                assert(lex_le(s[0].0, s[j].0));
                if s[0].0 != s[j].0 {
                    lemma_lex_transitive(k, s[0].0, s[j].0);
                }
            }
        } else {
            assert forall|a: int, b: int| 0 <= a < b < s.drop_first().len() implies lex_le(
                #[trigger] s.drop_first()[a].0,
                #[trigger] s.drop_first()[b].0,
            ) by {
                assert(s.drop_first()[a] == s[a + 1] && s.drop_first()[b] == s[b + 1]);
            }
            lemma_first_greater(s.drop_first(), k, j - 1);
            assert(s.drop_first()[j - 1] == s[j]);
        }
    }
}

/// Items before `insert_pos` have keys not after `k`.
proof fn lemma_not_greater_before<T>(s: Seq<(Seq<char>, T)>, k: Seq<char>, i: int)
    requires
        0 <= i < insert_pos(s, k),
    ensures
        lex_le(s[i].0, k),
    decreases s.len(),
{
    lemma_insert_pos_bound(s, k);
    if s.len() > 0 {
        if i == 0 {
            lemma_lex_not_lt(k, s[0].0);
        } else {
            lemma_not_greater_before(s.drop_first(), k, i - 1);
            assert(s.drop_first()[i - 1] == s[i]);
        }
    }
}

/// The stable sort puts keys in order.
pub proof fn lemma_stable_sorted_sorted<T>(s: Seq<(Seq<char>, T)>)
    ensures
        keys_sorted(stable_sorted(s)),
    decreases s.len(),
{
    if s.len() > 0 {
        lemma_stable_sorted_sorted(s.drop_last());
        lemma_insert_keeps_sorted(stable_sorted(s.drop_last()), s.last());
    }
}

/// The stable sort keeps every item and adds none.
pub proof fn lemma_stable_sorted_permutes<T>(s: Seq<(Seq<char>, T)>)
    ensures
        stable_sorted(s).to_multiset() == s.to_multiset(),
    decreases s.len(),
{
    broadcast use vstd::multiset::group_multiset_axioms, vstd::seq_lib::group_to_multiset_ensures;

    if s.len() > 0 {
        let r = stable_sorted(s.drop_last());
        lemma_stable_sorted_permutes(s.drop_last());
        lemma_insert_pos_bound(r, s.last().0);
        let p = insert_pos(r, s.last().0) as int;
        vstd::seq_lib::lemma_seq_union_to_multiset_commutative(r.take(p), r.skip(p));
        assert(r =~= r.take(p) + r.skip(p));
        assert(r.insert(p, s.last()) =~= r.take(p) + seq![s.last()] + r.skip(p));
        vstd::seq_lib::lemma_multiset_commutative(r.take(p), r.skip(p));
        vstd::seq_lib::lemma_multiset_commutative(r.take(p) + seq![s.last()], r.skip(p));
        vstd::seq_lib::lemma_multiset_commutative(r.take(p), seq![s.last()]);
        assert(s =~= s.drop_last().push(s.last()));
    }
}

// ── Operations ─────────────────────────────────────────────────────────────

/// Whether `a` comes before `b`.
pub fn lex_less(a: &Vec<char>, b: &Vec<char>) -> (r: bool)
    ensures
        r == lex_lt(a@, b@),
{
    let mut i: usize = 0;
    assert(a@.skip(0) =~= a@);
    assert(b@.skip(0) =~= b@);
    while i < a.len() && i < b.len() && a[i] == b[i]
        invariant
            i <= a.len(),
            i <= b.len(),
            lex_lt(a@, b@) == lex_lt(a@.skip(i as int), b@.skip(i as int)),
        decreases a.len() - i,
    {
        assert(a@.skip(i as int).drop_first() =~= a@.skip(i + 1));
        assert(b@.skip(i as int).drop_first() =~= b@.skip(i + 1));
        i += 1;
    }
    if i == a.len() {
        i < b.len()
    } else if i == b.len() {
        false
    } else {
        a[i] < b[i]
    }
}

/// Items ordered by their keys, items of equal keys in their given order.
pub fn stable_sort<T>(items: Vec<T>, keys: Vec<Vec<char>>) -> (r: Vec<T>)
    requires
        items.len() == keys.len(),
    ensures
        r@ == stable_sorted(keyed(crate::text::views(keys@), items@)).map_values(|p: (Seq<char>, T)| p.1),
{
    let ghost input = keyed(crate::text::views(keys@), items@);
    assert(input.len() <= usize::MAX);
    // Reverse both, so that popping yields the items in their given order.
    let mut items = items;
    let mut keys_left = keys;
    let mut rev_items: Vec<T> = Vec::new();
    let mut rev_keys: Vec<Vec<char>> = Vec::new();
    while items.len() > 0
        invariant
            items.len() == keys_left.len(),
            rev_items.len() == rev_keys.len(),
            items.len() + rev_items.len() == input.len(),
            forall|i: int| 0 <= i < items.len() ==> #[trigger] items@[i] == input[i].1 && keys_left@[i]@ == input[i].0,
            forall|i: int|
                0 <= i < rev_items.len() ==> #[trigger] rev_items@[i] == input[input.len() - 1 - i].1
                    && rev_keys@[i]@ == input[input.len() - 1 - i].0,
        decreases items.len(),
    {
        let ghost pi = items@;
        let ghost pk = keys_left@;
        let it = items.pop().unwrap();
        let k = keys_left.pop().unwrap();
        assert(items@ =~= pi.drop_last());
        assert(keys_left@ =~= pk.drop_last());
        assert forall|i: int| 0 <= i < items.len() implies #[trigger] items@[i] == input[i].1
            && keys_left@[i]@ == input[i].0 by {
            assert(items@[i] == pi[i]);
            assert(keys_left@[i] == pk[i]);
        }
        rev_items.push(it);
        rev_keys.push(k);
    }
    let mut out_items: Vec<T> = Vec::new();
    let mut out_keys: Vec<Vec<char>> = Vec::new();
    let mut n: usize = 0;
    assert(input.take(0) =~= seq![]);
    while rev_items.len() > 0
        invariant
            rev_items.len() == rev_keys.len(),
            n + rev_items.len() == input.len(),
            input.len() <= usize::MAX,
            forall|i: int|
                0 <= i < rev_items.len() ==> #[trigger] rev_items@[i] == input[input.len() - 1 - i].1
                    && rev_keys@[i]@ == input[input.len() - 1 - i].0,
            out_items.len() == out_keys.len(),
            keyed(crate::text::views(out_keys@), out_items@) == stable_sorted(input.take(n as int)),
        decreases rev_items.len(),
    {
        let it = rev_items.pop().unwrap();
        let k = rev_keys.pop().unwrap();
        let ghost cur = keyed(crate::text::views(out_keys@), out_items@);
        assert(input.take(n + 1).drop_last() =~= input.take(n as int));
        assert(input.take(n + 1).last() == input[n as int]);
        // first position whose key is greater
        let mut j: usize = 0;
        while j < out_keys.len() && !lex_less(&k, &out_keys[j])
            invariant
                j <= out_keys.len() == out_items.len(),
                cur == keyed(crate::text::views(out_keys@), out_items@),
                forall|i: int| 0 <= i < j ==> !lex_lt(k@, #[trigger] cur[i].0),
            decreases out_keys.len() - j,
        {
            j += 1;
        }
        proof {
            lemma_insert_pos_at(cur, k@, j as int);
        }
        let ghost kv = k@;
        out_items.insert(j, it);
        out_keys.insert(j, k);
        assert(keyed(crate::text::views(out_keys@), out_items@) =~= cur.insert(j as int, (kv, input[n as int].1)));
        n += 1;
    }
    assert(input.take(input.len() as int) =~= input);
    assert(out_items@ =~= stable_sorted(input).map_values(|p: (Seq<char>, T)| p.1));
    out_items
}

/// Keys and items side by side.
pub open spec fn keyed<T>(keys: Seq<Seq<char>>, items: Seq<T>) -> Seq<(Seq<char>, T)> {
    Seq::new(items.len(), |i: int| (keys[i], items[i]))
}

} // verus!
