use vstd::prelude::*;

verus! {

broadcast use vstd::seq_lib::group_to_multiset_ensures;

/// `a` comes strictly before `b` in the order of `str`'s `Ord`: code point by
/// code point, a proper prefix first (UTF-8 keeps code point order, so this is
/// also the byte order that `String` compares by).
pub open spec fn str_lt(a: Seq<char>, b: Seq<char>) -> bool
    decreases a.len(),
{
    if a.len() == 0 {
        b.len() > 0
    } else if b.len() == 0 {
        false
    } else if a[0] != b[0] {
        a[0] < b[0]
    } else {
        str_lt(a.drop_first(), b.drop_first())
    }
}

/// The characters of each pair of strings.
pub open spec fn pair_views(s: Seq<(String, String)>) -> Seq<(Seq<char>, Seq<char>)> {
    s.map_values(|p: (String, String)| (p.0@, p.1@))
}

/// The characters of each string.
pub open spec fn str_views(s: Seq<String>) -> Seq<Seq<char>> {
    s.map_values(|x: String| x@)
}

/// First components never decrease from left to right.
pub open spec fn sorted_by_first(s: Seq<(Seq<char>, Seq<char>)>) -> bool {
    forall|i: int, j: int| 0 <= i < j < s.len() ==> !str_lt(#[trigger] s[j].0, #[trigger] s[i].0)
}

/// Strings never decrease from left to right.
pub open spec fn sorted_strs(s: Seq<Seq<char>>) -> bool {
    forall|i: int, j: int| 0 <= i < j < s.len() ==> !str_lt(#[trigger] s[j], #[trigger] s[i])
}

/// The order is transitive.
pub proof fn lemma_str_lt_transitive(a: Seq<char>, b: Seq<char>, c: Seq<char>)
    requires
        str_lt(a, b),
        str_lt(b, c),
    ensures
        str_lt(a, c),
    decreases a.len(),
{
    if a.len() > 0 && b.len() > 0 && c.len() > 0 && a[0] == b[0] && b[0] == c[0] {
        lemma_str_lt_transitive(a.drop_first(), b.drop_first(), c.drop_first());
    }
}

/// The order is irreflexive.
pub proof fn lemma_str_lt_irreflexive(a: Seq<char>)
    ensures
        !str_lt(a, a),
    decreases a.len(),
{
    if a.len() > 0 {
        lemma_str_lt_irreflexive(a.drop_first());
    }
}

/// Two different strings are ordered one way or the other.
pub proof fn lemma_str_lt_total(a: Seq<char>, b: Seq<char>)
    requires
        a != b,
    ensures
        str_lt(a, b) || str_lt(b, a),
    decreases a.len(),
{
    if a.len() == 0 && b.len() == 0 {
        assert(a =~= b);
    }
    if a.len() > 0 && b.len() > 0 && a[0] == b[0] {
        if a.drop_first() == b.drop_first() {
            assert(a =~= seq![a[0]] + a.drop_first());
            assert(b =~= seq![b[0]] + b.drop_first());
        }
        lemma_str_lt_total(a.drop_first(), b.drop_first());
    }
}

/// `a < b` as `str` compares them.
pub fn str_lt_exec(a: &[char], b: &[char]) -> (r: bool)
    ensures
        r == str_lt(a@, b@),
{
    let mut i: usize = 0;
    assert(a@.skip(0) =~= a@);
    assert(b@.skip(0) =~= b@);
    while i < a.len() && i < b.len() && a[i] == b[i]
        invariant
            i <= a.len(),
            i <= b.len(),
            str_lt(a@, b@) == str_lt(a@.skip(i as int), b@.skip(i as int)),
        decreases a.len() - i,
    {
        assert(a@.skip(i as int).drop_first() =~= a@.skip(i + 1));
        assert(b@.skip(i as int).drop_first() =~= b@.skip(i + 1));
        i = i + 1;
    }
    if i == a.len() {
        i < b.len()
    } else if i == b.len() {
        false
    } else {
        a[i] < b[i]
    }
}

/// Whether a pair's first component is `k`.
pub open spec fn key_is(k: Seq<char>) -> spec_fn((Seq<char>, Seq<char>)) -> bool {
    |p: (Seq<char>, Seq<char>)| p.0 == k
}

/// The pairs whose first component is `k`, in their order.
pub open spec fn with_key(s: Seq<(Seq<char>, Seq<char>)>, k: Seq<char>) -> Seq<
    (Seq<char>, Seq<char>),
> {
    s.filter(key_is(k))
}

proof fn lemma_with_key_none(s: Seq<(Seq<char>, Seq<char>)>, k: Seq<char>)
    requires
        forall|i: int| 0 <= i < s.len() ==> (#[trigger] s[i]).0 != k,
    ensures
        with_key(s, k) == Seq::<(Seq<char>, Seq<char>)>::empty(),
    decreases s.len(),
{
    reveal(Seq::filter);
    if s.len() > 0 {
        let t = s.drop_last();
        assert forall|i: int| 0 <= i < t.len() implies (#[trigger] t[i]).0 != k by {
            assert(t[i] == s[i]);
        }
        lemma_with_key_none(t, k);
        assert(t.push(s.last()) =~= s);
        t.lemma_filter_push(s.last(), key_is(k));
        assert(s[s.len() - 1].0 != k);
    }
}

proof fn lemma_with_key_single(x: (Seq<char>, Seq<char>), k: Seq<char>)
    ensures
        with_key(seq![x], k) == if x.0 == k {
            seq![x]
        } else {
            Seq::<(Seq<char>, Seq<char>)>::empty()
        },
{
    reveal(Seq::filter);
    let e = Seq::<(Seq<char>, Seq<char>)>::empty();
    assert(e.filter(key_is(k)) =~= e);
    assert(e.push(x) =~= seq![x]);
    e.lemma_filter_push(x, key_is(k));
}

/// Sorts pairs of strings by their first component, keeping pairs with the
/// same first component in the order they came (an insertion sort that
/// places each pair after those whose first component is not greater).
pub fn sort_pairs(items: Vec<(String, String)>) -> (out: Vec<(String, String)>)
    ensures
        pair_views(out@).to_multiset() == pair_views(items@).to_multiset(),
        sorted_by_first(pair_views(out@)),
        forall|k: Seq<char>| #[trigger] with_key(pair_views(out@), k) == with_key(pair_views(items@), k),
{
    let mut out: Vec<(String, String)> = Vec::new();
    let mut rest = items;
    let ghost orig = pair_views(rest@);
    proof {
        assert(pair_views(out@).to_multiset() =~= vstd::multiset::Multiset::<
            (Seq<char>, Seq<char>),
        >::empty());
        assert forall|k: Seq<char>| #[trigger] with_key(pair_views(out@), k) + with_key(pair_views(rest@), k)
            == with_key(orig, k) by {
            lemma_with_key_none(pair_views(out@), k);
            assert(Seq::<(Seq<char>, Seq<char>)>::empty() + with_key(orig, k) =~= with_key(orig, k));
        }
    }
    while rest.len() > 0
        invariant
            pair_views(out@).to_multiset().add(pair_views(rest@).to_multiset())
                == orig.to_multiset(),
            sorted_by_first(pair_views(out@)),
            forall|k: Seq<char>| #[trigger] with_key(pair_views(out@), k) + with_key(pair_views(rest@), k)
                == with_key(orig, k),
        decreases rest.len(),
    {
        let ghost rest0 = rest@;
        let item = rest.remove(0);
        let key = crate::text::chars_of(item.0.as_str());
        let mut pos: usize = 0;
        while pos < out.len() && !str_lt_exec(
            key.as_slice(),
            crate::text::chars_of(out[pos].0.as_str()).as_slice(),
        )
            invariant
                pos <= out.len(),
                key@ == item.0@,
                forall|i: int| 0 <= i < pos ==> !str_lt(item.0@, #[trigger] out@[i].0@),
            decreases out.len() - pos,
        {
            pos = pos + 1;
        }
        let ghost out0 = out@;
        let ghost kv = item.0@;
        let ghost iv = (item.0@, item.1@);
        out.insert(pos, item);
        proof {
            let v0 = pair_views(out0);
            let v1 = pair_views(out@);
            assert(v1 =~= v0.insert(pos as int, iv));
            assert forall|i: int, j: int| 0 <= i < j < v1.len() implies !str_lt(
                #[trigger] v1[j].0,
                #[trigger] v1[i].0,
            ) by {
                if j < pos {
                    assert(v1[i] == v0[i] && v1[j] == v0[j]);
                } else if j == pos {
                    assert(v1[i] == v0[i]);
                    assert(out0[i].0@ == v0[i].0);
                } else if i == pos {
                    assert(v1[j] == v0[j - 1]);
                    assert(str_lt(kv, out0[pos as int].0@));
                    assert(out0[pos as int].0@ == v0[pos as int].0);
                    if pos < j - 1 {
                        assert(!str_lt(v0[j - 1].0, v0[pos as int].0));
                    }
                    if str_lt(v0[j - 1].0, kv) {
                        lemma_str_lt_transitive(v0[j - 1].0, kv, v0[pos as int].0);
                        if pos == j - 1 {
                            lemma_str_lt_irreflexive(kv);
                            lemma_str_lt_transitive(kv, v0[pos as int].0, kv);
                        }
                    }
                } else if i < pos {
                    assert(v1[i] == v0[i] && v1[j] == v0[j - 1]);
                } else {
                    assert(v1[i] == v0[i - 1] && v1[j] == v0[j - 1]);
                }
            }
            assert(pair_views(rest0) =~= seq![iv] + pair_views(rest@));
            vstd::seq_lib::lemma_multiset_commutative(seq![iv], pair_views(rest@));
            let r1 = pair_views(rest@);
            let a = v0.take(pos as int);
            let b = v0.skip(pos as int);
            assert(v1 =~= a + seq![iv] + b);
            assert(v0 =~= a + b);
            assert forall|j: int| 0 <= j < b.len() implies str_lt(kv, (#[trigger] b[j]).0) by {
                assert(b[j] == v0[pos + j]);
                assert(out0[pos as int].0@ == v0[pos as int].0);
                if j > 0 {
                    assert(!str_lt(v0[pos + j].0, v0[pos as int].0));
                    if v0[pos + j].0 != v0[pos as int].0 {
                        lemma_str_lt_total(v0[pos + j].0, v0[pos as int].0);
                        lemma_str_lt_transitive(kv, v0[pos as int].0, v0[pos + j].0);
                    }
                }
            }
            assert forall|k: Seq<char>| #[trigger] with_key(v1, k) + with_key(r1, k) == with_key(
                orig,
                k,
            ) by {
                let pred = key_is(k);
                Seq::filter_distributes_over_add(a + seq![iv], b, pred);
                Seq::filter_distributes_over_add(a, seq![iv], pred);
                Seq::filter_distributes_over_add(a, b, pred);
                Seq::filter_distributes_over_add(seq![iv], r1, pred);
                lemma_with_key_single(iv, k);
                assert(with_key(pair_views(out0), k) + with_key(pair_views(rest0), k) == with_key(
                    orig,
                    k,
                ));
                if kv == k {
                    assert forall|j: int| 0 <= j < b.len() implies (#[trigger] b[j]).0 != k by {
                        assert(str_lt(kv, b[j].0));
                        lemma_str_lt_irreflexive(kv);
                    }
                    lemma_with_key_none(b, k);
                    assert(with_key(v1, k) + with_key(r1, k) =~= with_key(a, k) + with_key(b, k) + (
                    seq![iv] + with_key(r1, k)));
                } else {
                    assert(with_key(v1, k) + with_key(r1, k) =~= with_key(a, k) + with_key(b, k) + (
                    Seq::<(Seq<char>, Seq<char>)>::empty() + with_key(r1, k)));
                }
            }
        }
    }
    out
}

/// Sorts strings (an insertion sort).
pub fn sort_strings(items: Vec<String>) -> (out: Vec<String>)
    ensures
        str_views(out@).to_multiset() == str_views(items@).to_multiset(),
        sorted_strs(str_views(out@)),
{
    let mut out: Vec<String> = Vec::new();
    let mut rest = items;
    let ghost orig = str_views(rest@);
    proof {
        assert(str_views(out@).to_multiset() =~= vstd::multiset::Multiset::<Seq<char>>::empty());
    }
    while rest.len() > 0
        invariant
            str_views(out@).to_multiset().add(str_views(rest@).to_multiset()) == orig.to_multiset(),
            sorted_strs(str_views(out@)),
        decreases rest.len(),
    {
        let ghost rest0 = rest@;
        let item = rest.remove(0);
        let key = crate::text::chars_of(item.as_str());
        let mut pos: usize = 0;
        while pos < out.len() && !str_lt_exec(
            key.as_slice(),
            crate::text::chars_of(out[pos].as_str()).as_slice(),
        )
            invariant
                pos <= out.len(),
                key@ == item@,
                forall|i: int| 0 <= i < pos ==> !str_lt(item@, #[trigger] out@[i]@),
            decreases out.len() - pos,
        {
            pos = pos + 1;
        }
        let ghost out0 = out@;
        let ghost kv = item@;
        out.insert(pos, item);
        proof {
            let v0 = str_views(out0);
            let v1 = str_views(out@);
            assert(v1 =~= v0.insert(pos as int, kv));
            assert forall|i: int, j: int| 0 <= i < j < v1.len() implies !str_lt(
                #[trigger] v1[j],
                #[trigger] v1[i],
            ) by {
                if j < pos {
                    assert(v1[i] == v0[i] && v1[j] == v0[j]);
                } else if j == pos {
                    assert(v1[i] == v0[i]);
                    assert(out0[i]@ == v0[i]);
                } else if i == pos {
                    assert(v1[j] == v0[j - 1]);
                    assert(str_lt(kv, out0[pos as int]@));
                    assert(out0[pos as int]@ == v0[pos as int]);
                    if pos < j - 1 {
                        assert(!str_lt(v0[j - 1], v0[pos as int]));
                    }
                    if str_lt(v0[j - 1], kv) {
                        lemma_str_lt_transitive(v0[j - 1], kv, v0[pos as int]);
                        if pos == j - 1 {
                            lemma_str_lt_irreflexive(kv);
                            lemma_str_lt_transitive(kv, v0[pos as int], kv);
                        }
                    }
                } else if i < pos {
                    assert(v1[i] == v0[i] && v1[j] == v0[j - 1]);
                } else {
                    assert(v1[i] == v0[i - 1] && v1[j] == v0[j - 1]);
                }
            }
            assert(str_views(rest0) =~= seq![kv] + str_views(rest@));
            vstd::seq_lib::lemma_multiset_commutative(seq![kv], str_views(rest@));
        }
    }
    out
}

} // verus!

verus! {

/// Two sorted sequences of the same strings are the same sequence.
pub proof fn lemma_sorted_unique(a: Seq<Seq<char>>, b: Seq<Seq<char>>)
    requires
        sorted_strs(a),
        sorted_strs(b),
        a.to_multiset() == b.to_multiset(),
    ensures
        a == b,
    decreases a.len(),
{
    broadcast use vstd::multiset::group_multiset_axioms;

    vstd::seq_lib::to_multiset_len(a);
    vstd::seq_lib::to_multiset_len(b);
    if a.len() == 0 {
        assert(a =~= b);
    } else {
        let x = a[0];
        let y = b[0];
        vstd::seq_lib::to_multiset_contains(a, y);
        vstd::seq_lib::to_multiset_contains(b, x);
        assert(a.to_multiset().count(y) > 0);
        assert(a.contains(y));
        assert(b.contains(x));
        let iy = choose|i: int| 0 <= i < a.len() && a[i] == y;
        let ix = choose|i: int| 0 <= i < b.len() && b[i] == x;
        assert(!str_lt(y, x)) by {
            if iy > 0 {
                assert(!str_lt(a[iy], a[0]));
            } else {
                lemma_str_lt_irreflexive(x);
            }
        }
        assert(!str_lt(x, y)) by {
            if ix > 0 {
                assert(!str_lt(b[ix], b[0]));
            } else {
                lemma_str_lt_irreflexive(y);
            }
        }
        if x != y {
            lemma_str_lt_total(x, y);
        }
        vstd::seq_lib::to_multiset_remove(a, 0);
        vstd::seq_lib::to_multiset_remove(b, 0);
        assert(a.remove(0) =~= a.drop_first());
        assert(b.remove(0) =~= b.drop_first());
        lemma_sorted_unique(a.drop_first(), b.drop_first());
        assert(a =~= b) by {
            assert forall|i: int| 0 <= i < a.len() implies a[i] == b[i] by {
                if i > 0 {
                    assert(a[i] == a.drop_first()[i - 1]);
                    assert(b[i] == b.drop_first()[i - 1]);
                }
            }
        }
    }
}

} // verus!

verus! {

/// Entries that share a first component are the same entry.
pub open spec fn same_key_same_entry(s: Seq<(Seq<char>, Seq<char>)>) -> bool {
    forall|i: int, j: int|
        0 <= i < s.len() && 0 <= j < s.len() && (#[trigger] s[i]).0 == (#[trigger] s[j]).0 ==> s[i]
            == s[j]
}

/// Two arrangements of the same pairs, both sorted by first component, are
/// the same sequence when pairs that share a first component are equal.
pub proof fn lemma_sorted_pairs_unique(a: Seq<(Seq<char>, Seq<char>)>, b: Seq<(Seq<char>, Seq<char>)>)
    requires
        sorted_by_first(a),
        sorted_by_first(b),
        a.to_multiset() == b.to_multiset(),
        same_key_same_entry(a),
    ensures
        a == b,
    decreases a.len(),
{
    broadcast use vstd::multiset::group_multiset_axioms;

    vstd::seq_lib::to_multiset_len(a);
    vstd::seq_lib::to_multiset_len(b);
    if a.len() == 0 {
        assert(a =~= b);
    } else {
        let x = a[0];
        let y = b[0];
        vstd::seq_lib::to_multiset_contains(a, y);
        vstd::seq_lib::to_multiset_contains(b, x);
        assert(a.to_multiset().count(y) > 0);
        assert(a.contains(y));
        assert(b.contains(x));
        let iy = choose|i: int| 0 <= i < a.len() && a[i] == y;
        let ix = choose|i: int| 0 <= i < b.len() && b[i] == x;
        assert(!str_lt(y.0, x.0)) by {
            if iy > 0 {
                assert(!str_lt(a[iy].0, a[0].0));
            } else {
                lemma_str_lt_irreflexive(x.0);
            }
        }
        assert(!str_lt(x.0, y.0)) by {
            if ix > 0 {
                assert(!str_lt(b[ix].0, b[0].0));
            } else {
                lemma_str_lt_irreflexive(y.0);
            }
        }
        if x.0 != y.0 {
            lemma_str_lt_total(x.0, y.0);
        }
        assert(a[iy].0 == a[0].0);
        assert(x == y);
        vstd::seq_lib::to_multiset_remove(a, 0);
        vstd::seq_lib::to_multiset_remove(b, 0);
        assert(a.remove(0) =~= a.drop_first());
        assert(b.remove(0) =~= b.drop_first());
        let a1 = a.drop_first();
        assert forall|i: int, j: int|
            0 <= i < a1.len() && 0 <= j < a1.len() && (#[trigger] a1[i]).0 == (#[trigger] a1[j]).0
            implies a1[i] == a1[j] by {
            assert(a1[i] == a[i + 1] && a1[j] == a[j + 1]);
        }
        assert(sorted_by_first(a1)) by {
            assert forall|i: int, j: int| 0 <= i < j < a1.len() implies !str_lt(
                (#[trigger] a1[j]).0,
                (#[trigger] a1[i]).0,
            ) by {
                assert(a1[i] == a[i + 1] && a1[j] == a[j + 1]);
            }
        }
        let b1 = b.drop_first();
        assert(sorted_by_first(b1)) by {
            assert forall|i: int, j: int| 0 <= i < j < b1.len() implies !str_lt(
                (#[trigger] b1[j]).0,
                (#[trigger] b1[i]).0,
            ) by {
                assert(b1[i] == b[i + 1] && b1[j] == b[j + 1]);
            }
        }
        lemma_sorted_pairs_unique(a1, b1);
        assert(a =~= b) by {
            assert forall|i: int| 0 <= i < a.len() implies a[i] == b[i] by {
                if i > 0 {
                    assert(a[i] == a1[i - 1]);
                    assert(b[i] == b1[i - 1]);
                }
            }
        }
    }
}

} // verus!
