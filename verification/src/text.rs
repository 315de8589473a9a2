use vstd::prelude::*;

verus! {

broadcast use vstd::string::group_string_axioms;

// ---------------------------------------------------------------------------
// Specifications over character sequences
// ---------------------------------------------------------------------------

/// Unicode `White_Space`, the set that `char::is_whitespace` and `str::trim` use.
pub open spec fn is_ws(c: char) -> bool {
    ||| ('\u{9}' <= c && c <= '\u{d}')
    ||| c == ' '
    ||| c == '\u{85}'
    ||| c == '\u{a0}'
    ||| c == '\u{1680}'
    ||| ('\u{2000}' <= c && c <= '\u{200a}')
    ||| c == '\u{2028}'
    ||| c == '\u{2029}'
    ||| c == '\u{202f}'
    ||| c == '\u{205f}'
    ||| c == '\u{3000}'
}

/// `s` without its leading whitespace.
pub open spec fn trim_start(s: Seq<char>) -> Seq<char>
    decreases s.len(),
{
    if s.len() > 0 && is_ws(s[0]) {
        trim_start(s.drop_first())
    } else {
        s
    }
}

/// `s` without its trailing whitespace.
pub open spec fn trim_end(s: Seq<char>) -> Seq<char>
    decreases s.len(),
{
    if s.len() > 0 && is_ws(s.last()) {
        trim_end(s.drop_last())
    } else {
        s
    }
}

/// `s` without leading and trailing whitespace, as `str::trim` gives it.
pub open spec fn trim(s: Seq<char>) -> Seq<char> {
    trim_end(trim_start(s))
}

/// `p` occurs in `s` at position `i`.
pub open spec fn occurs_at(s: Seq<char>, p: Seq<char>, i: int) -> bool {
    0 <= i && i + p.len() <= s.len() && s.subrange(i, i + p.len()) == p
}

/// The first position at or after `i` where `p` occurs in `s`.
pub open spec fn find_from(s: Seq<char>, p: Seq<char>, i: int) -> Option<int>
    decreases s.len() + 1 - i,
{
    if i < 0 || i + p.len() > s.len() {
        None
    } else if occurs_at(s, p, i) {
        Some(i)
    } else {
        find_from(s, p, i + 1)
    }
}

/// `p` occurs somewhere in `s`.
pub open spec fn contains(s: Seq<char>, p: Seq<char>) -> bool {
    exists|i: int| occurs_at(s, p, i)
}

/// `s` starts with `p`.
pub open spec fn starts_with(s: Seq<char>, p: Seq<char>) -> bool {
    p.len() <= s.len() && s.take(p.len() as int) == p
}

/// What `str::strip_prefix` gives.
pub open spec fn strip_prefix(s: Seq<char>, p: Seq<char>) -> Option<Seq<char>> {
    if starts_with(s, p) {
        Some(s.skip(p.len() as int))
    } else {
        None
    }
}

/// The pieces of `s` between the occurrences of the non-empty delimiter `d`,
/// found from left to right, as `str::split` gives them.
pub open spec fn split_by(s: Seq<char>, d: Seq<char>) -> Seq<Seq<char>>
    decreases s.len(),
{
    if d.len() == 0 {
        seq![s]
    } else {
        match find_from(s, d, 0) {
            Some(i) => {
                if 0 <= i && i + d.len() <= s.len() {
                    seq![s.take(i)] + split_by(s.skip(i + d.len()), d)
                } else {
                    seq![s]
                }
            },
            None => seq![s],
        }
    }
}

/// `s` with every non-overlapping occurrence of `p` (from the left) replaced
/// by `r`, as `str::replace` gives it; an empty `p` matches before every
/// character and at the end.
pub open spec fn replace_all(s: Seq<char>, p: Seq<char>, r: Seq<char>) -> Seq<char>
    decreases s.len(),
{
    if p.len() == 0 {
        if s.len() == 0 {
            r
        } else {
            r + seq![s[0]] + replace_all(s.drop_first(), p, r)
        }
    } else {
        match find_from(s, p, 0) {
            Some(i) => {
                if 0 <= i && i + p.len() <= s.len() {
                    s.take(i) + r + replace_all(s.skip(i + p.len()), p, r)
                } else {
                    s
                }
            },
            None => s,
        }
    }
}

/// The number of non-overlapping occurrences of `p` in `s`, as
/// `str::matches(..).count()` gives it.
pub open spec fn count_matches(s: Seq<char>, p: Seq<char>) -> nat
    decreases s.len(),
{
    if p.len() == 0 {
        s.len() + 1
    } else {
        match find_from(s, p, 0) {
            Some(i) => {
                if 0 <= i && i + p.len() <= s.len() {
                    1 + count_matches(s.skip(i + p.len()), p)
                } else {
                    0
                }
            },
            None => 0,
        }
    }
}

// ---------------------------------------------------------------------------
// Lemmas
// ---------------------------------------------------------------------------

/// What `find_from` finds: the first occurrence at or after `i`.
pub proof fn lemma_find_from(s: Seq<char>, p: Seq<char>, i: int)
    requires
        0 <= i,
    ensures
        find_from(s, p, i) matches Some(j) ==> i <= j && occurs_at(s, p, j) && forall|k: int|
            i <= k < j ==> !occurs_at(s, p, k),
        find_from(s, p, i) is None ==> forall|k: int| i <= k ==> !occurs_at(s, p, k),
    decreases s.len() + 1 - i,
{
    if i + p.len() > s.len() {
    } else if occurs_at(s, p, i) {
    } else {
        lemma_find_from(s, p, i + 1);
    }
}

/// `contains` holds exactly when a search from the start finds something.
pub proof fn lemma_contains_find(s: Seq<char>, p: Seq<char>)
    ensures
        contains(s, p) <==> find_from(s, p, 0) is Some,
{
    lemma_find_from(s, p, 0);
    if find_from(s, p, 0) is Some {
        let j = find_from(s, p, 0)->0;
        assert(occurs_at(s, p, j));
    }
}

// ---------------------------------------------------------------------------
// Executable counterparts
// ---------------------------------------------------------------------------

/// Copies the characters of `s` into a vector.
pub fn chars_of(s: &str) -> (v: Vec<char>)
    ensures
        v@ == s@,
{
    let mut v: Vec<char> = Vec::new();
    for c in it: s.chars()
        invariant
            v@ == it.seq().take(it.index() as int),
            it.seq() == s@,
    {
        v.push(c);
    }
    v
}

/// `String::from_iter` over characters: the string of exactly those
/// characters, in order.
#[verifier::external_body]
pub(crate) fn string_of(chars: &[char]) -> (s: String)
    ensures
        s@ == chars@,
{
    String::from_iter(chars)
}

/// `char::is_whitespace`.
pub fn is_ws_exec(c: char) -> (b: bool)
    ensures
        b == is_ws(c),
{
    ('\u{9}' <= c && c <= '\u{d}') || c == ' ' || c == '\u{85}' || c == '\u{a0}' || c
        == '\u{1680}' || ('\u{2000}' <= c && c <= '\u{200a}') || c == '\u{2028}' || c
        == '\u{2029}' || c == '\u{202f}' || c == '\u{205f}' || c == '\u{3000}'
}

/// `p` occurs in `s` at position `i`.
pub fn occurs_at_exec(s: &[char], p: &[char], i: usize) -> (b: bool)
    ensures
        b == occurs_at(s@, p@, i as int),
{
    if p.len() > s.len() || i > s.len() - p.len() {
        return false;
    }
    let mut j: usize = 0;
    while j < p.len()
        invariant
            i + p.len() <= s.len(),
            j <= p.len(),
            forall|t: int| 0 <= t < j ==> s@[i + t] == p@[t],
        decreases p.len() - j,
    {
        if s[i + j] != p[j] {
            assert(s@.subrange(i as int, i + p.len())[j as int] != p@[j as int]);
            return false;
        }
        j = j + 1;
    }
    assert(s@.subrange(i as int, i + p.len()) =~= p@);
    true
}

/// The first position at or after `i` where `p` occurs in `s`.
pub fn find_from_exec(s: &[char], p: &[char], i: usize) -> (r: Option<usize>)
    ensures
        r matches Some(j) ==> find_from(s@, p@, i as int) == Some(j as int),
        r is None ==> find_from(s@, p@, i as int) is None,
{
    if p.len() > s.len() || i > s.len() - p.len() {
        return None;
    }
    if p.len() == 0 {
        assert(s@.subrange(i as int, i as int) =~= p@);
        return Some(i);
    }
    let mut k: usize = i;
    while k <= s.len() - p.len()
        invariant
            1 <= p.len() <= s.len(),
            i <= k,
            find_from(s@, p@, i as int) == find_from(s@, p@, k as int),
        decreases s.len() - k,
    {
        if occurs_at_exec(s, p, k) {
            return Some(k);
        }
        k = k + 1;
    }
    None
}

/// The range `[lo, hi)` that is left of `s` after `str::trim`.
pub fn trim_range(s: &[char]) -> (r: (usize, usize))
    ensures
        r.0 <= r.1 <= s.len(),
        s@.subrange(r.0 as int, r.1 as int) == trim(s@),
{
    let mut lo: usize = 0;
    assert(s@.skip(0) =~= s@);
    while lo < s.len() && is_ws_exec(s[lo])
        invariant
            lo <= s.len(),
            trim_start(s@) == trim_start(s@.skip(lo as int)),
        decreases s.len() - lo,
    {
        assert(s@.skip(lo as int).drop_first() =~= s@.skip(lo + 1));
        lo = lo + 1;
    }
    assert(trim_start(s@) == s@.skip(lo as int));
    let mut hi: usize = s.len();
    while hi > lo && is_ws_exec(s[hi - 1])
        invariant
            lo <= hi <= s.len(),
            trim(s@) == trim_end(s@.subrange(lo as int, hi as int)),
        decreases hi,
    {
        assert(s@.subrange(lo as int, hi as int).drop_last() =~= s@.subrange(
            lo as int,
            hi - 1,
        ));
        hi = hi - 1;
    }
    (lo, hi)
}

/// `str::trim`, on characters.
pub fn trim_chars(s: &[char]) -> (t: Vec<char>)
    ensures
        t@ == trim(s@),
{
    let (lo, hi) = trim_range(s);
    let mut t: Vec<char> = Vec::new();
    let mut k: usize = lo;
    while k < hi
        invariant
            lo <= k <= hi <= s.len(),
            t@ == s@.subrange(lo as int, k as int),
        decreases hi - k,
    {
        t.push(s[k]);
        assert(t@ =~= s@.subrange(lo as int, k + 1));
        k = k + 1;
    }
    t
}

/// Appends `src[lo..hi]` to `dst`.
pub fn push_range(dst: &mut Vec<char>, src: &[char], lo: usize, hi: usize)
    requires
        lo <= hi <= src.len(),
    ensures
        final(dst)@ == old(dst)@ + src@.subrange(lo as int, hi as int),
{
    let ghost start = dst@;
    let mut k: usize = lo;
    while k < hi
        invariant
            lo <= k <= hi <= src.len(),
            dst@ == start + src@.subrange(lo as int, k as int),
        decreases hi - k,
    {
        dst.push(src[k]);
        assert(dst@ =~= start + src@.subrange(lo as int, k + 1));
        k = k + 1;
    }
}

/// Appends all of `src` to `dst`.
pub fn push_all(dst: &mut Vec<char>, src: &[char])
    ensures
        final(dst)@ == old(dst)@ + src@,
{
    push_range(dst, src, 0, src.len());
    assert(src@.subrange(0, src@.len() as int) =~= src@);
}

/// Appends the characters of `s` to `dst`.
pub fn push_str(dst: &mut Vec<char>, s: &str)
    ensures
        final(dst)@ == old(dst)@ + s@,
{
    let cs = chars_of(s);
    push_all(dst, cs.as_slice());
}

} // verus!

verus! {

// ---------------------------------------------------------------------------
// Decimal numbers
// ---------------------------------------------------------------------------

/// The character of a decimal digit.
pub open spec fn digit_char(d: nat) -> char {
    if d == 0 {
        '0'
    } else if d == 1 {
        '1'
    } else if d == 2 {
        '2'
    } else if d == 3 {
        '3'
    } else if d == 4 {
        '4'
    } else if d == 5 {
        '5'
    } else if d == 6 {
        '6'
    } else if d == 7 {
        '7'
    } else if d == 8 {
        '8'
    } else {
        '9'
    }
}

/// The decimal digits of `n`, without leading zeros, as `Display` writes them.
pub open spec fn decimal(n: nat) -> Seq<char>
    decreases n,
{
    if n < 10 {
        seq![digit_char(n)]
    } else {
        decimal(n / 10).push(digit_char(n % 10))
    }
}

/// `Display` of a signed integer.
pub open spec fn signed_decimal(n: int) -> Seq<char> {
    if n < 0 {
        seq!['-'] + decimal((-n) as nat)
    } else {
        decimal(n as nat)
    }
}

fn digit_char_exec(d: u64) -> (c: char)
    requires
        d < 10,
    ensures
        c == digit_char(d as nat),
{
    if d == 0 {
        '0'
    } else if d == 1 {
        '1'
    } else if d == 2 {
        '2'
    } else if d == 3 {
        '3'
    } else if d == 4 {
        '4'
    } else if d == 5 {
        '5'
    } else if d == 6 {
        '6'
    } else if d == 7 {
        '7'
    } else if d == 8 {
        '8'
    } else {
        '9'
    }
}

/// Appends the decimal digits of `n`.
pub fn push_decimal(dst: &mut Vec<char>, n: u64)
    ensures
        final(dst)@ == old(dst)@ + decimal(n as nat),
{
    let mut m: u64 = n;
    let mut acc: Vec<char> = Vec::new();
    while m >= 10
        invariant
            decimal(n as nat) == decimal(m as nat) + acc@,
        decreases m,
    {
        let c = digit_char_exec(m % 10);
        let ghost prev = acc@;
        acc.insert(0, c);
        assert(decimal(m as nat) == decimal((m / 10) as nat).push(digit_char((m % 10) as nat)));
        assert(acc@ =~= seq![c] + prev);
        assert(decimal(m as nat) + prev =~= decimal((m / 10) as nat) + acc@);
        m = m / 10;
    }
    let c = digit_char_exec(m);
    let ghost before = dst@;
    dst.push(c);
    push_all(dst, acc.as_slice());
    assert(dst@ =~= before + decimal(n as nat));
}

/// Appends `Display` of a signed integer.
pub fn push_signed_decimal(dst: &mut Vec<char>, n: i64)
    ensures
        final(dst)@ == old(dst)@ + signed_decimal(n as int),
{
    let ghost before = dst@;
    if n < 0 {
        dst.push('-');
        let m: u64 = if n == i64::MIN {
            9223372036854775808u64
        } else {
            (-n) as u64
        };
        push_decimal(dst, m);
        assert(dst@ =~= before + signed_decimal(n as int));
    } else {
        push_decimal(dst, n as u64);
    }
}

} // verus!

verus! {

// ---------------------------------------------------------------------------
// Search, replace and count
// ---------------------------------------------------------------------------

/// Searching a suffix of `s` is searching `s` from where the suffix starts.
pub proof fn lemma_find_from_skip(s: Seq<char>, p: Seq<char>, k: int, j: int)
    requires
        0 <= k <= s.len(),
        0 <= j,
    ensures
        find_from(s.skip(k), p, j) == (match find_from(s, p, k + j) {
            Some(x) => Some(x - k),
            None => None,
        }),
    decreases s.len() + 1 - (k + j),
{
    let t = s.skip(k);
    if j + p.len() > t.len() {
    } else {
        assert(t.subrange(j, j + p.len()) =~= s.subrange(k + j, k + j + p.len()));
        if occurs_at(t, p, j) {
        } else {
            lemma_find_from_skip(s, p, k, j + 1);
        }
    }
}

/// `str::replace`, on characters.
pub fn replace_chars(s: &[char], p: &[char], r: &[char]) -> (out: Vec<char>)
    ensures
        out@ == replace_all(s@, p@, r@),
{
    let mut out: Vec<char> = Vec::new();
    let mut k: usize = 0;
    assert(s@.skip(0) =~= s@);
    if p.len() == 0 {
        while k < s.len()
            invariant
                p@.len() == 0,
                k <= s.len(),
                replace_all(s@, p@, r@) == out@ + replace_all(s@.skip(k as int), p@, r@),
            decreases s.len() - k,
        {
            let ghost before = out@;
            push_all(&mut out, r);
            out.push(s[k]);
            assert(s@.skip(k as int).drop_first() =~= s@.skip(k + 1));
            assert(replace_all(s@.skip(k as int), p@, r@) == r@ + seq![s@[k as int]]
                + replace_all(s@.skip(k + 1), p@, r@));
            assert(out@ =~= before + r@ + seq![s@[k as int]]);
            k = k + 1;
        }
        assert(s@.skip(k as int) =~= Seq::<char>::empty());
        push_all(&mut out, r);
        return out;
    }
    loop
        invariant
            p@.len() > 0,
            k <= s.len(),
            replace_all(s@, p@, r@) == out@ + replace_all(s@.skip(k as int), p@, r@),
        decreases s.len() - k,
    {
        proof {
            lemma_find_from_skip(s@, p@, k as int, 0);
            lemma_find_from(s@, p@, k as int);
        }
        match find_from_exec(s, p, k) {
            None => {
                push_range(&mut out, s, k, s.len());
                assert(s@.skip(k as int) =~= s@.subrange(k as int, s.len() as int));
                return out;
            },
            Some(i) => {
                let ghost before = out@;
                let ghost t = s@.skip(k as int);
                assert(t.take(i - k) =~= s@.subrange(k as int, i as int));
                assert(t.skip(i - k + p.len()) =~= s@.skip(i + p.len()));
                push_range(&mut out, s, k, i);
                push_all(&mut out, r);
                assert(out@ =~= before + t.take(i - k) + r@);
                k = i + p.len();
            },
        }
    }
}

/// `str::matches(..).count()`, on characters.
pub fn count_matches_chars(s: &[char], p: &[char]) -> (n: usize)
    requires
        s.len() < usize::MAX,
    ensures
        n as nat == count_matches(s@, p@),
{
    if p.len() == 0 {
        return s.len() + 1;
    }
    let mut n: usize = 0;
    let mut k: usize = 0;
    assert(s@.skip(0) =~= s@);
    loop
        invariant
            p@.len() > 0,
            k <= s.len(),
            n <= k,
            count_matches(s@, p@) == n + count_matches(s@.skip(k as int), p@),
        decreases s.len() - k,
    {
        proof {
            lemma_find_from_skip(s@, p@, k as int, 0);
            lemma_find_from(s@, p@, k as int);
        }
        match find_from_exec(s, p, k) {
            None => {
                return n;
            },
            Some(i) => {
                let ghost t = s@.skip(k as int);
                assert(t.skip(i - k + p.len()) =~= s@.skip(i + p.len()));
                n = n + 1;
                k = i + p.len();
            },
        }
    }
}

/// `p` occurs somewhere in `s`.
pub fn contains_chars(s: &[char], p: &[char]) -> (b: bool)
    ensures
        b == contains(s@, p@),
{
    proof {
        lemma_contains_find(s@, p@);
    }
    find_from_exec(s, p, 0).is_some()
}

} // verus!

verus! {

/// Two strings hold the same characters.
pub fn str_eq(a: &str, b: &str) -> (r: bool)
    ensures
        r == (a@ == b@),
{
    let x = chars_of(a);
    let y = chars_of(b);
    chars_eq(x.as_slice(), y.as_slice())
}

/// Two character slices are equal.
pub fn chars_eq(x: &[char], y: &[char]) -> (r: bool)
    ensures
        r == (x@ == y@),
{
    if x.len() != y.len() {
        return false;
    }
    let mut i: usize = 0;
    while i < x.len()
        invariant
            x.len() == y.len(),
            i <= x.len(),
            forall|t: int| 0 <= t < i ==> x@[t] == y@[t],
        decreases x.len() - i,
    {
        if x[i] != y[i] {
            return false;
        }
        i = i + 1;
    }
    assert(x@ =~= y@);
    true
}

/// `s` starts with `p`.
pub fn starts_with_chars(s: &[char], p: &[char]) -> (r: bool)
    ensures
        r == starts_with(s@, p@),
{
    if p.len() > s.len() {
        return false;
    }
    let r = occurs_at_exec(s, p, 0);
    assert(s@.subrange(0, p@.len() as int) =~= s@.take(p@.len() as int));
    r
}

} // verus!

verus! {

/// What `String::from_utf8_lossy` makes of `bytes`.
pub uninterp spec fn lossy_utf8(bytes: Seq<u8>) -> Seq<char>;

/// `String::from_utf8_lossy`: decodes UTF-8, putting U+FFFD where bytes are
/// invalid; valid UTF-8 comes back as it is.
#[verifier::external_body]
pub(crate) fn utf8_lossy(bytes: &[u8]) -> (s: String)
    ensures
        s@ == lossy_utf8(bytes@),
        vstd::utf8::valid_utf8(bytes@) ==> s@ == vstd::utf8::decode_utf8(bytes@),
{
    String::from_utf8_lossy(bytes).into_owned()
}

} // verus!

verus! {

/// When `p` occurs in `s`, `str::matches` counts at least one match.
pub proof fn lemma_count_positive(s: Seq<char>, p: Seq<char>)
    requires
        contains(s, p),
    ensures
        count_matches(s, p) >= 1,
{
    lemma_contains_find(s, p);
    if p.len() > 0 {
        lemma_find_from(s, p, 0);
    }
}

} // verus!

verus! {

/// Text added after the first occurrence does not move it: the first match of
/// `p` in `a` is also the first in `a + b`.
pub proof fn lemma_find_in_prefix(a: Seq<char>, b: Seq<char>, p: Seq<char>)
    requires
        find_from(a, p, 0) is Some,
    ensures
        find_from(a + b, p, 0) == find_from(a, p, 0),
{
    let s = a + b;
    lemma_find_from(a, p, 0);
    lemma_find_from(s, p, 0);
    let i = find_from(a, p, 0)->0;
    assert(s.subrange(i, i + p.len()) =~= a.subrange(i, i + p.len()));
    assert(occurs_at(s, p, i));
    match find_from(s, p, 0) {
        Some(j) => {
            if j < i {
                assert(s.subrange(j, j + p.len()) =~= a.subrange(j, j + p.len()));
                assert(occurs_at(a, p, j));
            }
        },
        None => {},
    }
}

} // verus!

verus! {

/// Each replacement changes the length by the difference of the two texts.
pub proof fn lemma_replace_len(s: Seq<char>, p: Seq<char>, r: Seq<char>)
    ensures
        replace_all(s, p, r).len() == s.len() + count_matches(s, p) * (r.len() - p.len()),
    decreases s.len(),
{
    let d: int = r.len() - p.len();
    let cs: int = count_matches(s, p) as int;
    if p.len() == 0 {
        if s.len() > 0 {
            let t = s.drop_first();
            lemma_replace_len(t, p, r);
            let ct: int = count_matches(t, p) as int;
            assert(cs == ct + 1);
            assert(cs * d == ct * d + d) by (nonlinear_arith)
                requires
                    cs == ct + 1,
            ;
        } else {
            assert(cs == 1);
            assert(cs * d == d) by (nonlinear_arith)
                requires
                    cs == 1,
            ;
        }
    } else {
        match find_from(s, p, 0) {
            Some(i) => {
                if 0 <= i && i + p.len() <= s.len() {
                    let rest = s.skip(i + p.len());
                    lemma_replace_len(rest, p, r);
                    let c: int = count_matches(rest, p) as int;
                    assert(cs == c + 1);
                    assert(cs * d == c * d + d) by (nonlinear_arith)
                        requires
                            cs == c + 1,
                    ;
                } else {
                    assert(cs == 0);
                    assert(cs * d == 0) by (nonlinear_arith)
                        requires
                            cs == 0,
                    ;
                }
            },
            None => {
                assert(cs == 0);
                assert(cs * d == 0) by (nonlinear_arith)
                    requires
                        cs == 0,
                ;
            },
        }
    }
}

} // verus!
