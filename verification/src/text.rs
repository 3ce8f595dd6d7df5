//! Character-level helpers on strings, stated over `Seq<char>`.

use vstd::prelude::*;

verus! {

/// The decimal digit for `d`, which is below ten.
pub open spec fn digit_char(d: nat) -> char {
    seq!['0', '1', '2', '3', '4', '5', '6', '7', '8', '9'][d as int]
}

/// The decimal rendering of `n` without leading zeros.
pub open spec fn decimal(n: nat) -> Seq<char>
    decreases n,
{
    if n < 10 {
        seq![digit_char(n)]
    } else {
        decimal(n / 10).push(digit_char(n % 10))
    }
}

/// Appends one character to `s` (std's `String::push`).
#[verifier::external_body]
pub(crate) fn push_char(s: &mut String, c: char)
    ensures
        final(s)@ == old(s)@.push(c),
{
    s.push(c);
}

/// The characters of `s`.
pub fn chars_of(s: &str) -> (v: Vec<char>)
    ensures
        v@ == s@,
{
    let n = s.unicode_len();
    let mut v: Vec<char> = Vec::new();
    let mut i: usize = 0;
    while i < n
        invariant
            n == s@.len(),
            i <= n,
            v@ == s@.take(i as int),
        decreases n - i,
    {
        v.push(s.get_char(i));
        i = i + 1;
        assert(v@ =~= s@.take(i as int));
    }
    assert(v@ =~= s@);
    v
}

/// Renders `n` in decimal, as `u64::to_string` does.
pub fn decimal_u64(n: u64) -> (s: String)
    ensures
        s@ == decimal(n as nat),
{
    decimal_u128(n as u128)
}

/// Renders `n` in decimal, as `u128::to_string` does.
pub fn decimal_u128(n: u128) -> (s: String)
    ensures
        s@ == decimal(n as nat),
    decreases n,
{
    let digits: [char; 10] = ['0', '1', '2', '3', '4', '5', '6', '7', '8', '9'];
    let d: usize = (n % 10) as usize;
    assert(digits@ == seq!['0', '1', '2', '3', '4', '5', '6', '7', '8', '9']);
    if n < 10 {
        let mut s = String::new();
        push_char(&mut s, digits[d]);
        s
    } else {
        let mut s = decimal_u128(n / 10);
        push_char(&mut s, digits[d]);
        s
    }
}

/// `p` is a prefix of `s`.
pub open spec fn is_prefix(p: Seq<char>, s: Seq<char>) -> bool {
    p.len() <= s.len() && s.take(p.len() as int) == p
}

/// `p` occurs in `s` at index `i`.
pub open spec fn occurs_at(s: Seq<char>, p: Seq<char>, i: int) -> bool {
    0 <= i && i + p.len() <= s.len() && s.subrange(i, i + p.len()) == p
}

/// `p` occurs somewhere in `s`.
pub open spec fn has_substring(s: Seq<char>, p: Seq<char>) -> bool {
    exists|i: int| occurs_at(s, p, i)
}

/// `s` with every occurrence of `from`, scanned left to right without
/// overlaps, replaced by `to` (as `str::replace` does for a non-empty
/// pattern).
pub open spec fn replaced(s: Seq<char>, from: Seq<char>, to: Seq<char>) -> Seq<char>
    decreases s.len(),
{
    if from.len() == 0 || s.len() < from.len() {
        s
    } else if s.take(from.len() as int) == from {
        to + replaced(s.skip(from.len() as int), from, to)
    } else {
        seq![s[0]] + replaced(s.skip(1), from, to)
    }
}

/// The characters of `s` before the first `c`, or all of `s`.
pub open spec fn before_char(s: Seq<char>, c: char) -> Seq<char>
    decreases s.len(),
{
    if s.len() == 0 {
        s
    } else if s[0] == c {
        Seq::empty()
    } else {
        seq![s[0]] + before_char(s.skip(1), c)
    }
}

/// The first `n` pieces of `s` split at `'/'`, joined again with `'/'`.
pub open spec fn take_segments(s: Seq<char>, n: nat) -> Seq<char>
    decreases n,
{
    if n == 0 {
        Seq::empty()
    } else if !s.contains('/') || n == 1 {
        before_char(s, '/')
    } else {
        let head = before_char(s, '/');
        head + seq!['/'] + take_segments(s.skip(head.len() as int + 1), (n - 1) as nat)
    }
}

/// If `s.take(k)` holds no `c` and `k` is the end of `s` or an index of `c`,
/// the characters before the first `c` are `s.take(k)`.
pub proof fn lemma_before_char_at(s: Seq<char>, c: char, k: int)
    requires
        0 <= k <= s.len(),
        forall|i: int| 0 <= i < k ==> s[i] != c,
        k == s.len() || s[k] == c,
    ensures
        before_char(s, c) == s.take(k),
        s.contains(c) <==> k < s.len(),
    decreases k,
{
    if k == 0 {
        if s.len() > 0 {
            assert(s[0] == c);
        }
        assert(s.take(0) =~= Seq::<char>::empty());
    } else {
        let t = s.skip(1);
        assert forall|i: int| 0 <= i < k - 1 implies t[i] != c by {
            assert(t[i] == s[i + 1]);
        }
        if k < s.len() {
            assert(t[k - 1] == s[k]);
        }
        lemma_before_char_at(t, c, k - 1);
        assert(s.take(k) =~= seq![s[0]] + t.take(k - 1));
        if k < s.len() {
            assert(s.contains(c)) by {
                assert(s[k] == c);
            }
        } else {
            assert(!s.contains(c)) by {
                if s.contains(c) {
                    let j = choose|j: int| 0 <= j < s.len() && s[j] == c;
                    assert(s[j] != c);
                }
            }
        }
    }
}

/// If `s` holds `c`, the part before the first `c` is shorter than `s` and
/// followed by `c`.
pub proof fn lemma_before_char_found(s: Seq<char>, c: char)
    ensures
        before_char(s, c).len() <= s.len(),
        s.contains(c) ==> before_char(s, c).len() < s.len() && s[before_char(s, c).len() as int] == c,
        !s.contains(c) ==> before_char(s, c) == s,
    decreases s.len(),
{
    if s.len() > 0 && s[0] != c {
        lemma_before_char_found(s.skip(1), c);
        if s.contains(c) {
            let j = choose|j: int| 0 <= j < s.len() && s[j] == c;
            assert(s.skip(1)[j - 1] == c);
        }
        if !s.skip(1).contains(c) {
            assert(s =~= seq![s[0]] + s.skip(1));
        }
        if s.skip(1).contains(c) {
            let j = choose|j: int| 0 <= j < s.skip(1).len() && s.skip(1)[j] == c;
            assert(s[j + 1] == c);
        }
    } else if s.len() > 0 {
        assert(s.contains(c)) by {
            assert(s[0] == c);
        }
    }
}

/// The characters of `s` from `start` up to the first `c` after it, and the
/// index of that `c` if there is one.
fn scan_to_char(s: &Vec<char>, start: usize, c: char) -> (r: (usize, bool))
    requires
        start <= s@.len(),
    ensures
        start <= r.0 <= s@.len(),
        before_char(s@.skip(start as int), c) == s@.subrange(start as int, r.0 as int),
        r.1 == s@.skip(start as int).contains(c),
        r.1 ==> r.0 < s@.len() && s@[r.0 as int] == c,
        !r.1 ==> r.0 == s@.len(),
{
    let mut j = start;
    while j < s.len() && s[j] != c
        invariant
            start <= j <= s@.len(),
            forall|i: int| start <= i < j ==> s@[i] != c,
        decreases s@.len() - j,
    {
        j = j + 1;
    }
    proof {
        let t = s@.skip(start as int);
        assert forall|i: int| 0 <= i < j - start implies t[i] != c by {
            assert(t[i] == s@[start + i]);
        }
        if j < s.len() {
            assert(t[j - start] == s@[j as int]);
        }
        lemma_before_char_at(t, c, j - start);
        assert(t.take(j - start) =~= s@.subrange(start as int, j as int));
    }
    (j, j < s.len())
}

/// The index of the first `c` in `s` (or its length), and whether there is
/// one.
pub fn find_char(s: &str, c: char) -> (r: (usize, bool))
    ensures
        r.1 == s@.contains(c),
        r.0 == before_char(s@, c).len(),
{
    let v = chars_of(s);
    let r = scan_to_char(&v, 0, c);
    proof {
        assert(v@.skip(0) =~= v@);
    }
    r
}

/// A string holding the characters `v[from..to]`.
fn string_of_range(v: &Vec<char>, from: usize, to: usize) -> (s: String)
    requires
        from <= to <= v@.len(),
    ensures
        s@ == v@.subrange(from as int, to as int),
{
    let mut s = String::new();
    let mut i = from;
    while i < to
        invariant
            from <= i <= to <= v@.len(),
            s@ == v@.subrange(from as int, i as int),
        decreases to - i,
    {
        push_char(&mut s, v[i]);
        i = i + 1;
        assert(s@ =~= v@.subrange(from as int, i as int));
    }
    s
}

/// The characters of `s` before the first `c`.
pub fn prefix_before(s: &str, c: char) -> (r: String)
    ensures
        r@ == before_char(s@, c),
{
    let v = chars_of(s);
    let (end, _) = scan_to_char(&v, 0, c);
    assert(v@.skip(0) =~= v@);
    string_of_range(&v, 0, end)
}

/// The first `n` pieces of `s` split at `'/'`, joined with `'/'` again.
pub fn first_segments(s: &str, n: usize) -> (r: String)
    ensures
        r@ == take_segments(s@, n as nat),
{
    let v = chars_of(s);
    let vlen = v.len();
    let mut out = String::new();
    let mut start: usize = 0;
    let mut left: usize = n;
    proof {
        assert(v@.skip(0) =~= v@);
    }
    while left > 0
        invariant
            v@ == s@,
            v@.len() == vlen,
            start <= v@.len(),
            left <= n,
            out@ + take_segments(v@.skip(start as int), left as nat) == take_segments(s@, n as nat),
        decreases left,
    {
        let (end, found) = scan_to_char(&v, start, '/');
        assert(found ==> end < v@.len());
        let piece = string_of_range(&v, start, end);
        out.append(piece.as_str());
        if !found || left == 1 {
            proof {
                let t = v@.skip(start as int);
                assert(take_segments(t, left as nat) == before_char(t, '/'));
                assert(take_segments(v@.skip(end as int), 0) == Seq::<char>::empty());
                assert(out@ =~= out@ + Seq::<char>::empty());
            }
            start = end;
            left = 0;
        } else {
            push_char(&mut out, '/');
            proof {
                let t = v@.skip(start as int);
                let head = before_char(t, '/');
                assert(head.len() == end - start);
                assert(t.skip(head.len() as int + 1) =~= v@.skip(end + 1));
            }
            start = end + 1;
            left = left - 1;
        }
    }
    proof {
        assert(out@ =~= out@ + Seq::<char>::empty());
    }
    out
}

/// Whether `p` occurs in `s` at index `i`.
fn matches_at(s: &Vec<char>, p: &Vec<char>, i: usize) -> (r: bool)
    requires
        i <= s@.len(),
    ensures
        r == occurs_at(s@, p@, i as int),
{
    if p.len() > s.len() - i {
        return false;
    }
    let mut k: usize = 0;
    while k < p.len()
        invariant
            i + p@.len() <= s@.len(),
            s@.len() <= usize::MAX,
            k <= p@.len(),
            forall|j: int| 0 <= j < k ==> s@[i + j] == p@[j],
        decreases p@.len() - k,
    {
        assert(i + k < s@.len());
        if s[i + k] != p[k] {
            proof {
                assert(s@.subrange(i as int, i + p@.len())[k as int] != p@[k as int]);
            }
            return false;
        }
        k = k + 1;
    }
    assert(s@.subrange(i as int, i + p@.len()) =~= p@);
    true
}

/// Whether `s` starts with `p`.
pub fn starts_with(s: &str, p: &str) -> (r: bool)
    ensures
        r == is_prefix(p@, s@),
{
    let sv = chars_of(s);
    let pv = chars_of(p);
    let r = matches_at(&sv, &pv, 0);
    assert(sv@.subrange(0, pv@.len() as int) =~= sv@.take(pv@.len() as int));
    r
}

/// Whether `p` occurs in `s`.
pub fn contains_str(s: &str, p: &str) -> (r: bool)
    ensures
        r == has_substring(s@, p@),
{
    let sv = chars_of(s);
    let pv = chars_of(p);
    let mut i: usize = 0;
    while i < sv.len()
        invariant
            sv@ == s@,
            pv@ == p@,
            i <= sv@.len(),
            forall|j: int| 0 <= j < i ==> !occurs_at(s@, p@, j),
        decreases sv@.len() - i,
    {
        if matches_at(&sv, &pv, i) {
            return true;
        }
        i = i + 1;
    }
    if matches_at(&sv, &pv, i) {
        return true;
    }
    proof {
        assert forall|j: int| !occurs_at(s@, p@, j) by {
            if 0 <= j < i {
            }
        }
    }
    false
}

/// `s` with every occurrence of `from` replaced by `to`, left to right.
pub fn replace_all(s: &str, from: &str, to: &str) -> (r: String)
    requires
        from@.len() > 0,
    ensures
        r@ == replaced(s@, from@, to@),
{
    let sv = chars_of(s);
    let fv = chars_of(from);
    let mut out = String::new();
    let mut i: usize = 0;
    proof {
        assert(sv@.skip(0) =~= sv@);
    }
    while i < sv.len()
        invariant
            sv@ == s@,
            fv@ == from@,
            fv@.len() > 0,
            i <= sv@.len(),
            out@ + replaced(sv@.skip(i as int), from@, to@) == replaced(s@, from@, to@),
        decreases sv@.len() - i,
    {
        let t = Ghost(sv@.skip(i as int));
        if matches_at(&sv, &fv, i) {
            proof {
                assert(t@.take(fv@.len() as int) =~= sv@.subrange(i as int, i + fv@.len()));
                assert(t@.skip(fv@.len() as int) =~= sv@.skip(i + fv@.len()));
                assert(out@ + (to@ + replaced(t@.skip(fv@.len() as int), from@, to@))
                    =~= (out@ + to@) + replaced(sv@.skip(i + fv@.len()), from@, to@));
            }
            out.append(to);
            i = i + fv.len();
        } else {
            proof {
                if t@.len() >= from@.len() {
                    assert(t@.take(fv@.len() as int) =~= sv@.subrange(i as int, i + fv@.len()));
                }
                assert(t@[0] == sv@[i as int]);
                assert(t@.skip(1) =~= sv@.skip(i + 1));
                if t@.len() < from@.len() {
                    assert(replaced(t@, from@, to@) == t@);
                    assert(t@ =~= seq![sv@[i as int]] + t@.skip(1));
                    lemma_replaced_short(t@.skip(1), from@, to@);
                }
                assert(out@ + (seq![sv@[i as int]] + replaced(sv@.skip(i + 1), from@, to@))
                    =~= out@.push(sv@[i as int]) + replaced(sv@.skip(i + 1), from@, to@));
            }
            push_char(&mut out, sv[i]);
            i = i + 1;
        }
    }
    proof {
        assert(sv@.skip(i as int) =~= Seq::<char>::empty());
        assert(out@ =~= out@ + Seq::<char>::empty());
    }
    out
}

/// A string shorter than the pattern is left as it is.
proof fn lemma_replaced_short(s: Seq<char>, from: Seq<char>, to: Seq<char>)
    requires
        s.len() < from.len(),
    ensures
        replaced(s, from, to) == s,
{
}

/// What `str::to_lowercase` gives for `s` (Unicode lower case).
pub uninterp spec fn lowercase(s: Seq<char>) -> Seq<char>;

/// Lower-cases `s` with std's `str::to_lowercase`. The contract names the
/// result; Unicode case mapping is not restated.
#[verifier::external_body]
fn to_lowercase(s: &str) -> (r: String)
    ensures
        r@ == lowercase(s@),
{
    s.to_lowercase()
}

/// Whether two names are equal when lower-cased.
pub fn same_ignoring_case(a: &str, b: &str) -> (r: bool)
    ensures
        r == (lowercase(a@) == lowercase(b@)),
{
    let la = to_lowercase(a);
    let lb = to_lowercase(b);
    la == lb
}

} // verus!
