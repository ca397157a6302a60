//! Character-level string operations with exact specifications.

use vstd::prelude::*;

verus! {

/// `p` occurs in `s` at position `i`.
pub open spec fn occurs_at(s: Seq<char>, p: Seq<char>, i: int) -> bool {
    &&& 0 <= i
    &&& i + p.len() <= s.len()
    &&& s.subrange(i, i + p.len()) == p
}

/// `p` occurs somewhere in `s` (the empty pattern occurs in every string).
pub open spec fn seq_contains(s: Seq<char>, p: Seq<char>) -> bool {
    exists|i: int| occurs_at(s, p, i)
}

/// `s` begins with `p`.
pub open spec fn seq_starts_with(s: Seq<char>, p: Seq<char>) -> bool {
    occurs_at(s, p, 0)
}

/// The characters of a string, one by one.
pub fn chars_of(s: &str) -> (v: Vec<char>)
    ensures
        v@ == s@,
{
    let n = s.unicode_len();
    let mut v: Vec<char> = Vec::new();
    let mut i: usize = 0;
    while i < n
        invariant
            n == s@.len(),
            i <= n,
            v@ == s@.subrange(0, i as int),
        decreases n - i,
    {
        let c = s.get_char(i);
        v.push(c);
        i = i + 1;
        assert(v@ =~= s@.subrange(0, i as int));
    }
    assert(v@ =~= s@);
    v
}

/// Whether two strings hold the same characters.
pub fn str_equal(a: &str, b: &str) -> (r: bool)
    ensures
        r == (a@ == b@),
{
    let x = chars_of(a);
    let y = chars_of(b);
    if x.len() != y.len() {
        return false;
    }
    let mut i: usize = 0;
    while i < x.len()
        invariant
            x@ == a@,
            y@ == b@,
            x.len() == y.len(),
            i <= x.len(),
            forall|j: int| 0 <= j < i ==> x@[j] == y@[j],
        decreases x.len() - i,
    {
        if x[i] != y[i] {
            return false;
        }
        i = i + 1;
    }
    assert(x@ =~= y@);
    true
}


/// Whether `p` occurs in `v` starting at index `i`.
pub fn matches_at(v: &Vec<char>, p: &Vec<char>, i: usize) -> (b: bool)
    requires
        i + p@.len() <= v@.len(),
    ensures
        b == (v@.subrange(i as int, i + p@.len()) == p@),
{
    let m = p.len();
    let mut j: usize = 0;
    while j < m
        invariant
            m == p@.len(),
            i + m <= v.len(),
            j <= m,
            forall|k: int| 0 <= k < j ==> v@[i + k] == p@[k],
        decreases m - j,
    {
        if v[i + j] != p[j] {
            assert(v@.subrange(i as int, i + m)[j as int] != p@[j as int]);
            return false;
        }
        j = j + 1;
    }
    assert(v@.subrange(i as int, i + m) =~= p@);
    true
}

/// Whether `p` occurs somewhere in `v`.
pub fn vec_contains(v: &Vec<char>, p: &Vec<char>) -> (b: bool)
    ensures
        b == seq_contains(v@, p@),
{
    let n = v.len();
    let m = p.len();
    if m > n {
        assert forall|i: int| !occurs_at(v@, p@, i) by {}
        return false;
    }
    if m == 0 {
        assert(v@.subrange(0, 0) =~= p@);
        assert(occurs_at(v@, p@, 0));
        return true;
    }
    let mut i: usize = 0;
    while i <= n - m
        invariant
            n == v@.len(),
            m == p@.len(),
            0 < m <= n,
            i <= n - m + 1,
            forall|k: int| 0 <= k < i ==> !occurs_at(v@, p@, k),
        decreases n - m + 1 - i,
    {
        if matches_at(v, p, i) {
            assert(occurs_at(v@, p@, i as int));
            return true;
        }
        i = i + 1;
    }
    assert forall|k: int| !occurs_at(v@, p@, k) by {
        if 0 <= k < i {
        }
    }
    false
}

/// Whether `p` occurs somewhere in `s`.
pub fn str_contains(s: &str, p: &str) -> (b: bool)
    ensures
        b == seq_contains(s@, p@),
{
    let v = chars_of(s);
    let w = chars_of(p);
    vec_contains(&v, &w)
}

/// Whether `s` begins with `p`.
pub fn str_starts_with(s: &str, p: &str) -> (b: bool)
    ensures
        b == seq_starts_with(s@, p@),
{
    let v = chars_of(s);
    let w = chars_of(p);
    if w.len() > v.len() {
        return false;
    }
    matches_at(&v, &w, 0)
}

/// Every occurrence of `p` in `s`, taken from the left without overlap,
/// replaced by `r`. An empty pattern leaves `s` as it is.
pub open spec fn replace_all(s: Seq<char>, p: Seq<char>, r: Seq<char>) -> Seq<char>
    decreases s.len(),
{
    if p.len() == 0 || s.len() < p.len() {
        s
    } else if s.subrange(0, p.len() as int) == p {
        r + replace_all(s.subrange(p.len() as int, s.len() as int), p, r)
    } else {
        seq![s[0]] + replace_all(s.subrange(1, s.len() as int), p, r)
    }
}

/// `s` with every occurrence of the non-empty pattern `p` replaced by `r`.
pub fn replace_str(s: &str, p: &str, r: &str) -> (out: String)
    requires
        p@.len() > 0,
    ensures
        out@ == replace_all(s@, p@, r@),
{
    let v = chars_of(s);
    let w = chars_of(p);
    let n = v.len();
    let m = w.len();
    let mut out = String::new();
    let mut last: usize = 0;
    let mut i: usize = 0;
    assert(v@.subrange(0, n as int) =~= v@);
    assert(v@.subrange(0, 0) =~= Seq::<char>::empty());
    assert(out@ + v@.subrange(0, 0) =~= Seq::<char>::empty());
    while i <= n && n - i >= m
        invariant
            v@ == s@,
            w@ == p@,
            n == v@.len(),
            m == w@.len(),
            m > 0,
            last <= i <= n,
            out@ + v@.subrange(last as int, i as int) + replace_all(
                v@.subrange(i as int, n as int),
                w@,
                r@,
            ) == replace_all(v@, w@, r@),
        decreases n - i,
    {
        let ghost t = v@.subrange(i as int, n as int);
        assert(t.subrange(0, m as int) =~= v@.subrange(i as int, i + m));
        if matches_at(&v, &w, i) {
            assert(t.subrange(m as int, t.len() as int) =~= v@.subrange(i + m, n as int));
            let piece = s.substring_char(last, i);
            out.append(piece);
            out.append(r);
            i = i + m;
            last = i;
            assert(v@.subrange(last as int, i as int) =~= Seq::<char>::empty());
            assert(out@ + v@.subrange(last as int, i as int) =~= out@);
        } else {
            assert(t.subrange(1, t.len() as int) =~= v@.subrange(i + 1, n as int));
            assert(v@.subrange(last as int, i as int) + seq![v@[i as int]] =~= v@.subrange(
                last as int,
                i + 1,
            ));
            i = i + 1;
        }
    }
    let tail = s.substring_char(last, n);
    out.append(tail);
    assert(v@.subrange(last as int, i as int) + v@.subrange(i as int, n as int) =~= v@.subrange(
        last as int,
        n as int,
    ));
    out
}


/// The lower-case form of a string as `str::to_lowercase` computes it
/// (full Unicode case mapping, which may change the length).
pub uninterp spec fn lowercase(s: Seq<char>) -> Seq<char>;

/// Calls `str::to_lowercase`; the result is the lower-case form of `s`,
/// named `lowercase` and otherwise left unstated here.
#[verifier::external_body]
pub(crate) fn to_lowercase(s: &str) -> (r: String)
    ensures
        r@ == lowercase(s@),
{
    s.to_lowercase()
}

/// The code point of `c`, with the ASCII capitals `A`..=`Z` mapped to
/// their lower-case letters.
pub open spec fn ascii_fold(c: char) -> u32 {
    let n = c as u32;
    if 65 <= n && n <= 90 {
        (n + 32) as u32
    } else {
        n
    }
}

/// `a` and `b` are equal when ASCII letters are compared without regard to case.
pub open spec fn eq_ignore_ascii_case(a: Seq<char>, b: Seq<char>) -> bool {
    &&& a.len() == b.len()
    &&& forall|i: int| 0 <= i < a.len() ==> ascii_fold(#[trigger] a[i]) == ascii_fold(b[i])
}

fn fold_char(c: char) -> (n: u32)
    ensures
        n == ascii_fold(c),
{
    let n = c as u32;
    if 65 <= n && n <= 90 {
        n + 32
    } else {
        n
    }
}

/// Whether two strings are equal up to the case of ASCII letters.
pub fn str_eq_ignore_ascii_case(a: &str, b: &str) -> (r: bool)
    ensures
        r == eq_ignore_ascii_case(a@, b@),
{
    let x = chars_of(a);
    let y = chars_of(b);
    if x.len() != y.len() {
        return false;
    }
    let mut i: usize = 0;
    while i < x.len()
        invariant
            x@ == a@,
            y@ == b@,
            x.len() == y.len(),
            i <= x.len(),
            forall|j: int| 0 <= j < i ==> ascii_fold(#[trigger] x@[j]) == ascii_fold(y@[j]),
        decreases x.len() - i,
    {
        if fold_char(x[i]) != fold_char(y[i]) {
            return false;
        }
        i = i + 1;
    }
    true
}

/// The pieces joined back together with `sep` between neighbours.
pub open spec fn join_with(parts: Seq<Seq<char>>, sep: char) -> Seq<char>
    decreases parts.len(),
{
    if parts.len() == 0 {
        Seq::empty()
    } else if parts.len() == 1 {
        parts[0]
    } else {
        join_with(parts.drop_last(), sep) + seq![sep] + parts.last()
    }
}

/// The views of a list of strings.
pub open spec fn views(v: Seq<String>) -> Seq<Seq<char>> {
    v.map_values(|x: String| x@)
}

proof fn lemma_join_push(parts: Seq<Seq<char>>, x: Seq<char>, sep: char)
    ensures
        join_with(parts.push(x), sep) == if parts.len() == 0 {
            x
        } else {
            join_with(parts, sep) + seq![sep] + x
        },
{
    assert(parts.push(x).drop_last() =~= parts);
}

/// The pieces of `s` between the occurrences of `/`: joining them with `/`
/// gives `s` back, and no piece holds a `/`. There is always at least one
/// piece (the empty string gives one empty piece).
pub fn split_slash(s: &str) -> (parts: Vec<String>)
    ensures
        parts@.len() >= 1,
        join_with(views(parts@), '/') == s@,
        forall|k: int| 0 <= k < parts@.len() ==> !(#[trigger] parts@[k])@.contains('/'),
{
    let v = chars_of(s);
    let n = v.len();
    let mut parts: Vec<String> = Vec::new();
    let mut last: usize = 0;
    let mut i: usize = 0;
    proof {
        lemma_join_push(views(parts@), v@.subrange(0, 0), '/');
    }
    while i < n
        invariant
            v@ == s@,
            n == v@.len(),
            last <= i <= n,
            join_with(views(parts@).push(v@.subrange(last as int, i as int)), '/')
                == v@.subrange(0, i as int),
            forall|k: int| 0 <= k < parts@.len() ==> !(#[trigger] parts@[k])@.contains('/'),
            forall|j: int| last <= j < i ==> v@[j] != '/',
        decreases n - i,
    {
        let ghost old_views = views(parts@);
        let ghost old_parts = parts@;
        let ghost seg = v@.subrange(last as int, i as int);
        if v[i] == '/' {
            let piece = s.substring_char(last, i);
            let owned = piece.to_owned();
            proof {
                assert forall|j: int| 0 <= j < seg.len() implies seg[j] != '/' by {
                    assert(seg[j] == v@[last + j]);
                }
            }
            parts.push(owned);
            i = i + 1;
            last = i;
            proof {
                assert(views(parts@) =~= old_views.push(seg));
                lemma_join_push(views(parts@), v@.subrange(last as int, i as int), '/');
                assert(v@.subrange(last as int, i as int) =~= Seq::<char>::empty());
                assert(v@.subrange(0, i - 1) + seq!['/'] =~= v@.subrange(0, i as int));
                assert forall|k: int| 0 <= k < parts@.len() implies !(#[trigger] parts@[k])@.contains('/') by {
                    if k < old_parts.len() {
                        assert(parts@[k] == old_parts[k]);
                    } else {
                        assert(parts@[k]@ == seg);
                    }
                }
            }
        } else {
            proof {
                lemma_join_push(old_views, seg, '/');
                lemma_join_push(old_views, v@.subrange(last as int, i + 1), '/');
                assert(seg + seq![v@[i as int]] =~= v@.subrange(last as int, i + 1));
                assert(v@.subrange(0, i as int) + seq![v@[i as int]] =~= v@.subrange(0, i + 1));
                if old_views.len() == 0 {
                    assert(seg.len() == i - last);
                    assert(last == 0);
                }
            }
            i = i + 1;
        }
    }
    let ghost old_views = views(parts@);
    let ghost old_parts = parts@;
    let ghost seg = v@.subrange(last as int, n as int);
    let tail = s.substring_char(last, n);
    parts.push(tail.to_owned());
    proof {
        assert(views(parts@) =~= old_views.push(seg));
        assert(v@.subrange(0, n as int) =~= v@);
        assert forall|j: int| 0 <= j < seg.len() implies seg[j] != '/' by {
            assert(seg[j] == v@[last + j]);
        }
        assert forall|k: int| 0 <= k < parts@.len() implies !(#[trigger] parts@[k])@.contains('/') by {
            if k < old_parts.len() {
                assert(parts@[k] == old_parts[k]);
            } else {
                assert(parts@[k]@ == seg);
            }
        }
    }
    parts
}

/// One of the two sequences is a prefix of the other.
pub open spec fn agrees(a: Seq<char>, b: Seq<char>) -> bool {
    let k = if a.len() < b.len() {
        a.len()
    } else {
        b.len()
    };
    a.take(k as int) == b.take(k as int)
}

/// Putting `r` anywhere cannot make an occurrence of `q` that uses any of
/// `r`'s characters.
pub open spec fn insertion_avoids(q: Seq<char>, r: Seq<char>) -> bool {
    &&& forall|i: int| 0 <= i < r.len() ==> !agrees(#[trigger] r.skip(i), q)
    &&& forall|j: int| 1 <= j < q.len() ==> !agrees(r, #[trigger] q.skip(j))
}

/// `r` cannot make an occurrence of `q` when every way of laying one over
/// the other meets a mismatch: for each start `i` in `r`, `r` from `i` and
/// `q` differ at offset `wr(i)`; for each start `j` inside `q`, `r` and `q`
/// from `j` differ at offset `wq(j)`.
pub proof fn lemma_avoids_by_mismatches(
    q: Seq<char>,
    r: Seq<char>,
    wr: spec_fn(int) -> int,
    wq: spec_fn(int) -> int,
)
    requires
        forall|i: int|
            0 <= i < r.len() ==> 0 <= #[trigger] wr(i) < q.len() && i + wr(i) < r.len() && r[i
                + wr(i)] != q[wr(i)],
        forall|j: int|
            1 <= j < q.len() ==> 0 <= #[trigger] wq(j) < r.len() && j + wq(j) < q.len() && r[wq(j)]
                != q[j + wq(j)],
    ensures
        insertion_avoids(q, r),
{
    assert forall|i: int| 0 <= i < r.len() implies !agrees(#[trigger] r.skip(i), q) by {
        let a = r.skip(i);
        let k: int = if a.len() < q.len() { a.len() as int } else { q.len() as int };
        let w = wr(i);
        assert(a[w] == r[i + w]);
        assert(a.take(k)[w] != q.take(k)[w]);
    }
    assert forall|j: int| 1 <= j < q.len() implies !agrees(r, #[trigger] q.skip(j)) by {
        let b = q.skip(j);
        let k: int = if r.len() < b.len() { r.len() as int } else { b.len() as int };
        let w = wq(j);
        assert(b[w] == q[j + w]);
        assert(r.take(k)[w] != b.take(k)[w]);
    }
}

proof fn lemma_unfold_match(t: Seq<char>, p: Seq<char>, r: Seq<char>)
    requires
        p.len() > 0,
        t.len() >= p.len(),
        t.subrange(0, p.len() as int) == p,
    ensures
        replace_all(t, p, r) == r + replace_all(t.subrange(p.len() as int, t.len() as int), p, r),
{
}

proof fn lemma_unfold_skip(t: Seq<char>, p: Seq<char>, r: Seq<char>)
    requires
        p.len() > 0,
        t.len() >= p.len(),
        t.subrange(0, p.len() as int) != p,
    ensures
        replace_all(t, p, r) == seq![t[0]] + replace_all(t.subrange(1, t.len() as int), p, r),
{
}

proof fn lemma_prefix_back(t: Seq<char>, p: Seq<char>, r: Seq<char>, j: int)
    requires
        p.len() > 0,
        insertion_avoids(p, r),
        1 <= j <= p.len(),
        seq_starts_with(replace_all(t, p, r), p.skip(j)),
    ensures
        seq_starts_with(t, p.skip(j)),
    decreases t.len(),
{
    let q = p.skip(j);
    let big = replace_all(t, p, r);
    if j == p.len() {
        assert(t.subrange(0, 0) =~= q);
        return;
    }
    if t.len() < p.len() {
        return;
    }
    if t.subrange(0, p.len() as int) == p {
        lemma_unfold_match(t, p, r);
        let x = replace_all(t.subrange(p.len() as int, t.len() as int), p, r);
        let k = if r.len() < q.len() {
            r.len()
        } else {
            q.len()
        };
        assert(big.subrange(0, q.len() as int) == q);
        assert forall|i: int| 0 <= i < k implies r.take(k as int)[i] == q.take(k as int)[i] by {
            assert(big[i] == r[i]);
            assert(big.subrange(0, q.len() as int)[i] == big[i]);
        }
        assert(r.take(k as int) =~= q.take(k as int));
        assert(agrees(r, p.skip(j)));
        assert(false);
    } else {
        lemma_unfold_skip(t, p, r);
        let t1 = t.subrange(1, t.len() as int);
        let x = replace_all(t1, p, r);
        assert(big.subrange(0, q.len() as int) == q);
        assert(big[0] == t[0]);
        assert(big.subrange(0, q.len() as int)[0] == q[0]);
        assert(p.skip(j + 1) =~= q.skip(1));
        assert forall|i: int| 0 <= i < q.len() - 1 implies x.subrange(0, q.len() - 1)[i] == q.skip(
            1,
        )[i] by {
            assert(big[i + 1] == x[i]);
            assert(big.subrange(0, q.len() as int)[i + 1] == big[i + 1]);
        }
        assert(x.subrange(0, q.len() - 1) =~= q.skip(1));
        lemma_prefix_back(t1, p, r, j + 1);
        assert forall|i: int| 0 <= i < q.len() implies t.subrange(0, q.len() as int)[i] == q[i] by {
            if i > 0 {
                assert(t1.subrange(0, q.len() - 1)[i - 1] == q.skip(1)[i - 1]);
            }
        }
        assert(t.subrange(0, q.len() as int) =~= q);
    }
}

/// When putting `r` anywhere cannot make an occurrence of `p`, no
/// occurrence of `p` is left after every one has been replaced by `r`.
pub proof fn lemma_replace_all_removes(t: Seq<char>, p: Seq<char>, r: Seq<char>)
    requires
        p.len() > 0,
        insertion_avoids(p, r),
    ensures
        !seq_contains(replace_all(t, p, r), p),
    decreases t.len(),
{
    let big = replace_all(t, p, r);
    if t.len() < p.len() {
        assert forall|k: int| !occurs_at(big, p, k) by {}
        return;
    }
    if t.subrange(0, p.len() as int) == p {
        lemma_unfold_match(t, p, r);
        let rest = t.subrange(p.len() as int, t.len() as int);
        let x = replace_all(rest, p, r);
        lemma_replace_all_removes(rest, p, r);
        assert forall|k: int| !occurs_at(big, p, k) by {
            if occurs_at(big, p, k) {
                if k < r.len() {
                    let a = r.skip(k);
                    let m = if a.len() < p.len() {
                        a.len()
                    } else {
                        p.len()
                    };
                    assert forall|i: int| 0 <= i < m implies a.take(m as int)[i] == p.take(
                        m as int,
                    )[i] by {
                        assert(big[k + i] == r[k + i]);
                        assert(big.subrange(k, k + p.len())[i] == big[k + i]);
                    }
                    assert(a.take(m as int) =~= p.take(m as int));
                    assert(agrees(r.skip(k), p));
                } else {
                    assert forall|i: int| 0 <= i < p.len() implies x.subrange(
                        k - r.len(),
                        k - r.len() + p.len(),
                    )[i] == p[i] by {
                        assert(big[k + i] == x[k - r.len() + i]);
                        assert(big.subrange(k, k + p.len())[i] == big[k + i]);
                    }
                    assert(x.subrange(k - r.len(), k - r.len() + p.len()) =~= p);
                    assert(occurs_at(x, p, k - r.len()));
                }
            }
        }
    } else {
        lemma_unfold_skip(t, p, r);
        let t1 = t.subrange(1, t.len() as int);
        let x = replace_all(t1, p, r);
        lemma_replace_all_removes(t1, p, r);
        assert forall|k: int| !occurs_at(big, p, k) by {
            if occurs_at(big, p, k) {
                if k == 0 {
                    assert forall|i: int| 0 <= i < p.len() - 1 implies x.subrange(0, p.len() - 1)[i]
                        == p.skip(1)[i] by {
                        assert(big[i + 1] == x[i]);
                        assert(big.subrange(0, p.len() as int)[i + 1] == big[i + 1]);
                    }
                    assert(x.subrange(0, p.skip(1).len() as int) =~= p.skip(1));
                    lemma_prefix_back(t1, p, r, 1);
                    assert forall|i: int| 0 <= i < p.len() implies t.subrange(0, p.len() as int)[i]
                        == p[i] by {
                        if i > 0 {
                            assert(t1.subrange(0, p.len() - 1)[i - 1] == p.skip(1)[i - 1]);
                        } else {
                            assert(big[0] == t[0]);
                            assert(big.subrange(0, p.len() as int)[0] == big[0]);
                        }
                    }
                    assert(t.subrange(0, p.len() as int) =~= p);
                } else {
                    assert forall|i: int| 0 <= i < p.len() implies x.subrange(
                        k - 1,
                        k - 1 + p.len(),
                    )[i] == p[i] by {
                        assert(big[k + i] == x[k - 1 + i]);
                        assert(big.subrange(k, k + p.len())[i] == big[k + i]);
                    }
                    assert(x.subrange(k - 1, k - 1 + p.len()) =~= p);
                    assert(occurs_at(x, p, k - 1));
                }
            }
        }
    }
}

/// Replacing a pattern that does not occur in the text changes nothing.
pub proof fn lemma_replace_all_absent(t: Seq<char>, p: Seq<char>, r: Seq<char>)
    requires
        p.len() > 0,
        !seq_contains(t, p),
    ensures
        replace_all(t, p, r) == t,
    decreases t.len(),
{
    if t.len() < p.len() {
        return;
    }
    assert(!occurs_at(t, p, 0));
    let t1 = t.subrange(1, t.len() as int);
    assert forall|k: int| !occurs_at(t1, p, k) by {
        if occurs_at(t1, p, k) {
            assert(t.subrange(k + 1, k + 1 + p.len()) =~= t1.subrange(k, k + p.len()));
            assert(occurs_at(t, p, k + 1));
        }
    }
    lemma_replace_all_absent(t1, p, r);
    lemma_unfold_skip(t, p, r);
    assert(seq![t[0]] + t1 =~= t);
}

proof fn lemma_prefix_back_other(t: Seq<char>, p: Seq<char>, r: Seq<char>, q: Seq<char>, j: int)
    requires
        p.len() > 0,
        insertion_avoids(q, r),
        1 <= j <= q.len(),
        seq_starts_with(replace_all(t, p, r), q.skip(j)),
    ensures
        seq_starts_with(t, q.skip(j)),
    decreases t.len(),
{
    let w = q.skip(j);
    let big = replace_all(t, p, r);
    if j == q.len() {
        assert(t.subrange(0, 0) =~= w);
        return;
    }
    if t.len() < p.len() {
        return;
    }
    if t.subrange(0, p.len() as int) == p {
        lemma_unfold_match(t, p, r);
        let k = if r.len() < w.len() {
            r.len()
        } else {
            w.len()
        };
        assert(big.subrange(0, w.len() as int) == w);
        assert forall|i: int| 0 <= i < k implies r.take(k as int)[i] == w.take(k as int)[i] by {
            assert(big[i] == r[i]);
            assert(big.subrange(0, w.len() as int)[i] == big[i]);
        }
        assert(r.take(k as int) =~= w.take(k as int));
        assert(agrees(r, q.skip(j)));
        assert(false);
    } else {
        lemma_unfold_skip(t, p, r);
        let t1 = t.subrange(1, t.len() as int);
        let x = replace_all(t1, p, r);
        assert(big.subrange(0, w.len() as int) == w);
        assert(big[0] == t[0]);
        assert(big.subrange(0, w.len() as int)[0] == w[0]);
        assert(q.skip(j + 1) =~= w.skip(1));
        assert forall|i: int| 0 <= i < w.len() - 1 implies x.subrange(0, w.len() - 1)[i] == w.skip(
            1,
        )[i] by {
            assert(big[i + 1] == x[i]);
            assert(big.subrange(0, w.len() as int)[i + 1] == big[i + 1]);
        }
        assert(x.subrange(0, w.len() - 1) =~= w.skip(1));
        lemma_prefix_back_other(t1, p, r, q, j + 1);
        assert forall|i: int| 0 <= i < w.len() implies t.subrange(0, w.len() as int)[i] == w[i] by {
            if i > 0 {
                assert(t1.subrange(0, w.len() - 1)[i - 1] == w.skip(1)[i - 1]);
            }
        }
        assert(t.subrange(0, w.len() as int) =~= w);
    }
}

/// When putting `r` anywhere cannot make an occurrence of `q`, replacing
/// `p` by `r` leaves a string without `q` without it.
pub proof fn lemma_replace_all_keeps_absent(t: Seq<char>, p: Seq<char>, r: Seq<char>, q: Seq<char>)
    requires
        p.len() > 0,
        q.len() > 0,
        insertion_avoids(q, r),
        !seq_contains(t, q),
    ensures
        !seq_contains(replace_all(t, p, r), q),
    decreases t.len(),
{
    let big = replace_all(t, p, r);
    if t.len() < p.len() {
        return;
    }
    if t.subrange(0, p.len() as int) == p {
        lemma_unfold_match(t, p, r);
        let rest = t.subrange(p.len() as int, t.len() as int);
        let x = replace_all(rest, p, r);
        assert forall|k: int| !occurs_at(rest, q, k) by {
            if occurs_at(rest, q, k) {
                assert(t.subrange(k + p.len(), k + p.len() + q.len()) =~= rest.subrange(k, k + q.len()));
                assert(occurs_at(t, q, k + p.len()));
            }
        }
        lemma_replace_all_keeps_absent(rest, p, r, q);
        assert forall|k: int| !occurs_at(big, q, k) by {
            if occurs_at(big, q, k) {
                if k < r.len() {
                    let a = r.skip(k);
                    let m = if a.len() < q.len() {
                        a.len()
                    } else {
                        q.len()
                    };
                    assert forall|i: int| 0 <= i < m implies a.take(m as int)[i] == q.take(
                        m as int,
                    )[i] by {
                        assert(big[k + i] == r[k + i]);
                        assert(big.subrange(k, k + q.len())[i] == big[k + i]);
                    }
                    assert(a.take(m as int) =~= q.take(m as int));
                    assert(agrees(r.skip(k), q));
                } else {
                    assert forall|i: int| 0 <= i < q.len() implies x.subrange(
                        k - r.len(),
                        k - r.len() + q.len(),
                    )[i] == q[i] by {
                        assert(big[k + i] == x[k - r.len() + i]);
                        assert(big.subrange(k, k + q.len())[i] == big[k + i]);
                    }
                    assert(x.subrange(k - r.len(), k - r.len() + q.len()) =~= q);
                    assert(occurs_at(x, q, k - r.len()));
                }
            }
        }
    } else {
        lemma_unfold_skip(t, p, r);
        let t1 = t.subrange(1, t.len() as int);
        let x = replace_all(t1, p, r);
        assert forall|k: int| !occurs_at(t1, q, k) by {
            if occurs_at(t1, q, k) {
                assert(t.subrange(k + 1, k + 1 + q.len()) =~= t1.subrange(k, k + q.len()));
                assert(occurs_at(t, q, k + 1));
            }
        }
        lemma_replace_all_keeps_absent(t1, p, r, q);
        assert forall|k: int| !occurs_at(big, q, k) by {
            if occurs_at(big, q, k) {
                if k == 0 {
                    assert forall|i: int| 0 <= i < q.len() - 1 implies x.subrange(0, q.len() - 1)[i]
                        == q.skip(1)[i] by {
                        assert(big[i + 1] == x[i]);
                        assert(big.subrange(0, q.len() as int)[i + 1] == big[i + 1]);
                    }
                    assert(x.subrange(0, q.skip(1).len() as int) =~= q.skip(1));
                    lemma_prefix_back_other(t1, p, r, q, 1);
                    assert forall|i: int| 0 <= i < q.len() implies t.subrange(0, q.len() as int)[i]
                        == q[i] by {
                        if i > 0 {
                            assert(t1.subrange(0, q.len() - 1)[i - 1] == q.skip(1)[i - 1]);
                        } else {
                            assert(big[0] == t[0]);
                            assert(big.subrange(0, q.len() as int)[0] == big[0]);
                        }
                    }
                    assert(t.subrange(0, q.len() as int) =~= q);
                    assert(occurs_at(t, q, 0));
                } else {
                    assert forall|i: int| 0 <= i < q.len() implies x.subrange(
                        k - 1,
                        k - 1 + q.len(),
                    )[i] == q[i] by {
                        assert(big[k + i] == x[k - 1 + i]);
                        assert(big.subrange(k, k + q.len())[i] == big[k + i]);
                    }
                    assert(x.subrange(k - 1, k - 1 + q.len()) =~= q);
                    assert(occurs_at(x, q, k - 1));
                }
            }
        }
    }
}

} // verus!
