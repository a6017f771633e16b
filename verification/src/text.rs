//! Order and prefixes of text.

use vstd::prelude::*;
use vstd::string::StrSliceExecFns;

verus! {

/// `i` is the first position at which the texts differ or one of them ends.
pub open spec fn splits_at(a: Seq<char>, b: Seq<char>, i: int) -> bool {
    &&& 0 <= i <= a.len()
    &&& i <= b.len()
    &&& forall|k: int| 0 <= k < i ==> #[trigger] a[k] == b[k]
    &&& (i == a.len() || i == b.len() || a[i] != b[i])
}

/// Lexicographic order by code points: `a` comes before `b`.
pub open spec fn text_lt(a: Seq<char>, b: Seq<char>) -> bool {
    exists|i: int| #[trigger]
        splits_at(a, b, i) && i < b.len() && (i == a.len() || (a[i] as int) < (b[i] as int))
}

/// `p` is a prefix of `s`.
pub open spec fn has_prefix(s: Seq<char>, p: Seq<char>) -> bool {
    p.len() <= s.len() && s.take(p.len() as int) == p
}

/// Texts split at one position only.
proof fn lemma_split_is_unique(a: Seq<char>, b: Seq<char>, i: int, j: int)
    requires
        splits_at(a, b, i),
        splits_at(a, b, j),
    ensures
        i == j,
{
    if i < j {
        assert(a[i] == b[i]);
    } else if j < i {
        assert(a[j] == b[j]);
    }
}

/// Texts split somewhere.
proof fn lemma_split_exists(a: Seq<char>, b: Seq<char>, from: int) -> (i: int)
    requires
        0 <= from <= a.len(),
        from <= b.len(),
        forall|k: int| 0 <= k < from ==> #[trigger] a[k] == b[k],
    ensures
        splits_at(a, b, i),
    decreases a.len() - from,
{
    if from == a.len() || from == b.len() || a[from] != b[from] {
        from
    } else {
        lemma_split_exists(a, b, from + 1)
    }
}

/// No text comes before itself.
pub proof fn text_lt_irreflexive(a: Seq<char>)
    ensures
        !text_lt(a, a),
{
    if text_lt(a, a) {
        let i = choose|i: int| #[trigger]
            splits_at(a, a, i) && i < a.len() && (i == a.len() || (a[i] as int) < (a[i] as int));
    }
}

/// Of two different texts one comes before the other.
pub proof fn text_lt_total(a: Seq<char>, b: Seq<char>)
    ensures
        a == b || text_lt(a, b) || text_lt(b, a),
{
    let i = lemma_split_exists(a, b, 0);
    assert(splits_at(b, a, i)) by {
        assert forall|k: int| 0 <= k < i implies #[trigger] b[k] == a[k] by {
            assert(a[k] == b[k]);
        }
    }
    if i < a.len() && i < b.len() {
        assert(a[i] as int != b[i] as int);
    } else if i == a.len() && i == b.len() {
        assert(a =~= b);
    }
}

/// The order is transitive.
pub proof fn text_lt_transitive(a: Seq<char>, b: Seq<char>, c: Seq<char>)
    requires
        text_lt(a, b),
        text_lt(b, c),
    ensures
        text_lt(a, c),
{
    let i = choose|i: int| #[trigger]
        splits_at(a, b, i) && i < b.len() && (i == a.len() || (a[i] as int) < (b[i] as int));
    let j = choose|j: int| #[trigger]
        splits_at(b, c, j) && j < c.len() && (j == b.len() || (b[j] as int) < (c[j] as int));
    let k = if i < j {
        i
    } else {
        j
    };
    assert forall|x: int| 0 <= x < k implies #[trigger] a[x] == c[x] by {
        assert(a[x] == b[x]);
        assert(b[x] == c[x]);
    }
    if i < j {
        assert(b[i] == c[i]);
    } else if j < i {
        assert(a[j] == b[j]);
    }
    assert(splits_at(a, c, k));
}

/// Whether `a` comes before `b`.
pub fn text_less(a: &str, b: &str) -> (r: bool)
    ensures
        r == text_lt(a@, b@),
{
    let n: usize = a.unicode_len();
    let m: usize = b.unicode_len();
    let mut i: usize = 0;
    while i < n && i < m && a.get_char(i) == b.get_char(i)
        invariant
            n == a@.len(),
            m == b@.len(),
            i <= n,
            i <= m,
            forall|k: int| 0 <= k < i ==> #[trigger] a@[k] == b@[k],
        decreases n - i,
    {
        i += 1;
    }
    assert(splits_at(a@, b@, i as int));
    let r: bool = if i == m {
        false
    } else if i == n {
        true
    } else {
        (a.get_char(i) as u32) < (b.get_char(i) as u32)
    };
    proof {
        if text_lt(a@, b@) {
            let j = choose|j: int| #[trigger]
                splits_at(a@, b@, j) && j < b@.len() && (j == a@.len() || (a@[j] as int) < (b@[j] as
                int));
            lemma_split_is_unique(a@, b@, i as int, j);
        }
    }
    r
}

/// Whether two texts are equal.
pub fn text_equal(a: &str, b: &str) -> (r: bool)
    ensures
        r == (a@ == b@),
{
    let n: usize = a.unicode_len();
    let m: usize = b.unicode_len();
    if n != m {
        return false;
    }
    let mut i: usize = 0;
    while i < n
        invariant
            n == a@.len(),
            n == b@.len(),
            i <= n,
            forall|k: int| 0 <= k < i ==> #[trigger] a@[k] == b@[k],
        decreases n - i,
    {
        if a.get_char(i) != b.get_char(i) {
            assert(a@[i as int] != b@[i as int]);
            return false;
        }
        i += 1;
    }
    assert(a@ =~= b@);
    true
}

/// Whether `s` begins with `prefix`.
pub fn starts_with(s: &str, prefix: &str) -> (r: bool)
    ensures
        r == has_prefix(s@, prefix@),
{
    let n: usize = s.unicode_len();
    let m: usize = prefix.unicode_len();
    if m > n {
        return false;
    }
    let mut i: usize = 0;
    while i < m
        invariant
            n == s@.len(),
            m == prefix@.len(),
            i <= m <= n,
            forall|k: int| 0 <= k < i ==> #[trigger] s@[k] == prefix@[k],
        decreases m - i,
    {
        if s.get_char(i) != prefix.get_char(i) {
            assert(s@.take(m as int)[i as int] != prefix@[i as int]);
            return false;
        }
        i += 1;
    }
    assert(s@.take(m as int) =~= prefix@);
    true
}

/// A text has a prefix exactly if it is the prefix and something after it.
pub proof fn prefix_and_rest_make_the_text(s: Seq<char>, p: Seq<char>, rest: Seq<char>)
    ensures
        has_prefix(p + rest, p),
        has_prefix(s, p) ==> s == p + s.subrange(p.len() as int, s.len() as int),
{
    assert((p + rest).take(p.len() as int) =~= p);
    if has_prefix(s, p) {
        assert(s.take(p.len() as int) + s.subrange(p.len() as int, s.len() as int) =~= s);
    }
}

/// Texts are ordered by the first character in which they differ, and a text comes before
/// every longer one that starts with it.
pub proof fn first_difference_decides(
    p: Seq<char>,
    a: char,
    b: char,
    x: Seq<char>,
    y: Seq<char>,
)
    ensures
        (a as int) < (b as int) ==> text_lt(p.push(a) + x, p.push(b) + y),
        (a as int) > (b as int) ==> !text_lt(p.push(a) + x, p.push(b) + y),
        text_lt(p, p.push(a) + x),
        !text_lt(p.push(a) + x, p),
{
    let n = p.len() as int;
    let s = p.push(a) + x;
    let t = p.push(b) + y;
    assert(s[n] == a && t[n] == b);
    if a as int != b as int {
        assert(splits_at(s, t, n));
        if text_lt(s, t) {
            let i = choose|i: int| #[trigger]
                splits_at(s, t, i) && i < t.len() && (i == s.len() || (s[i] as int) < (t[i] as int));
            lemma_split_is_unique(s, t, i, n);
        }
    }
    assert(splits_at(p, s, n));
    if text_lt(s, p) {
        let i = choose|i: int| #[trigger]
            splits_at(s, p, i) && i < p.len() && (i == s.len() || (s[i] as int) < (p[i] as int));
        assert(splits_at(s, p, n));
        lemma_split_is_unique(s, p, i, n);
    }
}

} // verus!
