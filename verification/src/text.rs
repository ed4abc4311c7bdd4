//! Text predicates on strings, stated over their sequences of Unicode scalar values.
//!
//! Rust orders `String`s by their UTF-8 bytes; since UTF-8 preserves the order of
//! scalar values, that is the lexicographic order on characters used here.
use vstd::prelude::*;

verus! {

/// The numeric value of a character, by which characters are ordered.
pub open spec fn char_code(c: char) -> int {
    c as int
}

/// Strict lexicographic order on character sequences: at the first position where the
/// two differ the left character is smaller, or the left sequence is a proper prefix
/// of the right one.
pub open spec fn lex_lt(a: Seq<char>, b: Seq<char>) -> bool {
    exists|k: int|
        #![trigger a.take(k), b.take(k)]
        0 <= k <= a.len() && k <= b.len() && a.take(k) == b.take(k) && {
            ||| k == a.len() && k < b.len()
            ||| k < a.len() && k < b.len() && char_code(a[k]) < char_code(b[k])
        }
}

/// `p` is a prefix of `s`.
pub open spec fn starts_with(s: Seq<char>, p: Seq<char>) -> bool {
    p.len() <= s.len() && s.take(p.len() as int) == p
}

/// `p` is a suffix of `s`.
pub open spec fn ends_with(s: Seq<char>, p: Seq<char>) -> bool {
    p.len() <= s.len() && s.skip(s.len() - p.len()) == p
}

/// `p` occurs in `s` as a contiguous run of characters.
pub open spec fn contains(s: Seq<char>, p: Seq<char>) -> bool {
    exists|i: int| 0 <= i && i + p.len() <= s.len() && #[trigger] s.subrange(i, i + p.len()) == p
}

/// The characters of `s`, in order.
pub fn chars_of(s: &str) -> (v: Vec<char>)
    ensures
        v@ == s@,
{
    let mut v: Vec<char> = Vec::new();
    for c in it: s.chars()
        invariant
            v@ == it.seq().take(it.index() as int),
    {
        v.push(c);
    }
    v
}

/// Whether `a` and `b` hold the same characters.
pub fn text_equals(a: &str, b: &str) -> (r: bool)
    ensures
        r == (a@ == b@),
{
    let x = chars_of(a);
    let y = chars_of(b);
    if x.len() != y.len() {
        return false;
    }
    let mut i: usize = 0;
    while i < x.len()
        invariant
            x@ == a@,
            y@ == b@,
            x.len() == y.len(),
            i <= x.len(),
            forall|j: int| 0 <= j < i ==> x@[j] == y@[j],
        decreases x.len() - i,
    {
        if x[i] != y[i] {
            return false;
        }
        i = i + 1;
    }
    assert(x@ =~= y@);
    true
}

/// Whether `x` comes strictly before `y` in lexicographic order.
fn chars_lt(x: &Vec<char>, y: &Vec<char>) -> (r: bool)
    ensures
        r == lex_lt(x@, y@),
{
    let mut i: usize = 0;
    while i < x.len() && i < y.len() && x[i] == y[i]
        invariant
            i <= x.len(),
            i <= y.len(),
            forall|j: int| 0 <= j < i ==> x@[j] == y@[j],
        decreases x.len() - i,
    {
        i = i + 1;
    }
    assert(x@.take(i as int) =~= y@.take(i as int));
    let r = if i < x.len() && i < y.len() {
        x[i] < y[i]
    } else {
        i == x.len() && i < y.len()
    };
    proof {
        if r {
            assert(x@.take(i as int) == y@.take(i as int));
        } else {
            assert forall|k: int|
                0 <= k <= x@.len() && k <= y@.len() && x@.take(k) == y@.take(k) implies !({
                    ||| k == x@.len() && k < y@.len()
                    ||| k < x@.len() && k < y@.len() && char_code(x@[k]) < char_code(y@[k])
                }) by {
                if k < i {
                    assert(x@[k] == y@[k]);
                } else if k > i {
                    assert(x@.take(k)[i as int] == x@[i as int]);
                    assert(y@.take(k)[i as int] == y@[i as int]);
                }
            }
        }
    }
    r
}

/// Whether `a` comes strictly before `b`, as Rust's `<` on strings decides.
pub fn text_lt(a: &str, b: &str) -> (r: bool)
    ensures
        r == lex_lt(a@, b@),
{
    let x = chars_of(a);
    let y = chars_of(b);
    chars_lt(&x, &y)
}

/// Whether `p` is a prefix of `s`.
pub fn text_starts_with(s: &str, p: &str) -> (r: bool)
    ensures
        r == starts_with(s@, p@),
{
    let x = chars_of(s);
    let y = chars_of(p);
    if y.len() > x.len() {
        return false;
    }
    let mut i: usize = 0;
    while i < y.len()
        invariant
            x@ == s@,
            y@ == p@,
            y.len() <= x.len(),
            i <= y.len(),
            forall|j: int| 0 <= j < i ==> x@[j] == y@[j],
        decreases y.len() - i,
    {
        if x[i] != y[i] {
            assert(x@.take(y@.len() as int)[i as int] != y@[i as int]);
            return false;
        }
        i = i + 1;
    }
    assert(x@.take(y@.len() as int) =~= y@);
    true
}

/// Whether `p` is a suffix of `s`.
pub fn text_ends_with(s: &str, p: &str) -> (r: bool)
    ensures
        r == ends_with(s@, p@),
{
    let x = chars_of(s);
    let y = chars_of(p);
    if y.len() > x.len() {
        return false;
    }
    let off = x.len() - y.len();
    let mut i: usize = 0;
    while i < y.len()
        invariant
            x@ == s@,
            y@ == p@,
            y.len() <= x.len(),
            off == x.len() - y.len(),
            i <= y.len(),
            forall|j: int| 0 <= j < i ==> x@[off + j] == y@[j],
        decreases y.len() - i,
    {
        if x[off + i] != y[i] {
            assert(x@.skip(off as int)[i as int] != y@[i as int]);
            return false;
        }
        i = i + 1;
    }
    assert(x@.skip(off as int) =~= y@);
    true
}

/// Whether `y` matches `x` at position `at`.
fn matches_at(x: &Vec<char>, y: &Vec<char>, at: usize) -> (r: bool)
    requires
        at + y.len() <= x.len(),
    ensures
        r == (x@.subrange(at as int, at + y.len()) == y@),
{
    let mut i: usize = 0;
    while i < y.len()
        invariant
            at + y.len() <= x.len(),
            i <= y.len(),
            forall|j: int| 0 <= j < i ==> x@[at + j] == y@[j],
        decreases y.len() - i,
    {
        if x[at + i] != y[i] {
            assert(x@.subrange(at as int, at + y.len())[i as int] == x@[at + i]);
            return false;
        }
        i = i + 1;
    }
    assert(x@.subrange(at as int, at + y.len()) =~= y@);
    true
}

/// Whether `p` occurs in `s`.
pub fn text_contains(s: &str, p: &str) -> (r: bool)
    ensures
        r == contains(s@, p@),
{
    let x = chars_of(s);
    let y = chars_of(p);
    if y.len() > x.len() {
        return false;
    }
    let last = x.len() - y.len();
    let mut at: usize = 0;
    loop
        invariant
            y.len() <= x.len(),
            last == x.len() - y.len(),
            at <= last,
            x@ == s@,
            y@ == p@,
            forall|i: int| 0 <= i < at ==> #[trigger] x@.subrange(i, i + y@.len()) != y@,
        decreases last - at,
    {
        if matches_at(&x, &y, at) {
            return true;
        }
        if at == last {
            assert forall|i: int| 0 <= i && i + p@.len() <= s@.len() implies #[trigger] s@.subrange(
                i,
                i + p@.len(),
            ) != p@ by {
                assert(i <= at);
            }
            return false;
        }
        at = at + 1;
    }
}

/// The strict order is irreflexive.
pub proof fn lemma_lex_lt_irreflexive(a: Seq<char>)
    ensures
        !lex_lt(a, a),
{
}

/// Two sequences that agree on their first `k` positions agree on every shorter prefix.
proof fn lemma_take_agree(a: Seq<char>, b: Seq<char>, k: int, j: int)
    requires
        0 <= j <= k <= a.len(),
        k <= b.len(),
        a.take(k) == b.take(k),
    ensures
        a.take(j) == b.take(j),
        forall|i: int| 0 <= i < k ==> a[i] == b[i],
{
    assert forall|i: int| 0 <= i < k implies a[i] == b[i] by {
        assert(a.take(k)[i] == a[i]);
        assert(b.take(k)[i] == b[i]);
    }
    assert(a.take(j) =~= b.take(j));
}

/// The length of the longest common prefix of `a` and `b`.
spec fn common_prefix_len(a: Seq<char>, b: Seq<char>) -> int
    decreases a.len(),
{
    if a.len() == 0 || b.len() == 0 || a[0] != b[0] {
        0
    } else {
        1 + common_prefix_len(a.drop_first(), b.drop_first())
    }
}

proof fn lemma_common_prefix_len(a: Seq<char>, b: Seq<char>)
    ensures
        0 <= common_prefix_len(a, b) <= a.len(),
        common_prefix_len(a, b) <= b.len(),
        a.take(common_prefix_len(a, b)) == b.take(common_prefix_len(a, b)),
        common_prefix_len(a, b) < a.len() && common_prefix_len(a, b) < b.len() ==> a[common_prefix_len(
            a,
            b,
        )] != b[common_prefix_len(a, b)],
    decreases a.len(),
{
    if a.len() == 0 || b.len() == 0 || a[0] != b[0] {
        assert(a.take(0) =~= b.take(0));
    } else {
        let (a1, b1) = (a.drop_first(), b.drop_first());
        lemma_common_prefix_len(a1, b1);
        let k = common_prefix_len(a1, b1);
        assert forall|i: int| 0 <= i < k + 1 implies #[trigger] a.take(k + 1)[i] == b.take(k + 1)[i] by {
            if i > 0 {
                assert(a1.take(k)[i - 1] == b1.take(k)[i - 1]);
            }
        }
        assert(a.take(k + 1) =~= b.take(k + 1));
        if k < a1.len() && k < b1.len() {
            assert(a[k + 1] == a1[k]);
            assert(b[k + 1] == b1[k]);
        }
    }
}

/// The strict order is total: distinct sequences are ordered one way or the other.
pub proof fn lemma_lex_lt_total(a: Seq<char>, b: Seq<char>)
    ensures
        a == b || lex_lt(a, b) || lex_lt(b, a),
{
    lemma_common_prefix_len(a, b);
    let k = common_prefix_len(a, b);
    if k == a.len() && k == b.len() {
        assert(a =~= a.take(k));
        assert(b =~= b.take(k));
    } else if k == a.len() {
        assert(a.take(k) == b.take(k));
    } else if k == b.len() {
        assert(b.take(k) == a.take(k));
    } else if char_code(a[k]) < char_code(b[k]) {
        assert(a.take(k) == b.take(k));
    } else {
        assert(b.take(k) == a.take(k));
    }
}

/// The strict order is asymmetric.
pub proof fn lemma_lex_lt_asymmetric(a: Seq<char>, b: Seq<char>)
    ensures
        !(lex_lt(a, b) && lex_lt(b, a)),
{
    if lex_lt(a, b) && lex_lt(b, a) {
        let k1 = choose|k: int|
            #![trigger a.take(k), b.take(k)]
            0 <= k <= a.len() && k <= b.len() && a.take(k) == b.take(k) && {
                ||| k == a.len() && k < b.len()
                ||| k < a.len() && k < b.len() && char_code(a[k]) < char_code(b[k])
            };
        let k2 = choose|k: int|
            #![trigger b.take(k), a.take(k)]
            0 <= k <= b.len() && k <= a.len() && b.take(k) == a.take(k) && {
                ||| k == b.len() && k < a.len()
                ||| k < b.len() && k < a.len() && char_code(b[k]) < char_code(a[k])
            };
        if k1 < k2 {
            lemma_take_agree(a, b, k2, k1);
        } else if k2 < k1 {
            lemma_take_agree(a, b, k1, k2);
        }
    }
}

/// The strict order is transitive.
pub proof fn lemma_lex_lt_transitive(a: Seq<char>, b: Seq<char>, c: Seq<char>)
    requires
        lex_lt(a, b),
        lex_lt(b, c),
    ensures
        lex_lt(a, c),
{
    let k1 = choose|k: int|
        #![trigger a.take(k), b.take(k)]
        0 <= k <= a.len() && k <= b.len() && a.take(k) == b.take(k) && {
            ||| k == a.len() && k < b.len()
            ||| k < a.len() && k < b.len() && char_code(a[k]) < char_code(b[k])
        };
    let k2 = choose|k: int|
        #![trigger b.take(k), c.take(k)]
        0 <= k <= b.len() && k <= c.len() && b.take(k) == c.take(k) && {
            ||| k == b.len() && k < c.len()
            ||| k < b.len() && k < c.len() && char_code(b[k]) < char_code(c[k])
        };
    let k = if k1 < k2 {
        k1
    } else {
        k2
    };
    lemma_take_agree(a, b, k1, k);
    lemma_take_agree(b, c, k2, k);
    assert(a.take(k) =~= c.take(k));
    if k1 < k2 {
        assert(b[k1] == c[k1]);
    } else if k2 < k1 {
        assert(a[k2] == b[k2]);
    }
}

} // verus!
