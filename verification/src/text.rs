//! Character-level string helpers shared by the library.

use vstd::prelude::*;
use vstd::string::*;

verus! {

/// Appends one character to `s`, through std's `String::push`.
///
/// Trusted: the contract claims that `String::push` extends the string's
/// character sequence by exactly `c`, as std documents.
#[verifier::external_body]
pub(crate) fn push_char(s: &mut String, c: char)
    ensures
        final(s)@ == old(s)@.push(c),
{
    s.push(c);
}

/// The characters of `s`, in order.
pub fn chars_of(s: &str) -> (out: Vec<char>)
    ensures
        out@ == s@,
{
    let n = s.unicode_len();
    let mut out: Vec<char> = Vec::new();
    let mut i: usize = 0;
    while i < n
        invariant
            n == s@.len(),
            i <= n,
            out@ == s@.subrange(0, i as int),
        decreases n - i,
    {
        let c = s.get_char(i);
        out.push(c);
        i = i + 1;
    }
    assert(out@ =~= s@);
    out
}

/// Character-wise string equality.
pub fn str_eq(a: &str, b: &str) -> (r: bool)
    ensures
        r == (a@ == b@),
{
    let n = a.unicode_len();
    let m = b.unicode_len();
    if n != m {
        return false;
    }
    let mut i: usize = 0;
    while i < n
        invariant
            n == a@.len(),
            m == b@.len(),
            n == m,
            i <= n,
            forall|j: int| 0 <= j < i ==> a@[j] == b@[j],
        decreases n - i,
    {
        if a.get_char(i) != b.get_char(i) {
            return false;
        }
        i = i + 1;
    }
    assert(a@ =~= b@);
    true
}

/// Appends the characters of `s` to `out`.
pub fn append_str(out: &mut String, s: &str)
    ensures
        final(out)@ == old(out)@ + s@,
{
    let n = s.unicode_len();
    let mut i: usize = 0;
    let ghost start = out@;
    while i < n
        invariant
            n == s@.len(),
            i <= n,
            out@ == start + s@.subrange(0, i as int),
        decreases n - i,
    {
        push_char(out, s.get_char(i));
        assert(s@.subrange(0, i as int).push(s@[i as int]) =~= s@.subrange(0, i + 1));
        i = i + 1;
    }
    assert(s@.subrange(0, n as int) =~= s@);
}

/// The decimal digit character for `d < 10`.
pub open spec fn digit_char(d: nat) -> char {
    (48 + d) as char
}

/// Decimal text of `n`, without leading zeros.
pub open spec fn decimal(n: nat) -> Seq<char>
    decreases n,
{
    if n < 10 {
        seq![digit_char(n)]
    } else {
        decimal(n / 10).push(digit_char(n % 10))
    }
}

/// Appends the decimal text of `n` to `out`.
pub fn push_decimal(out: &mut String, n: u32)
    ensures
        final(out)@ == old(out)@ + decimal(n as nat),
    decreases n,
{
    if n >= 10 {
        push_decimal(out, n / 10);
    }
    let d = (n % 10) as u8;
    push_char(out, (48u8 + d) as char);
    assert(final(out)@ =~= old(out)@ + decimal(n as nat)) by {
        if n >= 10 {
            assert(decimal(n as nat) == decimal((n / 10) as nat).push(digit_char((n % 10) as nat)));
        }
    };
}

/// A copy of a string literal (or any `&str`) as a `String`.
pub fn owned(s: &str) -> (out: String)
    ensures
        out@ == s@,
{
    let mut out = String::new();
    append_str(&mut out, s);
    assert(out@ =~= s@);
    out
}

/// Lexicographic order of character sequences by code point: `-1`, `0` or `1`.
///
/// Code-point order on characters is the order std gives `str` (byte-wise
/// UTF-8 comparison preserves code-point order).
pub open spec fn lex_order(a: Seq<char>, b: Seq<char>) -> int
    decreases a.len(),
{
    if a.len() == 0 {
        if b.len() == 0 { 0 } else { -1 }
    } else if b.len() == 0 {
        1
    } else if (a[0] as int) < (b[0] as int) {
        -1
    } else if (a[0] as int) > (b[0] as int) {
        1
    } else {
        lex_order(a.drop_first(), b.drop_first())
    }
}

/// `lex_order` is `-1`, `0` or `1`, and `0` exactly on equal sequences.
pub proof fn lemma_lex_eq(a: Seq<char>, b: Seq<char>)
    ensures
        -1 <= lex_order(a, b) <= 1,
        (lex_order(a, b) == 0) == (a == b),
    decreases a.len(),
{
    if a.len() > 0 && b.len() > 0 && (a[0] as int) == (b[0] as int) {
        lemma_lex_eq(a.drop_first(), b.drop_first());
        assert(a[0] == b[0]);
        if a.drop_first() == b.drop_first() {
            assert forall|i: int| 0 <= i < a.len() implies a[i] == b[i] by {
                if i > 0 {
                    assert(a[i] == a.drop_first()[i - 1]);
                    assert(b[i] == b.drop_first()[i - 1]);
                }
            }
            assert(a =~= b);
        }
        if a == b {
            assert(a.drop_first() =~= b.drop_first());
        }
    } else if a.len() == 0 && b.len() == 0 {
        assert(a =~= b);
    }
}

/// Swapping the arguments negates `lex_order`.
pub proof fn lemma_lex_antisym(a: Seq<char>, b: Seq<char>)
    ensures
        lex_order(a, b) == -lex_order(b, a),
    decreases a.len(),
{
    if a.len() > 0 && b.len() > 0 && (a[0] as int) == (b[0] as int) {
        lemma_lex_antisym(a.drop_first(), b.drop_first());
    }
}

/// `lex_order` is transitive.
pub proof fn lemma_lex_trans(a: Seq<char>, b: Seq<char>, c: Seq<char>)
    requires
        lex_order(a, b) <= 0,
        lex_order(b, c) <= 0,
    ensures
        lex_order(a, c) <= 0,
        lex_order(a, b) < 0 ==> lex_order(a, c) < 0,
        lex_order(b, c) < 0 ==> lex_order(a, c) < 0,
    decreases a.len(),
{
    if a.len() > 0 && b.len() > 0 && c.len() > 0 && (a[0] as int) == (b[0] as int) && (b[0] as int) == (c[0] as int) {
        lemma_lex_trans(a.drop_first(), b.drop_first(), c.drop_first());
    }
}

/// Three-way lexicographic comparison of two strings.
pub fn str_order(a: &str, b: &str) -> (r: i8)
    ensures
        r as int == lex_order(a@, b@),
{
    let n = a.unicode_len();
    let m = b.unicode_len();
    let mut i: usize = 0;
    assert(a@.skip(0) =~= a@);
    assert(b@.skip(0) =~= b@);
    while i < n && i < m
        invariant
            n == a@.len(),
            m == b@.len(),
            i <= n,
            i <= m,
            lex_order(a@, b@) == lex_order(a@.skip(i as int), b@.skip(i as int)),
        decreases n - i,
    {
        let x = a.get_char(i);
        let y = b.get_char(i);
        assert(a@.skip(i as int)[0] == x);
        assert(b@.skip(i as int)[0] == y);
        if (x as u32) < (y as u32) {
            return -1;
        }
        if (x as u32) > (y as u32) {
            return 1;
        }
        assert(a@.skip(i as int).drop_first() =~= a@.skip(i + 1));
        assert(b@.skip(i as int).drop_first() =~= b@.skip(i + 1));
        i = i + 1;
    }
    if i == n {
        if i == m { 0 } else { -1 }
    } else {
        1
    }
}

/// The character sequences of a list of strings.
pub open spec fn views(v: Seq<String>) -> Seq<Seq<char>> {
    v.map_values(|s: String| s@)
}

/// Strictly increasing in [`lex_order`]: sorted, with no repeats.
pub open spec fn strictly_sorted(s: Seq<Seq<char>>) -> bool {
    forall|i: int, j: int| 0 <= i < j < s.len() ==> lex_order(s[i], s[j]) < 0
}

/// Adds `x` to a strictly sorted list of strings unless it is already there,
/// keeping the list strictly sorted.
pub fn insert_unique(v: &mut Vec<String>, x: String)
    requires
        strictly_sorted(views(old(v)@)),
    ensures
        strictly_sorted(views(final(v)@)),
        forall|t: Seq<char>| #[trigger] views(final(v)@).contains(t) <==> (views(old(v)@).contains(t) || t == x@),
{
    let ghost w = views(v@);
    let mut pos: usize = 0;
    while pos < v.len() && str_order(v[pos].as_str(), x.as_str()) < 0
        invariant
            pos <= v@.len(),
            w == views(v@),
            forall|k: int| 0 <= k < pos ==> lex_order(#[trigger] w[k], x@) < 0,
        decreases v@.len() - pos,
    {
        pos = pos + 1;
    }
    if pos < v.len() && str_order(v[pos].as_str(), x.as_str()) == 0 {
        proof {
            lemma_lex_eq(w[pos as int], x@);
            assert(w[pos as int] == x@);
            assert forall|t: Seq<char>| #[trigger] views(v@).contains(t) <==> (w.contains(t) || t == x@) by {
                if t == x@ {
                    assert(w[pos as int] == t);
                }
            }
        }
        return;
    }
    let ghost xv = x@;
    proof {
        if pos < v@.len() {
            lemma_lex_eq(w[pos as int], xv);
            lemma_lex_antisym(w[pos as int], xv);
            assert(lex_order(xv, w[pos as int]) < 0);
        }
    }
    v.insert(pos, x);
    let ghost nw = views(v@);
    assert(nw =~= w.insert(pos as int, xv));
    proof {
        assert forall|i: int, j: int| 0 <= i < j < nw.len() implies lex_order(nw[i], nw[j]) < 0 by {
            if j < pos {
            } else if j == pos {
            } else if i < pos {
                assert(nw[j] == w[j - 1]);
                if j - 1 > pos {
                    lemma_lex_trans(xv, w[pos as int], w[j - 1]);
                }
                lemma_lex_trans(w[i], xv, w[j - 1]);
            } else if i == pos {
                assert(nw[j] == w[j - 1]);
                if j - 1 > pos {
                    lemma_lex_trans(xv, w[pos as int], w[j - 1]);
                }
            } else {
                assert(nw[i] == w[i - 1] && nw[j] == w[j - 1]);
            }
        }
        assert forall|t: Seq<char>| #[trigger] nw.contains(t) <==> (w.contains(t) || t == xv) by {
            if nw.contains(t) {
                let k = choose|k: int| 0 <= k < nw.len() && nw[k] == t;
                if k < pos {
                    assert(w[k] == t);
                } else if k > pos {
                    assert(w[k - 1] == t);
                }
            }
            if w.contains(t) {
                let k = choose|k: int| 0 <= k < w.len() && w[k] == t;
                if k < pos {
                    assert(nw[k] == t);
                } else {
                    assert(nw[k + 1] == t);
                }
            }
            if t == xv {
                assert(nw[pos as int] == t);
            }
        }
    }
}

/// `parts` joined with `sep` between neighbours.
pub open spec fn join_sep(parts: Seq<Seq<char>>, sep: Seq<char>) -> Seq<char>
    decreases parts.len(),
{
    if parts.len() == 0 {
        seq![]
    } else if parts.len() == 1 {
        parts[0]
    } else {
        join_sep(parts.drop_last(), sep) + sep + parts.last()
    }
}

/// Appends `parts` joined with `sep` to `out`.
pub fn push_joined(out: &mut String, parts: &Vec<String>, sep: &str)
    ensures
        final(out)@ == old(out)@ + join_sep(views(parts@), sep@),
{
    let ghost start = out@;
    let mut i: usize = 0;
    while i < parts.len()
        invariant
            i <= parts@.len(),
            out@ == start + join_sep(views(parts@.subrange(0, i as int)), sep@),
        decreases parts@.len() - i,
    {
        let ghost pre = views(parts@.subrange(0, i as int));
        let ghost nxt = views(parts@.subrange(0, i + 1));
        assert(nxt.drop_last() =~= pre);
        assert(nxt.last() == parts@[i as int]@);
        if i > 0 {
            append_str(out, sep);
        }
        append_str(out, parts[i].as_str());
        proof {
            if i == 0 {
                assert(pre.len() == 0);
                assert(join_sep(pre, sep@) =~= Seq::<char>::empty());
                assert(nxt.len() == 1);
            }
            assert(out@ =~= start + join_sep(nxt, sep@));
        }
        i = i + 1;
    }
    assert(parts@.subrange(0, parts@.len() as int) =~= parts@);
}

} // verus!
