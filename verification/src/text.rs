//! Character-level string helpers with exact specifications.

use vstd::prelude::*;

verus! {

/// Appends one character to an owned string.
///
/// Calls `String::push`; the contract claims what its documentation states:
/// the character is appended at the end and nothing else changes.
#[verifier::external_body]
pub(crate) fn push_char(s: &mut String, c: char)
    ensures
        final(s)@ == old(s)@.push(c),
{
    s.push(c);
}

/// Returns the characters of `s` in order.
pub fn chars_of(s: &str) -> (r: Vec<char>)
    ensures
        r@ == s@,
{
    let n = s.unicode_len();
    let mut r: Vec<char> = Vec::new();
    let mut i: usize = 0;
    while i < n
        invariant
            n == s@.len(),
            i <= n,
            r@ == s@.subrange(0, i as int),
        decreases n - i,
    {
        r.push(s.get_char(i));
        i = i + 1;
    }
    assert(r@ == s@);
    r
}

/// Builds an owned string from a character sequence.
pub fn string_of_chars(v: &[char]) -> (r: String)
    ensures
        r@ == v@,
{
    let mut r = String::new();
    let mut i: usize = 0;
    while i < v.len()
        invariant
            i <= v@.len(),
            r@ == v@.subrange(0, i as int),
        decreases v@.len() - i,
    {
        push_char(&mut r, v[i]);
        assert(v@.subrange(0, i + 1) == v@.subrange(0, i as int).push(v@[i as int]));
        i = i + 1;
    }
    assert(v@.subrange(0, v@.len() as int) == v@);
    r
}

/// Character-wise equality of two strings.
pub fn str_eq(a: &str, b: &str) -> (r: bool)
    ensures
        r == (a@ == b@),
{
    let x = chars_of(a);
    let y = chars_of(b);
    if x.len() != y.len() {
        return false;
    }
    let mut i: usize = 0;
    while i < x.len()
        invariant
            x@ == a@,
            y@ == b@,
            x@.len() == y@.len(),
            i <= x@.len(),
            forall|j: int| 0 <= j < i ==> x@[j] == y@[j],
        decreases x@.len() - i,
    {
        if x[i] != y[i] {
            return false;
        }
        i = i + 1;
    }
    assert(x@ =~= y@);
    true
}


/// Strict lexicographic order of character sequences, comparing characters
/// by code point. On valid text this is the order of `String`'s `Ord`, since
/// UTF-8 preserves code point order byte-wise.
pub open spec fn seq_lt(a: Seq<char>, b: Seq<char>) -> bool
    decreases a.len(),
{
    if a.len() == 0 {
        b.len() > 0
    } else if b.len() == 0 {
        false
    } else if a[0] != b[0] {
        (a[0] as u32) < (b[0] as u32)
    } else {
        seq_lt(a.drop_first(), b.drop_first())
    }
}

pub proof fn lemma_seq_lt_irreflexive(a: Seq<char>)
    ensures
        !seq_lt(a, a),
    decreases a.len(),
{
    if a.len() > 0 {
        lemma_seq_lt_irreflexive(a.drop_first());
    }
}

pub proof fn lemma_seq_lt_transitive(a: Seq<char>, b: Seq<char>, c: Seq<char>)
    requires
        seq_lt(a, b),
        seq_lt(b, c),
    ensures
        seq_lt(a, c),
    decreases a.len(),
{
    if a.len() > 0 && b.len() > 0 && c.len() > 0 && a[0] == b[0] && b[0] == c[0] {
        lemma_seq_lt_transitive(a.drop_first(), b.drop_first(), c.drop_first());
    }
}

pub proof fn lemma_seq_lt_total(a: Seq<char>, b: Seq<char>)
    requires
        a != b,
    ensures
        seq_lt(a, b) || seq_lt(b, a),
    decreases a.len(),
{
    if a.len() > 0 && b.len() > 0 {
        if a[0] == b[0] {
            if a.drop_first() == b.drop_first() {
                assert(a =~= seq![a[0]] + a.drop_first());
                assert(b =~= seq![b[0]] + b.drop_first());
            }
            lemma_seq_lt_total(a.drop_first(), b.drop_first());
        } else {
            vstd::utf8::char_u32_cast(a[0], a[0] as u32);
            vstd::utf8::char_u32_cast(b[0], b[0] as u32);
        }
    } else if a.len() == 0 && b.len() == 0 {
        assert(a =~= b);
    }
}

/// A text sorts before every text that extends it: a proper prefix comes
/// first, as in `String`'s order.
pub proof fn law_proper_prefix_sorts_first(a: Seq<char>, s: Seq<char>)
    requires
        s.len() > 0,
    ensures
        seq_lt(a, a + s),
        !seq_lt(a + s, a),
    decreases a.len(),
{
    if a.len() == 0 {
        assert(a + s =~= s);
    } else {
        assert((a + s)[0] == a[0]);
        assert((a + s).drop_first() =~= a.drop_first() + s);
        law_proper_prefix_sorts_first(a.drop_first(), s);
    }
}

/// Two texts that agree before position `i` and differ at `i` are ordered
/// by their characters at `i`, compared as code points.
pub proof fn law_first_difference_decides(a: Seq<char>, b: Seq<char>, i: int)
    requires
        0 <= i < a.len(),
        i < b.len(),
        forall|j: int| 0 <= j < i ==> a[j] == b[j],
        a[i] != b[i],
    ensures
        seq_lt(a, b) == ((a[i] as u32) < (b[i] as u32)),
        seq_lt(b, a) == ((b[i] as u32) < (a[i] as u32)),
    decreases i,
{
    if i > 0 {
        assert(a[0] == b[0]);
        assert forall|j: int| 0 <= j < i - 1 implies a.drop_first()[j] == b.drop_first()[j] by {
            assert(a[j + 1] == b[j + 1]);
        }
        law_first_difference_decides(a.drop_first(), b.drop_first(), i - 1);
    }
}

/// Strict lexicographic comparison of two strings.
pub fn str_lt(a: &str, b: &str) -> (r: bool)
    ensures
        r == seq_lt(a@, b@),
{
    let x = chars_of(a);
    let y = chars_of(b);
    let mut i: usize = 0;
    assert(a@.skip(0) =~= a@);
    assert(b@.skip(0) =~= b@);
    loop
        invariant
            x@ == a@,
            y@ == b@,
            i <= x@.len(),
            i <= y@.len(),
            seq_lt(a@, b@) == seq_lt(a@.skip(i as int), b@.skip(i as int)),
        decreases x@.len() - i,
    {
        if i == x.len() {
            return i < y.len();
        }
        if i == y.len() {
            return false;
        }
        if x[i] != y[i] {
            return (x[i] as u32) < (y[i] as u32);
        }
        assert(a@.skip(i as int).drop_first() =~= a@.skip(i + 1));
        assert(b@.skip(i as int).drop_first() =~= b@.skip(i + 1));
        i = i + 1;
    }
}

/// The parts joined with `sep` between consecutive parts.
pub open spec fn seq_join(parts: Seq<Seq<char>>, sep: Seq<char>) -> Seq<char>
    decreases parts.len(),
{
    if parts.len() == 0 {
        Seq::empty()
    } else if parts.len() == 1 {
        parts[0]
    } else {
        seq_join(parts.drop_last(), sep) + sep + parts.last()
    }
}

/// Joins the strings with `sep` between consecutive ones.
pub fn join_strings(list: &Vec<String>, sep: &str) -> (r: String)
    ensures
        r@ == seq_join(crate::types::strings_view(list@), sep@),
{
    let ghost parts = crate::types::strings_view(list@);
    let mut r = String::new();
    let mut i: usize = 0;
    while i < list.len()
        invariant
            parts == crate::types::strings_view(list@),
            i <= list@.len(),
            r@ == seq_join(parts.take(i as int), sep@),
        decreases list@.len() - i,
    {
        assert(parts.take(i + 1).drop_last() =~= parts.take(i as int));
        if i != 0 {
            r.append(sep);
        }
        r.append(list[i].as_str());
        if i == 0 {
            assert(r@ =~= seq_join(parts.take(1), sep@));
        }
        i = i + 1;
    }
    assert(parts.take(list@.len() as int) =~= parts);
    r
}

/// Every occurrence of `pat` in `s`, scanning left to right without
/// overlap, replaced by `rep` (the behaviour of `str::replace` for a
/// non-empty pattern).
pub open spec fn spec_replace(s: Seq<char>, pat: Seq<char>, rep: Seq<char>) -> Seq<char>
    decreases s.len(),
{
    if pat.len() == 0 || s.len() < pat.len() {
        s
    } else if s.take(pat.len() as int) == pat {
        rep + spec_replace(s.skip(pat.len() as int), pat, rep)
    } else {
        seq![s[0]] + spec_replace(s.skip(1), pat, rep)
    }
}

/// Replaces every occurrence of a non-empty pattern.
pub fn replace_all(s: &str, pat: &str, rep: &str) -> (r: String)
    requires
        pat@.len() > 0,
    ensures
        r@ == spec_replace(s@, pat@, rep@),
{
    let x = chars_of(s);
    let p = chars_of(pat);
    let n = x.len();
    let m = p.len();
    let mut out = String::new();
    let mut i: usize = 0;
    assert(s@.skip(0) =~= s@);
    while i < n
        invariant
            x@ == s@,
            p@ == pat@,
            n == x@.len(),
            m == p@.len(),
            m > 0,
            i <= n,
            out@ + spec_replace(s@.skip(i as int), pat@, rep@) == spec_replace(s@, pat@, rep@),
        decreases n - i,
    {
        let ghost t = s@.skip(i as int);
        let mut hit = m <= n - i;
        let mut j: usize = 0;
        while hit && j < m
            invariant
                x@ == s@,
                p@ == pat@,
                n == x@.len(),
                m == p@.len(),
                i < n,
                t == s@.skip(i as int),
                hit ==> i + m <= n,
                j <= m,
                hit ==> forall|k: int| 0 <= k < j ==> x@[i + k] == p@[k],
                !hit ==> (t.len() < m || t.take(m as int) != pat@),
            decreases m - j + (if hit { 1int } else { 0int }),
        {
            if x[i + j] != p[j] {
                assert(t.take(m as int)[j as int] == x@[i + j]);
                hit = false;
            } else {
                j = j + 1;
            }
        }
        if hit {
            assert(t.take(m as int) =~= pat@);
            assert(t.skip(m as int) =~= s@.skip(i + m));
            out.append(rep);
            i = i + m;
        } else {
            if m > n - i {
                assert(spec_replace(t, pat@, rep@) == t);
                let mut k: usize = i;
                let ghost base = out@;
                while k < n
                    invariant
                        x@ == s@,
                        n == x@.len(),
                        i <= k <= n,
                        t == s@.skip(i as int),
                        out@ == base + s@.subrange(i as int, k as int),
                    decreases n - k,
                {
                    crate::text::push_char(&mut out, x[k]);
                    assert(s@.subrange(i as int, k + 1) =~= s@.subrange(i as int, k as int).push(x@[k as int]));
                    k = k + 1;
                }
                assert(s@.subrange(i as int, n as int) =~= t);
                assert(s@.skip(n as int) =~= Seq::<char>::empty());
                i = n;
                assert(out@ + spec_replace(s@.skip(i as int), pat@, rep@) =~= spec_replace(s@, pat@, rep@));
            } else {
                assert(t.skip(1) =~= s@.skip(i + 1));
                assert(t[0] == x@[i as int]);
                let ghost before = out@;
                push_char(&mut out, x[i]);
                assert(out@ + spec_replace(s@.skip(i + 1), pat@, rep@) =~= before + (seq![t[0]]
                    + spec_replace(t.skip(1), pat@, rep@)));
                i = i + 1;
            }
        }
    }
    assert(s@.skip(n as int) =~= Seq::<char>::empty());
    assert(out@ =~= spec_replace(s@, pat@, rep@));
    out
}

pub open spec fn digit_char(d: nat) -> char {
    if d == 0 {
        '0'
    } else if d == 1 {
        '1'
    } else if d == 2 {
        '2'
    } else if d == 3 {
        '3'
    } else if d == 4 {
        '4'
    } else if d == 5 {
        '5'
    } else if d == 6 {
        '6'
    } else if d == 7 {
        '7'
    } else if d == 8 {
        '8'
    } else {
        '9'
    }
}

/// The decimal digits of `n`, most significant first, without leading
/// zeros (the text `usize::to_string` gives).
pub open spec fn spec_decimal(n: nat) -> Seq<char>
    decreases n,
{
    if n < 10 {
        seq![digit_char(n)]
    } else {
        spec_decimal(n / 10).push(digit_char(n % 10))
    }
}

fn digit_of(d: usize) -> (c: char)
    requires
        d < 10,
    ensures
        c == digit_char(d as nat),
{
    if d == 0 {
        '0'
    } else if d == 1 {
        '1'
    } else if d == 2 {
        '2'
    } else if d == 3 {
        '3'
    } else if d == 4 {
        '4'
    } else if d == 5 {
        '5'
    } else if d == 6 {
        '6'
    } else if d == 7 {
        '7'
    } else if d == 8 {
        '8'
    } else {
        '9'
    }
}

/// The decimal text of `n`.
pub fn decimal(n: usize) -> (r: String)
    ensures
        r@ == spec_decimal(n as nat),
    decreases n,
{
    if n < 10 {
        let mut r = String::new();
        push_char(&mut r, digit_of(n));
        assert(r@ =~= seq![digit_char(n as nat)]);
        r
    } else {
        let mut r = decimal(n / 10);
        push_char(&mut r, digit_of(n % 10));
        r
    }
}

/// The text `bool`'s `Display` gives.
pub open spec fn bool_text(b: bool) -> Seq<char> {
    if b {
        "true"@
    } else {
        "false"@
    }
}

pub fn bool_str(b: bool) -> (r: &'static str)
    ensures
        r@ == bool_text(b),
{
    if b {
        "true"
    } else {
        "false"
    }
}

/// Whether the text ends with a line break.
pub fn ends_with_newline(s: &str) -> (r: bool)
    ensures
        r == (s@.len() > 0 && s@.last() == '\n'),
{
    let n = s.unicode_len();
    n > 0 && s.get_char(n - 1) == '\n'
}

} // verus!
