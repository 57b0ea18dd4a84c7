//! Splitting command arguments into whitespace-separated words.

use vstd::prelude::*;

use crate::text::{chars_of, string_of_chars};

verus! {

/// The Unicode `White_Space` property, which `char::is_whitespace` tests.
pub open spec fn spec_is_whitespace(c: char) -> bool {
    let u = c as u32;
    ||| 0x9 <= u <= 0xD
    ||| u == 0x20
    ||| u == 0x85
    ||| u == 0xA0
    ||| u == 0x1680
    ||| 0x2000 <= u <= 0x200A
    ||| u == 0x2028
    ||| u == 0x2029
    ||| u == 0x202F
    ||| u == 0x205F
    ||| u == 0x3000
}

pub fn is_whitespace(c: char) -> (r: bool)
    ensures
        r == spec_is_whitespace(c),
{
    let u = c as u32;
    (0x9 <= u && u <= 0xD) || u == 0x20 || u == 0x85 || u == 0xA0 || u == 0x1680 || (0x2000 <= u
        && u <= 0x200A) || u == 0x2028 || u == 0x2029 || u == 0x202F || u == 0x205F || u == 0x3000
}

/// The words of `s` that follow the partial word `cur`.
pub open spec fn words_from(s: Seq<char>, cur: Seq<char>) -> Seq<Seq<char>>
    decreases s.len(),
{
    if s.len() == 0 {
        if cur.len() > 0 {
            seq![cur]
        } else {
            Seq::empty()
        }
    } else if spec_is_whitespace(s[0]) {
        (if cur.len() > 0 {
            seq![cur]
        } else {
            Seq::empty()
        }) + words_from(s.skip(1), Seq::empty())
    } else {
        words_from(s.skip(1), cur.push(s[0]))
    }
}

/// The maximal runs of non-whitespace characters of `s`, in order (what
/// `str::split_whitespace` yields).
pub open spec fn spec_words(s: Seq<char>) -> Seq<Seq<char>> {
    words_from(s, Seq::empty())
}

/// Splits `s` into its whitespace-separated words.
pub fn split_whitespace(s: &str) -> (r: Vec<String>)
    ensures
        crate::types::strings_view(r@) == spec_words(s@),
{
    let x = chars_of(s);
    let n = x.len();
    let mut words: Vec<String> = Vec::new();
    let mut cur: Vec<char> = Vec::new();
    let mut i: usize = 0;
    assert(s@.skip(0) =~= s@);
    while i < n
        invariant
            x@ == s@,
            n == x@.len(),
            i <= n,
            crate::types::strings_view(words@) + words_from(s@.skip(i as int), cur@) == spec_words(
                s@,
            ),
        decreases n - i,
    {
        let ghost t = s@.skip(i as int);
        assert(t.skip(1) =~= s@.skip(i + 1));
        assert(t[0] == x@[i as int]);
        let ghost before = crate::types::strings_view(words@);
        if is_whitespace(x[i]) {
            if cur.len() > 0 {
                let w = string_of_chars(cur.as_slice());
                words.push(w);
                assert(crate::types::strings_view(words@) =~= before + seq![cur@]);
            } else {
                assert(crate::types::strings_view(words@) =~= before + Seq::<Seq<char>>::empty());
            }
            cur = Vec::new();
            assert(cur@ =~= Seq::<char>::empty());
        } else {
            cur.push(x[i]);
        }
        i = i + 1;
    }
    assert(s@.skip(n as int) =~= Seq::<char>::empty());
    if cur.len() > 0 {
        let ghost before = crate::types::strings_view(words@);
        let w = string_of_chars(cur.as_slice());
        words.push(w);
        assert(crate::types::strings_view(words@) =~= before + seq![cur@]);
    } else {
        assert(crate::types::strings_view(words@) =~= crate::types::strings_view(words@)
            + Seq::<Seq<char>>::empty());
    }
    words
}

} // verus!
