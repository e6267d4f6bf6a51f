use vstd::prelude::*;

verus! {

/// The characters that Unicode calls `White_Space`, which `char::is_whitespace`
/// accepts and `str::trim` removes.
pub open spec fn is_white(c: char) -> bool {
    ('\u{9}' <= c && c <= '\u{d}') || c == ' ' || c == '\u{85}' || c == '\u{a0}'
        || c == '\u{1680}' || ('\u{2000}' <= c && c <= '\u{200a}') || c == '\u{2028}'
        || c == '\u{2029}' || c == '\u{202f}' || c == '\u{205f}' || c == '\u{3000}'
}

pub open spec fn trim_start(s: Seq<char>) -> Seq<char>
    decreases s.len(),
{
    if s.len() > 0 && is_white(s[0]) {
        trim_start(s.drop_first())
    } else {
        s
    }
}

pub open spec fn trim_end(s: Seq<char>) -> Seq<char>
    decreases s.len(),
{
    if s.len() > 0 && is_white(s.last()) {
        trim_end(s.drop_last())
    } else {
        s
    }
}

/// The text without its leading and trailing whitespace.
pub open spec fn trim_ws(s: Seq<char>) -> Seq<char> {
    trim_end(trim_start(s))
}

pub fn is_whitespace_char(c: char) -> (r: bool)
    ensures
        r == is_white(c),
{
    ('\u{9}' <= c && c <= '\u{d}') || c == ' ' || c == '\u{85}' || c == '\u{a0}' || c
        == '\u{1680}' || ('\u{2000}' <= c && c <= '\u{200a}') || c == '\u{2028}' || c
        == '\u{2029}' || c == '\u{202f}' || c == '\u{205f}' || c == '\u{3000}'
}

/// Removes leading and trailing whitespace.
pub fn trim_text(s: &str) -> (r: &str)
    ensures
        r@ == trim_ws(s@),
{
    let n = s.unicode_len();
    let mut i: usize = 0;
    assert(s@.subrange(0, n as int) =~= s@);
    while i < n && is_whitespace_char(s.get_char(i))
        invariant
            n == s@.len(),
            0 <= i <= n,
            trim_start(s@) == trim_start(s@.subrange(i as int, n as int)),
        decreases n - i,
    {
        proof {
            let rest = s@.subrange(i as int, n as int);
            assert(rest.drop_first() =~= s@.subrange(i + 1, n as int));
        }
        i = i + 1;
    }
    let mut j: usize = n;
    proof {
        let rest = s@.subrange(i as int, n as int);
        if i < n {
            assert(rest[0] == s@[i as int]);
        }
        assert(trim_start(rest) == rest);
    }
    while j > i && is_whitespace_char(s.get_char(j - 1))
        invariant
            n == s@.len(),
            0 <= i <= j <= n,
            trim_ws(s@) == trim_end(s@.subrange(i as int, j as int)),
        decreases j - i,
    {
        proof {
            let mid = s@.subrange(i as int, j as int);
            assert(mid.last() == s@[j - 1]);
            assert(mid.drop_last() =~= s@.subrange(i as int, j - 1));
        }
        j = j - 1;
    }
    proof {
        let mid = s@.subrange(i as int, j as int);
        if j > i {
            assert(mid.last() == s@[j - 1]);
        }
    }
    s.substring_char(i, j)
}

} // verus!
