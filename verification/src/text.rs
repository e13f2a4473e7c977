//! Small text utilities: character access to `&str`, string building from
//! character vectors, decimal rendering, tab indentation, and substring
//! search. Everything downstream states its output over `Seq<char>`, and
//! these are the bridges between that model and executable strings.

use vstd::prelude::*;
use vstd::string::StrSliceExecFns;

verus! {

/// The characters of `s`, as a vector.
pub fn chars_of(s: &str) -> (v: Vec<char>)
    ensures
        v@ == s@,
{
    let n = s.unicode_len();
    let mut v: Vec<char> = Vec::new();
    let mut i: usize = 0;
    while i < n
        invariant
            i <= n,
            n == s@.len(),
            v@ == s@.subrange(0, i as int),
        decreases n - i,
    {
        v.push(s.get_char(i));
        i = i + 1;
        proof {
            assert(v@ =~= s@.subrange(0, i as int));
        }
    }
    proof {
        assert(v@ =~= s@);
    }
    v
}

/// Relies on `String`'s `FromIterator` implementation: collecting a
/// sequence of characters yields the string of exactly those characters.
#[verifier::external_body]
pub fn string_from_chars(v: &[char]) -> (s: String)
    ensures
        s@ == v@,
{
    v.iter().collect()
}

/// Whether two string slices spell the same characters.
pub fn str_eq(a: &str, b: &str) -> (r: bool)
    ensures
        r == (a@ == b@),
{
    let n = a.unicode_len();
    if n != b.unicode_len() {
        return false;
    }
    let mut i: usize = 0;
    while i < n
        invariant
            i <= n,
            n == a@.len() == b@.len(),
            forall|j: int| 0 <= j < i ==> a@[j] == b@[j],
        decreases n - i,
    {
        if a.get_char(i) != b.get_char(i) {
            return false;
        }
        i = i + 1;
    }
    proof {
        assert(a@ =~= b@);
    }
    true
}

/// The decimal digit standing for `d`.
pub open spec fn digit_char(d: int) -> char {
    if d == 0 {
        '0'
    } else if d == 1 {
        '1'
    } else if d == 2 {
        '2'
    } else if d == 3 {
        '3'
    } else if d == 4 {
        '4'
    } else if d == 5 {
        '5'
    } else if d == 6 {
        '6'
    } else if d == 7 {
        '7'
    } else if d == 8 {
        '8'
    } else {
        '9'
    }
}

/// The decimal spelling of `n`, without leading zeros (except for zero
/// itself).
pub open spec fn dec_digits(n: nat) -> Seq<char>
    decreases n,
{
    if n < 10 {
        seq![digit_char(n as int)]
    } else {
        dec_digits(n / 10) + seq![digit_char((n % 10) as int)]
    }
}

fn digit_char_exec(d: usize) -> (c: char)
    requires
        d < 10,
    ensures
        c == digit_char(d as int),
{
    if d == 0 {
        '0'
    } else if d == 1 {
        '1'
    } else if d == 2 {
        '2'
    } else if d == 3 {
        '3'
    } else if d == 4 {
        '4'
    } else if d == 5 {
        '5'
    } else if d == 6 {
        '6'
    } else if d == 7 {
        '7'
    } else if d == 8 {
        '8'
    } else {
        '9'
    }
}

fn push_dec_digits(n: usize, out: &mut Vec<char>)
    ensures
        final(out)@ == old(out)@ + dec_digits(n as nat),
    decreases n,
{
    if n >= 10 {
        push_dec_digits(n / 10, out);
    }
    out.push(digit_char_exec(n % 10));
    proof {
        if n >= 10 {
            assert(out@ =~= old(out)@ + dec_digits(n as nat));
        } else {
            assert(out@ =~= old(out)@ + dec_digits(n as nat));
        }
    }
}

/// The decimal spelling of `n` as characters.
pub fn dec_chars(n: usize) -> (v: Vec<char>)
    ensures
        v@ == dec_digits(n as nat),
{
    let mut v: Vec<char> = Vec::new();
    push_dec_digits(n, &mut v);
    proof {
        assert(v@ =~= dec_digits(n as nat));
    }
    v
}

/// `n` tab characters.
pub open spec fn tab_indent(n: nat) -> Seq<char>
    decreases n,
{
    if n == 0 {
        Seq::empty()
    } else {
        tab_indent((n - 1) as nat) + "\t"@
    }
}

/// Appends `n` tab characters to `out`.
pub fn push_tabs(n: usize, out: &mut Vec<char>)
    ensures
        final(out)@ == old(out)@ + tab_indent(n as nat),
{
    let mut i: usize = 0;
    while i < n
        invariant
            i <= n,
            out@ == old(out)@ + tab_indent(i as nat),
        decreases n - i,
    {
        out.push('\t');
        i = i + 1;
        proof {
            reveal_strlit("\t");
            assert(out@ =~= old(out)@ + tab_indent(i as nat));
        }
    }
    proof {
        assert(out@ =~= old(out)@ + tab_indent(n as nat));
    }
}

/// Appends the characters of `s` to `out`.
pub fn push_str_chars(s: &str, out: &mut Vec<char>)
    ensures
        final(out)@ == old(out)@ + s@,
{
    let n = s.unicode_len();
    let mut i: usize = 0;
    while i < n
        invariant
            i <= n,
            n == s@.len(),
            out@ == old(out)@ + s@.subrange(0, i as int),
        decreases n - i,
    {
        out.push(s.get_char(i));
        i = i + 1;
        proof {
            assert(out@ =~= old(out)@ + s@.subrange(0, i as int));
        }
    }
    proof {
        assert(out@ =~= old(out)@ + s@);
    }
}

/// A `String` with the characters of `s`.
pub fn str_to_string(s: &str) -> (r: String)
    ensures
        r@ == s@,
{
    let v = chars_of(s);
    string_from_chars(v.as_slice())
}

/// The one-character string holding `c`.
pub fn char_string(c: char) -> (s: String)
    ensures
        s@ == seq![c],
{
    let mut v: Vec<char> = Vec::new();
    v.push(c);
    proof {
        assert(v@ =~= seq![c]);
    }
    string_from_chars(v.as_slice())
}

/// The elements of `v` from `a` (inclusive) to `b` (exclusive), as a new
/// vector.
pub fn subvec(v: &Vec<char>, a: usize, b: usize) -> (r: Vec<char>)
    requires
        a <= b <= v@.len(),
    ensures
        r@ == v@.subrange(a as int, b as int),
{
    let mut r: Vec<char> = Vec::new();
    let mut i: usize = a;
    while i < b
        invariant
            a <= i <= b <= v@.len(),
            r@ == v@.subrange(a as int, i as int),
        decreases b - i,
    {
        r.push(v[i]);
        i = i + 1;
        proof {
            assert(r@ =~= v@.subrange(a as int, i as int));
        }
    }
    r
}

/// Appends all elements of `src` to `out`.
pub fn push_all(src: &Vec<char>, out: &mut Vec<char>)
    ensures
        final(out)@ == old(out)@ + src@,
{
    let n = src.len();
    let mut i: usize = 0;
    while i < n
        invariant
            i <= n,
            n == src@.len(),
            out@ == old(out)@ + src@.subrange(0, i as int),
        decreases n - i,
    {
        out.push(src[i]);
        i = i + 1;
        proof {
            assert(out@ =~= old(out)@ + src@.subrange(0, i as int));
        }
    }
    proof {
        assert(out@ =~= old(out)@ + src@);
    }
}

/// Whether `needle` occurs as a contiguous run inside `hay`.
pub open spec fn contains_seq(hay: Seq<char>, needle: Seq<char>) -> bool {
    exists|k: int|
        0 <= k && k + needle.len() <= hay.len() && #[trigger] hay.subrange(
            k,
            k + needle.len(),
        ) == needle
}

/// Whether the characters of `needle` occur contiguously in `hay`.
pub fn contains_chars(hay: &Vec<char>, needle: &Vec<char>) -> (r: bool)
    ensures
        r == contains_seq(hay@, needle@),
{
    let m = needle.len();
    if m > hay.len() {
        proof {
            assert(!contains_seq(hay@, needle@)) by {
                if contains_seq(hay@, needle@) {
                    let k = choose|k: int|
                        0 <= k && k + needle@.len() <= hay@.len() && #[trigger] hay@.subrange(
                            k,
                            k + needle@.len(),
                        ) == needle@;
                    assert(k + needle@.len() <= hay@.len());
                }
            }
        }
        return false;
    }
    let end = hay.len() - m;
    let mut k: usize = 0;
    loop
        invariant
            k <= end + 1,
            end + m == hay@.len(),
            m == needle@.len(),
            forall|k0: int|
                0 <= k0 < k ==> #[trigger] hay@.subrange(k0, k0 + needle@.len()) != needle@,
        decreases end + 1 - k,
    {
        if k > end {
            return false;
        }
        let mut j: usize = 0;
        let mut all_eq = true;
        while j < m
            invariant
                k <= end,
                end + m == hay@.len(),
                m == needle@.len(),
                j <= m,
                all_eq == (forall|j0: int| 0 <= j0 < j ==> hay@[k + j0] == needle@[j0]),
            decreases m - j,
        {
            if hay[k + j] != needle[j] {
                all_eq = false;
                proof {
                    assert(hay@[k + j] != needle@[j as int]);
                }
                j = m;
            } else {
                j = j + 1;
            }
        }
        if all_eq {
            proof {
                assert(hay@.subrange(k as int, k + needle@.len()) =~= needle@);
            }
            return true;
        }
        proof {
            if hay@.subrange(k as int, k + needle@.len()) == needle@ {
                assert(forall|j0: int|
                    0 <= j0 < m ==> #[trigger] hay@.subrange(k as int, k + needle@.len())[j0]
                        == hay@[k + j0]);
                assert(false);
            }
        }
        k = k + 1;
    }
}

/// The name with every trailing `.ly` removed.
pub open spec fn trim_ly(s: Seq<char>) -> Seq<char>
    decreases s.len(),
{
    if s.len() >= 3 && s.subrange(s.len() - 3, s.len() as int) == ".ly"@ {
        trim_ly(s.subrange(0, s.len() - 3))
    } else {
        s
    }
}

/// Removes every trailing `.ly` from a filename, yielding the module's
/// base name.
pub fn trim_ly_str(s: &str) -> (r: &str)
    ensures
        r@ == trim_ly(s@),
{
    let mut t = s;
    loop
        invariant
            trim_ly(t@) == trim_ly(s@),
        decreases t@.len(),
    {
        let n = t.unicode_len();
        if n >= 3 && t.get_char(n - 3) == '.' && t.get_char(n - 2) == 'l' && t.get_char(n - 1)
            == 'y' {
            proof {
                reveal_strlit(".ly");
                assert(t@.subrange(n - 3, n as int) =~= ".ly"@);
            }
            t = t.substring_char(0, n - 3);
        } else {
            proof {
                reveal_strlit(".ly");
                if t@.len() >= 3 && t@.subrange(t@.len() - 3, t@.len() as int) == ".ly"@ {
                    let suf = t@.subrange(t@.len() - 3, t@.len() as int);
                    assert(t@[t@.len() - 3] == suf[0]);
                    assert(t@[t@.len() - 2] == suf[1]);
                    assert(t@[t@.len() - 1] == suf[2]);
                }
            }
            return t;
        }
    }
}

} // verus!
