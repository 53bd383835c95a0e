//! Verified text utilities: leftmost non-overlapping substring replacement,
//! ASCII lower-casing, and the prompt/output plumbing of the extraction
//! backend that is plain string rewriting.
use vstd::prelude::*;

verus! {

/// Relies on String::push: appends the given character to the string.
pub assume_specification[ String::push ](s: &mut String, c: char)
    ensures
        final(s)@ == old(s)@.push(c),
;

/// The characters of `s`, one per element.
pub fn str_chars(s: &str) -> (v: Vec<char>)
    ensures
        v@ == s@,
{
    let n = s.unicode_len();
    let mut v: Vec<char> = Vec::new();
    let mut i: usize = 0;
    while i < n
        invariant
            i <= n,
            n == s@.len(),
            v@ == s@.take(i as int),
        decreases n - i,
    {
        v.push(s.get_char(i));
        proof {
            assert(v@ =~= s@.take(i + 1));
        }
        i = i + 1;
    }
    proof {
        assert(v@ =~= s@);
    }
    v
}

/// A string holding exactly the given characters.
pub fn chars_string(v: &Vec<char>) -> (s: String)
    ensures
        s@ == v@,
{
    let mut s = String::new();
    let mut i: usize = 0;
    while i < v.len()
        invariant
            i <= v@.len(),
            s@ == v@.take(i as int),
        decreases v@.len() - i,
    {
        s.push(v[i]);
        proof {
            assert(s@ =~= v@.take(i + 1));
        }
        i = i + 1;
    }
    proof {
        assert(s@ =~= v@);
    }
    s
}

/// An upper-case ASCII letter mapped to its lower-case form; any other
/// character unchanged.
pub open spec fn lower_char(c: char) -> char {
    if 'A' <= c && c <= 'Z' {
        ((c as u32) + 32) as char
    } else {
        c
    }
}

/// Each character of `s` lower-cased by [`lower_char`].
pub open spec fn lower_seq(s: Seq<char>) -> Seq<char> {
    s.map_values(|c: char| lower_char(c))
}

/// Lower-case the ASCII letters of a string, leaving everything else as it
/// is.
pub fn lower_ascii(s: &str) -> (r: String)
    ensures
        r@ == lower_seq(s@),
{
    let chars = str_chars(s);
    let mut out = String::new();
    let mut i: usize = 0;
    while i < chars.len()
        invariant
            i <= chars@.len(),
            chars@ == s@,
            out@ == lower_seq(s@).take(i as int),
        decreases chars@.len() - i,
    {
        let c = chars[i];
        if c >= 'A' && c <= 'Z' {
            let u: u32 = (c as u32) + 32;
            out.push(u as u8 as char);
            proof {
                assert(u as u8 as char == lower_char(c));
            }
        } else {
            out.push(c);
        }
        proof {
            assert(out@ =~= lower_seq(s@).take(i + 1));
        }
        i = i + 1;
    }
    proof {
        assert(out@ =~= lower_seq(s@));
    }
    out
}

/// `s` with every leftmost, non-overlapping occurrence of `pat` replaced by
/// `to`, scanning left to right over the original text; an empty pattern
/// replaces nothing.
pub open spec fn replace_seq(s: Seq<char>, pat: Seq<char>, to: Seq<char>) -> Seq<char>
    decreases s.len(),
{
    if pat.len() == 0 || s.len() < pat.len() {
        s
    } else if s.take(pat.len() as int) == pat {
        to + replace_seq(s.skip(pat.len() as int), pat, to)
    } else {
        seq![s[0]] + replace_seq(s.skip(1), pat, to)
    }
}

/// At a position where `pat` occurs, replacement emits `to` and resumes
/// after the occurrence.
proof fn lemma_replace_match(s: Seq<char>, i: int, pat: Seq<char>, to: Seq<char>)
    requires
        pat.len() > 0,
        0 <= i,
        i + pat.len() <= s.len(),
        s.subrange(i, i + pat.len()) == pat,
    ensures
        replace_seq(s.skip(i), pat, to) == to + replace_seq(s.skip(i + pat.len()), pat, to),
{
    let rest = s.skip(i);
    assert(rest.take(pat.len() as int) =~= s.subrange(i, i + pat.len()));
    assert(rest.skip(pat.len() as int) =~= s.skip(i + pat.len()));
}

/// At a position where `pat` does not occur, replacement copies one
/// character and moves on.
proof fn lemma_replace_miss(s: Seq<char>, i: int, pat: Seq<char>, to: Seq<char>)
    requires
        pat.len() > 0,
        0 <= i < s.len(),
        i + pat.len() <= s.len() ==> s.subrange(i, i + pat.len()) != pat,
    ensures
        replace_seq(s.skip(i), pat, to) == seq![s[i]] + replace_seq(s.skip(i + 1), pat, to),
{
    let rest = s.skip(i);
    if rest.len() < pat.len() {
        assert(replace_seq(rest, pat, to) == rest);
        assert(s.skip(i + 1).len() < pat.len());
        assert(replace_seq(s.skip(i + 1), pat, to) == s.skip(i + 1));
        assert(rest =~= seq![s[i]] + s.skip(i + 1));
    } else {
        assert(rest.take(pat.len() as int) =~= s.subrange(i, i + pat.len()));
        assert(rest[0] == s[i]);
        assert(rest.skip(1) =~= s.skip(i + 1));
    }
}

/// Whether `pat` occurs in `s` at position `i`.
fn matches_at(s: &Vec<char>, i: usize, pat: &Vec<char>) -> (b: bool)
    requires
        i + pat@.len() <= s@.len(),
    ensures
        b <==> s@.subrange(i as int, i + pat@.len()) == pat@,
{
    let p = pat.len();
    let n = s.len();
    let mut j: usize = 0;
    while j < p
        invariant
            j <= p,
            p == pat@.len(),
            n == s@.len(),
            i + p <= n,
            forall|k: int| 0 <= k < j ==> s@[i + k] == pat@[k],
        decreases p - j,
    {
        if s[i + j] != pat[j] {
            proof {
                assert(s@.subrange(i as int, i + pat@.len())[j as int] != pat@[j as int]);
            }
            return false;
        }
        j = j + 1;
    }
    proof {
        assert(s@.subrange(i as int, i + pat@.len()) =~= pat@);
    }
    true
}

/// Replace every leftmost, non-overlapping occurrence of `pat` in `s` by
/// `to`, as [`replace_seq`] describes.
pub fn replace_chars(s: &Vec<char>, pat: &Vec<char>, to: &Vec<char>) -> (r: Vec<char>)
    requires
        pat@.len() > 0,
    ensures
        r@ == replace_seq(s@, pat@, to@),
{
    let n = s.len();
    let p = pat.len();
    let mut out: Vec<char> = Vec::new();
    proof {
        assert(s@.skip(0) =~= s@);
        assert(out@ + replace_seq(s@, pat@, to@) =~= replace_seq(s@, pat@, to@));
    }
    let mut i: usize = 0;
    while i < n
        invariant
            i <= n,
            n == s@.len(),
            p == pat@.len(),
            p > 0,
            out@ + replace_seq(s@.skip(i as int), pat@, to@) == replace_seq(s@, pat@, to@),
        decreases n - i,
    {
        let ghost before = out@;
        if p <= n - i && matches_at(s, i, pat) {
            let mut k: usize = 0;
            while k < to.len()
                invariant
                    k <= to@.len(),
                    out@ == before + to@.take(k as int),
                decreases to@.len() - k,
            {
                out.push(to[k]);
                proof {
                    assert(out@ =~= before + to@.take(k + 1));
                }
                k = k + 1;
            }
            proof {
                lemma_replace_match(s@, i as int, pat@, to@);
                assert(out@ =~= before + to@);
                assert(out@ + replace_seq(s@.skip(i + p), pat@, to@) =~= before + (to@
                    + replace_seq(s@.skip(i + p), pat@, to@)));
            }
            i = i + p;
        } else {
            out.push(s[i]);
            proof {
                lemma_replace_miss(s@, i as int, pat@, to@);
                assert(out@ + replace_seq(s@.skip(i + 1), pat@, to@) =~= before + (seq![s@[i as int]]
                    + replace_seq(s@.skip(i + 1), pat@, to@)));
            }
            i = i + 1;
        }
    }
    proof {
        assert(s@.skip(n as int) =~= Seq::<char>::empty());
        assert(out@ =~= out@ + replace_seq(s@.skip(n as int), pat@, to@));
    }
    out
}

/// Index of the first occurrence of `c` in `s`, or -1 if it is absent.
pub open spec fn find_char(s: Seq<char>, c: char) -> int
    decreases s.len(),
{
    if s.len() == 0 {
        -1
    } else if s[0] == c {
        0
    } else {
        let r = find_char(s.drop_first(), c);
        if r < 0 {
            -1
        } else {
            r + 1
        }
    }
}

/// First index of `c` in `v`, if the character occurs at all.
pub fn find_char_vec(v: &Vec<char>, c: char) -> (r: Option<usize>)
    ensures
        match r {
            Some(i) => i == find_char(v@, c) && i < v@.len() && v@[i as int] == c,
            None => find_char(v@, c) == -1,
        },
{
    proof {
        lemma_find_char(v@, c);
    }
    let n = v.len();
    let mut i: usize = 0;
    while i < n
        invariant
            i <= n,
            n == v@.len(),
            forall|j: int| 0 <= j < i ==> v@[j] != c,
        decreases n - i,
    {
        if v[i] == c {
            proof {
                lemma_find_char(v@, c);
                let f = find_char(v@, c);
                if f == -1 {
                    assert(v@[i as int] != c);
                } else if f < i {
                    assert(v@[f] != c);
                } else if f > i {
                    assert(v@[i as int] != c);
                }
            }
            return Some(i);
        }
        i = i + 1;
    }
    proof {
        lemma_find_char(v@, c);
    }
    None
}

/// What `find_char` finds: -1 exactly when the character is absent, and
/// otherwise the first index holding it.
pub proof fn lemma_find_char(s: Seq<char>, c: char)
    ensures
        find_char(s, c) == -1 <==> (forall|j: int| 0 <= j < s.len() ==> s[j] != c),
        find_char(s, c) != -1 ==> 0 <= find_char(s, c) < s.len() && s[find_char(s, c)] == c,
        forall|j: int| 0 <= j < find_char(s, c) ==> s[j] != c,
    decreases s.len(),
{
    if s.len() == 0 {
    } else if s[0] == c {
    } else {
        let rest = s.drop_first();
        lemma_find_char(rest, c);
        assert(forall|j: int| 0 <= j < rest.len() ==> rest[j] == s[j + 1]);
        let r = find_char(rest, c);
        if r == -1 {
            assert forall|j: int| 0 <= j < s.len() implies s[j] != c by {
                if j > 0 {
                    assert(s[j] == rest[j - 1]);
                }
            }
        } else {
            assert(s[r + 1] == rest[r]);
            assert forall|j: int| 0 <= j < r + 1 implies s[j] != c by {
                if j > 0 {
                    assert(s[j] == rest[j - 1]);
                }
            }
        }
    }
}

} // verus!
