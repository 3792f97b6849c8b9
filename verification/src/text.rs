//! Small verified string helpers shared across the crate.
use vstd::prelude::*;

verus! {

/// Character-for-character equality of two string slices.
pub fn str_eq(a: &str, b: &str) -> (r: bool)
    ensures
        r == (a@ == b@),
{
    let la = a.unicode_len();
    let lb = b.unicode_len();
    if la != lb {
        return false;
    }
    let mut i: usize = 0;
    while i < la
        invariant
            i <= la,
            la == a@.len(),
            la == b@.len(),
            forall|j: int| 0 <= j < i ==> a@[j] == b@[j],
        decreases la - i,
    {
        if a.get_char(i) != b.get_char(i) {
            return false;
        }
        i += 1;
    }
    proof {
        assert(a@ =~= b@);
    }
    true
}

/// Whether `p` is a prefix of `s`.
pub fn str_starts_with(s: &str, p: &str) -> (r: bool)
    ensures
        r == p@.is_prefix_of(s@),
{
    let ls = s.unicode_len();
    let lp = p.unicode_len();
    if lp > ls {
        return false;
    }
    let mut i: usize = 0;
    while i < lp
        invariant
            i <= lp,
            lp <= ls,
            ls == s@.len(),
            lp == p@.len(),
            forall|j: int| 0 <= j < i ==> s@[j] == p@[j],
        decreases lp - i,
    {
        if s.get_char(i) != p.get_char(i) {
            return false;
        }
        i += 1;
    }
    proof {
        assert(p@ =~= s@.subrange(0, p@.len() as int));
    }
    true
}

/// Relies on `String::push`: appends one character at the end.
#[verifier::external_body]
pub fn push_char(s: &mut String, c: char)
    ensures
        final(s)@ == old(s)@.push(c),
{
    s.push(c)
}


/// Splitting what remains of a string at `sep`, with `cur` the piece read so
/// far: the mathematical mirror of a left-to-right scan.
pub open spec fn split_char_rec(s: Seq<char>, sep: char, cur: Seq<char>) -> Seq<Seq<char>>
    decreases s.len(),
{
    if s.len() == 0 {
        seq![cur]
    } else if s[0] == sep {
        seq![cur] + split_char_rec(s.drop_first(), sep, Seq::empty())
    } else {
        split_char_rec(s.drop_first(), sep, cur.push(s[0]))
    }
}

/// The pieces of `s` between occurrences of `sep`; never empty, and empty
/// pieces are kept, as `str::split` keeps them.
pub open spec fn split_char(s: Seq<char>, sep: char) -> Seq<Seq<char>> {
    split_char_rec(s, sep, Seq::empty())
}

/// Splits `s` at every occurrence of `sep`.
pub fn split_str(s: &str, sep: char) -> (r: Vec<String>)
    ensures
        r@.map_values(|x: String| x@) == split_char(s@, sep),
{
    let n = s.unicode_len();
    let mut r: Vec<String> = Vec::new();
    let mut cur = String::new();
    let mut i: usize = 0;
    proof {
        assert(s@.subrange(0, n as int) =~= s@);
    }
    while i < n
        invariant
            i <= n,
            n == s@.len(),
            split_char(s@, sep) == r@.map_values(|x: String| x@) + split_char_rec(
                s@.subrange(i as int, n as int),
                sep,
                cur@,
            ),
        decreases n - i,
    {
        let ghost r_old = r@;
        let ghost cur_old = cur@;
        let ghost rest_old = s@.subrange(i as int, n as int);
        let c = s.get_char(i);
        if c == sep {
            r.push(cur);
            cur = String::new();
        } else {
            push_char(&mut cur, c);
        }
        i += 1;
        proof {
            assert(rest_old[0] == s@[i - 1]);
            assert(rest_old.drop_first() =~= s@.subrange(i as int, n as int));
            if c == sep {
                assert(r@.map_values(|x: String| x@) =~= r_old.map_values(|x: String| x@)
                    + seq![cur_old]);
                assert(r_old.map_values(|x: String| x@) + (seq![cur_old] + split_char_rec(
                    s@.subrange(i as int, n as int),
                    sep,
                    Seq::empty(),
                )) =~= r@.map_values(|x: String| x@) + split_char_rec(
                    s@.subrange(i as int, n as int),
                    sep,
                    Seq::empty(),
                ));
            }
        }
    }
    proof {
        assert(s@.subrange(n as int, n as int) =~= Seq::<char>::empty());
        assert(split_char_rec(Seq::<char>::empty(), sep, cur@) == seq![cur@]);
    }
    let ghost r_old = r@;
    let ghost cur_old = cur@;
    r.push(cur);
    proof {
        assert(r@.map_values(|x: String| x@) =~= r_old.map_values(|x: String| x@) + seq![
            cur_old,
        ]);
    }
    r
}


/// An ASCII capital lowered; every other character is unchanged. Hostnames
/// are ASCII, so this is the lowering DNS names call for.
pub open spec fn char_lower(c: char) -> char {
    if 65 <= c as u32 <= 90 {
        (((c as u32) + 32) as u8) as char
    } else {
        c
    }
}

/// A character sequence with its ASCII capitals lowered.
pub open spec fn lowered(s: Seq<char>) -> Seq<char> {
    s.map_values(|c: char| char_lower(c))
}

/// Lowers the ASCII capitals of `s`.
pub fn to_lowercase_ascii(s: &str) -> (r: String)
    ensures
        r@ == lowered(s@),
{
    let n = s.unicode_len();
    let mut out = String::new();
    let mut i: usize = 0;
    while i < n
        invariant
            i <= n,
            n == s@.len(),
            out@ == lowered(s@.subrange(0, i as int)),
        decreases n - i,
    {
        let c = s.get_char(i);
        let cu = c as u32;
        let lc: char = if 65 <= cu && cu <= 90 {
            ((cu + 32) as u8) as char
        } else {
            c
        };
        proof {
            assert(lc == char_lower(s@[i as int]));
        }
        push_char(&mut out, lc);
        proof {
            assert(lowered(s@.subrange(0, i as int + 1)) =~= lowered(
                s@.subrange(0, i as int),
            ).push(char_lower(s@[i as int])));
        }
        i += 1;
    }
    proof {
        assert(s@.subrange(0, n as int) =~= s@);
    }
    out
}

/// Some element of `v` has exactly the characters `h`.
pub open spec fn in_strings(v: Seq<String>, h: Seq<char>) -> bool {
    exists|i: int| 0 <= i < v.len() && v[i]@ == h
}

/// Whether some element of `v` has the characters of `s`.
pub fn contains_string(v: &Vec<String>, s: &str) -> (r: bool)
    ensures
        r == in_strings(v@, s@),
{
    let mut i: usize = 0;
    while i < v.len()
        invariant
            i <= v@.len(),
            forall|j: int| 0 <= j < i ==> v@[j]@ != s@,
        decreases v@.len() - i,
    {
        if str_eq(v[i].as_str(), s) {
            return true;
        }
        i += 1;
    }
    false
}

} // verus!
