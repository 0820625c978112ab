//! Character-level helpers: ASCII case folding and reading a `str` into
//! a vector of characters.
use vstd::prelude::*;
use vstd::string::*;

verus! {

/// The code of `c` after ASCII lower-casing; other characters are kept.
pub open spec fn fold_char(c: char) -> u32 {
    if 65 <= (c as u32) && (c as u32) <= 90 {
        ((c as u32) + 32) as u32
    } else {
        c as u32
    }
}

/// A character sequence with every ASCII capital lowered (as codes).
pub open spec fn fold(s: Seq<char>) -> Seq<u32> {
    s.map_values(|c: char| fold_char(c))
}

/// Appends `c` to `s` by calling std's `String::push`, whose body is not
/// verified here: the contract claims that afterwards `s` holds its former
/// characters followed by `c`.
#[verifier::external_body]
pub(crate) fn push_char(s: &mut String, c: char)
    ensures
        final(s)@ == old(s)@.push(c),
{
    s.push(c)
}

/// Removes and returns the last character of `s` by calling std's
/// `String::pop`, whose body is not verified here: the contract claims that an
/// empty string stays empty and gives `None`, and that otherwise the last
/// character is returned and dropped from `s`.
#[verifier::external_body]
pub(crate) fn pop_char(s: &mut String) -> (r: Option<char>)
    ensures
        old(s)@.len() == 0 ==> r is None && final(s)@ == old(s)@,
        old(s)@.len() > 0 ==> r == Some(old(s)@.last()) && final(s)@ == old(s)@.drop_last(),
{
    s.pop()
}

/// Executable `fold_char`.
pub fn fold_code(c: char) -> (r: u32)
    ensures
        r == fold_char(c),
{
    let code = c as u32;
    if 65 <= code && code <= 90 {
        code + 32
    } else {
        code
    }
}

/// The characters of `s`, in order.
pub fn chars_of(s: &str) -> (r: Vec<char>)
    ensures
        r@ == s@,
{
    let n = s.unicode_len();
    let mut out: Vec<char> = Vec::new();
    let mut i: usize = 0;
    while i < n
        invariant
            n == s@.len(),
            i <= n,
            out@ == s@.subrange(0, i as int),
        decreases n - i,
    {
        let c = s.get_char(i);
        out.push(c);
        i = i + 1;
    }
    out
}

/// ASCII case-insensitive equality of the sub-ranges `a[a_from..a_to]` and `b`.
pub fn range_eq_ignore_case(a: &Vec<char>, a_from: usize, a_to: usize, b: &Vec<char>) -> (r: bool)
    requires
        a_from <= a_to <= a@.len(),
    ensures
        r == (fold(a@.subrange(a_from as int, a_to as int)) == fold(b@)),
{
    let len = a_to - a_from;
    if len != b.len() {
        proof {
            assert(fold(a@.subrange(a_from as int, a_to as int)).len() != fold(b@).len());
        }
        return false;
    }
    let mut i: usize = 0;
    while i < len
        invariant
            len == a_to - a_from,
            len == b@.len(),
            a_from <= a_to <= a@.len(),
            i <= len,
            forall|k: int| 0 <= k < i ==> fold_char(#[trigger] a@[a_from + k]) == fold_char(b@[k]),
        decreases len - i,
    {
        if fold_code(a[a_from + i]) != fold_code(b[i]) {
            proof {
                let fa = fold(a@.subrange(a_from as int, a_to as int));
                assert(fa[i as int] != fold(b@)[i as int]);
            }
            return false;
        }
        i = i + 1;
    }
    proof {
        let fa = fold(a@.subrange(a_from as int, a_to as int));
        assert forall|k: int| 0 <= k < len implies fa[k] == fold(b@)[k] by {
            assert(a@.subrange(a_from as int, a_to as int)[k] == a@[a_from + k]);
        }
        assert(fa =~= fold(b@));
    }
    true
}

} // verus!
