//! Verified string comparisons: equality, the three-way lexicographic
//! order by code point, and its ASCII-case-insensitive variant.

use vstd::prelude::*;
use vstd::string::StrSliceExecFns;

verus! {

/// Whether two string slices hold the same characters.
pub fn str_eq(a: &str, b: &str) -> (r: bool)
    ensures
        r == (a@ == b@),
{
    let la = a.unicode_len();
    let lb = b.unicode_len();
    if la != lb {
        return false;
    }
    let mut i: usize = 0;
    while i < la
        invariant
            la == a@.len(),
            la == b@.len(),
            0 <= i <= la,
            forall|j: int| 0 <= j < i ==> a@[j] == b@[j],
        decreases la - i,
    {
        if a.get_char(i) != b.get_char(i) {
            return false;
        }
        i = i + 1;
    }
    proof {
        assert(a@ =~= b@);
    }
    true
}

/// The code point of a character with ASCII capitals folded to their
/// small forms; all other characters stand as they are.
pub open spec fn fold_cp(c: char) -> u32 {
    if 65 <= c as u32 <= 90 {
        (c as u32 + 32) as u32
    } else {
        c as u32
    }
}

/// The three-way lexicographic comparison of two character sequences
/// from position `i` on: `-1`, `0` or `1`.  With the identity key it is
/// the order of `str` itself, since UTF-8 byte order agrees with code
/// point order.
pub open spec fn cmp_from(a: Seq<char>, b: Seq<char>, i: int, icase: bool) -> i8
    decreases
            (if i < a.len() {
                a.len() - i
            } else {
                0
            }),
{
    if i >= a.len() || i >= b.len() {
        if a.len() == b.len() {
            0i8
        } else if a.len() < b.len() {
            -1i8
        } else {
            1i8
        }
    } else {
        let ca = if icase {
            fold_cp(a[i])
        } else {
            a[i] as u32
        };
        let cb = if icase {
            fold_cp(b[i])
        } else {
            b[i] as u32
        };
        if ca < cb {
            -1i8
        } else if ca > cb {
            1i8
        } else {
            cmp_from(a, b, i + 1, icase)
        }
    }
}

/// The three-way lexicographic comparison of two strings by code point.
pub open spec fn spec_str_cmp(a: Seq<char>, b: Seq<char>) -> i8 {
    cmp_from(a, b, 0, false)
}

/// The same comparison with ASCII capitals folded to small forms first.
pub open spec fn spec_str_cmp_icase(a: Seq<char>, b: Seq<char>) -> i8 {
    cmp_from(a, b, 0, true)
}

/// Three-way comparison of two string slices, by code point, or with
/// ASCII case folded when `icase` is set.
pub fn str_cmp3(a: &str, b: &str, icase: bool) -> (r: i8)
    ensures
        r == cmp_from(a@, b@, 0, icase),
{
    let la = a.unicode_len();
    let lb = b.unicode_len();
    let mut i: usize = 0;
    loop
        invariant
            la == a@.len(),
            lb == b@.len(),
            0 <= i <= la,
            0 <= i <= lb,
            cmp_from(a@, b@, 0, icase) == cmp_from(a@, b@, i as int, icase),
        decreases la - i,
    {
        if i >= la || i >= lb {
            return if la == lb {
                0
            } else if la < lb {
                -1
            } else {
                1
            };
        }
        let ca = a.get_char(i) as u32;
        let cb = b.get_char(i) as u32;
        let ca = if icase && 65 <= ca && ca <= 90 {
            ca + 32
        } else {
            ca
        };
        let cb = if icase && 65 <= cb && cb <= 90 {
            cb + 32
        } else {
            cb
        };
        if ca < cb {
            return -1;
        }
        if ca > cb {
            return 1;
        }
        i = i + 1;
    }
}

/// Relies on `str::chars`: the characters of a string, in order.
#[verifier::external_body]
pub fn chars_of(s: &str) -> (r: Vec<char>)
    ensures
        r@ == s@,
{
    s.chars().collect()
}

/// Relies on `String`'s `FromIterator<char>`: the string holding
/// exactly the given characters, in order.
#[verifier::external_body]
pub fn string_of_chars(v: &Vec<char>) -> (r: String)
    ensures
        r@ == v@,
{
    v.iter().collect()
}

/// Relies on `char::from_u32`: the character of a code point, `None`
/// exactly for surrogates and values beyond the last scalar.
#[verifier::external_body]
pub fn char_of_u32(x: u32) -> (r: Option<char>)
    ensures
        r matches Some(c) ==> c as u32 == x,
        r is None <==> (0xD800 <= x < 0xE000 || x > 0x10FFFF),
{
    char::from_u32(x)
}

} // verus!
