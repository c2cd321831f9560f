//! Character-level text utilities: turning strings into character vectors
//! and substring search, the primitive behind admissibility filtering and
//! content-type classification.

use vstd::prelude::*;
use vstd::string::StrSliceExecFns;

verus! {

/// What lossy UTF-8 decoding yields for a byte sequence.
pub uninterp spec fn lossy_utf8(bytes: Seq<u8>) -> Seq<char>;

/// Decodes bytes as UTF-8, invalid sequences replaced.
///
/// Relies on `String::from_utf8_lossy`: the decoding is a function of the
/// bytes alone.
#[verifier::external_body]
pub(crate) fn lossy_chars(bytes: &[u8]) -> (r: Vec<char>)
    ensures
        r@ == lossy_utf8(bytes@),
{
    String::from_utf8_lossy(bytes).chars().collect()
}

/// Builds the string holding exactly the given characters, in order.
///
/// Relies on the standard `FromIterator<char> for String`: collecting
/// characters yields the string of those characters.
#[verifier::external_body]
pub(crate) fn chars_to_string(v: &Vec<char>) -> (r: String)
    ensures
        r@ == v@,
{
    v.iter().collect()
}

/// A decimal digit.
pub open spec fn is_digit(c: char) -> bool {
    0x30 <= c as u32 <= 0x39
}

/// The numeric value of a digit string, most significant digit first.
pub open spec fn digits_value(s: Seq<char>) -> int
    decreases s.len(),
{
    if s.len() == 0 {
        0
    } else {
        digits_value(s.drop_last()) * 10 + (s.last() as u32 - 0x30)
    }
}

/// `needle` occurs in `hay` starting exactly at index `i`.
pub open spec fn is_sub_at(hay: Seq<char>, needle: Seq<char>, i: int) -> bool {
    &&& 0 <= i
    &&& i + needle.len() <= hay.len()
    &&& hay.subrange(i, i + needle.len() as int) == needle
}

/// `needle` occurs somewhere in `hay` as a contiguous substring.
pub open spec fn contains_sub(hay: Seq<char>, needle: Seq<char>) -> bool {
    exists|i: int| is_sub_at(hay, needle, i)
}

/// Copies the characters of a string slice into a vector, in order.
pub fn str_to_chars(s: &str) -> (r: Vec<char>)
    ensures
        r@ == s@,
{
    let n = s.unicode_len();
    let mut r: Vec<char> = Vec::new();
    let mut i: usize = 0;
    while i < n
        invariant
            i <= n,
            n == s@.len(),
            r@ =~= s@.subrange(0, i as int),
        decreases n - i,
    {
        r.push(s.get_char(i));
        i = i + 1;
    }
    proof {
        assert(r@ =~= s@);
    }
    r
}

/// `needle` occurs in `hay` exactly at index `i`.
fn matches_at(hay: &Vec<char>, needle: &Vec<char>, i: usize) -> (r: bool)
    requires
        i + needle@.len() <= hay@.len(),
    ensures
        r == is_sub_at(hay@, needle@, i as int),
{
    let hn = hay.len();
    let mut j: usize = 0;
    while j < needle.len()
        invariant
            j <= needle@.len(),
            i + needle@.len() <= hay@.len(),
            hay@.len() == hn,
            forall|k: int| 0 <= k < j ==> hay@[i + k] == needle@[k],
        decreases needle@.len() - j,
    {
        if hay[i + j] != needle[j] {
            proof {
                assert(!is_sub_at(hay@, needle@, i as int)) by {
                    if is_sub_at(hay@, needle@, i as int) {
                        assert(hay@.subrange(i as int, i + needle@.len() as int)[j as int]
                            == needle@[j as int]);
                    }
                }
            }
            return false;
        }
        j = j + 1;
    }
    proof {
        assert(hay@.subrange(i as int, i + needle@.len() as int) =~= needle@);
    }
    true
}

/// Substring search: does `needle` occur anywhere in `hay`?
pub fn contains_chars(hay: &Vec<char>, needle: &Vec<char>) -> (r: bool)
    ensures
        r == contains_sub(hay@, needle@),
{
    if needle.len() > hay.len() {
        proof {
            assert(!contains_sub(hay@, needle@)) by {
                if contains_sub(hay@, needle@) {
                    let w = choose|k: int| is_sub_at(hay@, needle@, k);
                    assert(w + needle@.len() <= hay@.len());
                }
            }
        }
        return false;
    }
    if needle.len() == 0 {
        proof {
            assert(is_sub_at(hay@, needle@, 0)) by {
                assert(hay@.subrange(0, 0) =~= needle@);
            }
        }
        return true;
    }
    let hn = hay.len();
    let last = hay.len() - needle.len();
    let mut i: usize = 0;
    loop
        invariant
            i <= last + 1,
            last == hay@.len() - needle@.len(),
            1 <= needle@.len() <= hay@.len(),
            hay@.len() == hn,
            forall|k: int| 0 <= k < i ==> !is_sub_at(hay@, needle@, k),
        decreases last + 1 - i,
    {
        if i > last {
            proof {
                assert(!contains_sub(hay@, needle@)) by {
                    if contains_sub(hay@, needle@) {
                        let w = choose|k: int| is_sub_at(hay@, needle@, k);
                        assert(w <= last);
                    }
                }
            }
            return false;
        }
        if matches_at(hay, needle, i) {
            return true;
        }
        i = i + 1;
    }
}

} // verus!
