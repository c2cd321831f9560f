//! Command-line arguments: `crawler URL OUT_DIR NUM_THREADS`.

use crate::chars::{digits_value, is_digit, str_to_chars};
use crate::error::CrawlerError;
use vstd::prelude::*;
use vstd::string::StringExecFns;

verus! {

/// A string the thread count accepts: nonempty, all digits, in range.
pub open spec fn is_usize_string(s: Seq<char>) -> bool {
    &&& s.len() >= 1
    &&& forall|i: int| 0 <= i < s.len() ==> is_digit(#[trigger] s[i])
    &&& digits_value(s) <= usize::MAX
}

/// The value of a digit string is never negative.
proof fn lemma_digits_value_nonneg(s: Seq<char>)
    requires
        forall|i: int| 0 <= i < s.len() ==> is_digit(#[trigger] s[i]),
    ensures
        digits_value(s) >= 0,
    decreases s.len(),
{
    if s.len() > 0 {
        assert(forall|i: int|
            0 <= i < s.drop_last().len() ==> is_digit(#[trigger] s.drop_last()[i]));
        lemma_digits_value_nonneg(s.drop_last());
    }
}

/// Every prefix of a digit string has a value no larger than the whole.
proof fn lemma_digits_prefix_le(s: Seq<char>, i: int)
    requires
        forall|k: int| 0 <= k < s.len() ==> is_digit(#[trigger] s[k]),
        0 <= i <= s.len(),
    ensures
        digits_value(s.subrange(0, i)) <= digits_value(s),
    decreases s.len() - i,
{
    if i == s.len() {
        assert(s.subrange(0, i) =~= s);
    } else {
        lemma_digits_prefix_le(s, i + 1);
        let a = s.subrange(0, i);
        let b = s.subrange(0, i + 1);
        assert(b.drop_last() =~= a);
        assert(forall|k: int| 0 <= k < a.len() ==> is_digit(#[trigger] a[k]));
        lemma_digits_value_nonneg(a);
        assert(digits_value(b) == digits_value(a) * 10 + (s[i] as u32 - 0x30));
    }
}

/// Parses a decimal digit string.
pub fn parse_usize(s: &str) -> (r: usize)
    requires
        is_usize_string(s@),
    ensures
        r == digits_value(s@),
{
    let chars = str_to_chars(s);
    let n = chars.len();
    let mut acc: usize = 0;
    let mut i: usize = 0;
    while i < n
        invariant
            i <= n,
            n == chars@.len(),
            chars@ == s@,
            is_usize_string(s@),
            acc == digits_value(s@.subrange(0, i as int)),
        decreases n - i,
    {
        let d = (chars[i] as u32 - 0x30) as usize;
        proof {
            assert(s@.subrange(0, i as int + 1).drop_last() =~= s@.subrange(0, i as int));
            assert(s@.subrange(0, i as int + 1).last() == s@[i as int]);
            lemma_digits_prefix_le(s@, i as int + 1);
        }
        acc = acc * 10 + d;
        i = i + 1;
    }
    proof {
        assert(s@.subrange(0, n as int) =~= s@);
    }
    acc
}

/// The parsed command line: the seed URL, the output directory, and the
/// worker count.
#[derive(Debug, PartialEq)]
pub struct Args {
    pub url: String,
    pub out_dir: String,
    pub num_threads: usize,
}

impl Args {
    /// Parses `argv`: the program name and exactly three arguments, the
    /// third a thread count.  Anything else is a usage error.
    pub fn new(args: &Vec<String>) -> (r: Result<Args, CrawlerError>)
        requires
            args.deep_view().len() == 4 ==> is_usize_string(args.deep_view()[3]),
        ensures
            args.deep_view().len() == 4 ==> (r matches Ok(a) && a.url@ == args.deep_view()[1]
                && a.out_dir@ == args.deep_view()[2] && a.num_threads == digits_value(
                args.deep_view()[3],
            )),
            args.deep_view().len() != 4 ==> (r matches Err(e) && e matches
                CrawlerError::ParsingError(m) && m@ == "Usage: crawler URL OUT_DIR NUM_THREADS"@),
    {
        if args.len() == 4 {
            let url = args[1].clone();
            let out_dir = args[2].clone();
            proof {
                assert(args.deep_view()[1] == args@[1]@);
                assert(args.deep_view()[2] == args@[2]@);
                assert(args.deep_view()[3] == args@[3]@);
            }
            let num_threads = parse_usize(args[3].as_str());
            Ok(Args { url, out_dir, num_threads })
        } else {
            Err(
                CrawlerError::ParsingError(
                    String::from_str("Usage: crawler URL OUT_DIR NUM_THREADS"),
                ),
            )
        }
    }
}

} // verus!
