//! The href scanner.
//!
//! Link extraction scans HTML text for attribute occurrences of the shape
//!
//! ```text
//! href = "value"   |   href = 'value'   |   href = value
//! ```
//!
//! with `href` matched case-insensitively, optional whitespace around the
//! `=`, and the unquoted form running to the first quote, `>` or
//! whitespace.  All three forms are recognized and consumed, but only the
//! double-quoted form yields a candidate link; the other two are skipped.
//! Scanning is leftmost-first: the earliest position where the pattern
//! matches wins, and scanning resumes at the end of the match.
//!
//! `href_captures` is the specification; `find_hrefs` computes it.

use vstd::prelude::*;

verus! {

/// Whitespace as the scanner skips it: the Unicode white-space characters.
pub open spec fn is_ws(c: char) -> bool {
    ||| c == ' '
    ||| c == '\t'
    ||| c == '\n'
    ||| c == '\u{b}'
    ||| c == '\u{c}'
    ||| c == '\r'
    ||| c == '\u{85}'
    ||| c == '\u{a0}'
    ||| c == '\u{1680}'
    ||| (0x2000 <= c as u32 && c as u32 <= 0x200a)
    ||| c == '\u{2028}'
    ||| c == '\u{2029}'
    ||| c == '\u{202f}'
    ||| c == '\u{205f}'
    ||| c == '\u{3000}'
}

/// The characters that end an unquoted attribute value.
pub open spec fn is_term(c: char) -> bool {
    c == '\'' || c == '"' || c == '>' || is_ws(c)
}

/// The first position at or after `i` holding a non-whitespace character,
/// or the length when there is none.
pub open spec fn first_non_ws(s: Seq<char>, i: int) -> int
    decreases s.len() - i,
{
    if i < 0 {
        i
    } else if i >= s.len() {
        s.len() as int
    } else if is_ws(s[i]) {
        first_non_ws(s, i + 1)
    } else {
        i
    }
}

/// The first position at or after `i` holding `c`, or the length.
pub open spec fn first_char(s: Seq<char>, i: int, c: char) -> int
    decreases s.len() - i,
{
    if i < 0 {
        i
    } else if i >= s.len() {
        s.len() as int
    } else if s[i] == c {
        i
    } else {
        first_char(s, i + 1, c)
    }
}

/// The first position at or after `i` holding a terminator, or the length.
pub open spec fn first_term(s: Seq<char>, i: int) -> int
    decreases s.len() - i,
{
    if i < 0 {
        i
    } else if i >= s.len() {
        s.len() as int
    } else if is_term(s[i]) {
        i
    } else {
        first_term(s, i + 1)
    }
}

/// `href`, case-insensitively, starts at position `k`.
pub open spec fn href_at(s: Seq<char>, k: int) -> bool {
    &&& 0 <= k
    &&& k + 4 <= s.len()
    &&& (s[k] == 'h' || s[k] == 'H')
    &&& (s[k + 1] == 'r' || s[k + 1] == 'R')
    &&& (s[k + 2] == 'e' || s[k + 2] == 'E')
    &&& (s[k + 3] == 'f' || s[k + 3] == 'F')
}

/// A match attempt with `href` at position `k`: `None` when no attribute
/// pattern matches there, else the position one past the match together
/// with the captured value — present exactly for the double-quoted form.
pub open spec fn match_at(s: Seq<char>, k: int) -> Option<(int, Option<Seq<char>>)> {
    if !href_at(s, k) {
        None
    } else {
        let a = first_non_ws(s, k + 4);
        if a >= s.len() || s[a] != '=' {
            None
        } else {
            let b = first_non_ws(s, a + 1);
            if b >= s.len() {
                None
            } else if s[b] == '"' {
                let e = first_char(s, b + 1, '"');
                if e >= s.len() {
                    None
                } else {
                    Some((e + 1, Some(s.subrange(b + 1, e))))
                }
            } else if s[b] == '\'' {
                let e = first_char(s, b + 1, '\'');
                if e >= s.len() {
                    None
                } else {
                    Some((e + 1, None))
                }
            } else if s[b] == '>' {
                None
            } else {
                Some((first_term(s, b), None))
            }
        }
    }
}

/// The double-quoted values of all matches at or after `pos`, leftmost
/// first, each scan resuming one past the previous match.
pub open spec fn href_captures(s: Seq<char>, pos: int) -> Seq<Seq<char>>
    decreases s.len() - pos,
{
    if pos < 0 || pos >= s.len() {
        Seq::empty()
    } else {
        match match_at(s, pos) {
            Some(m) => {
                let nxt = if m.0 <= pos {
                    pos + 1
                } else if m.0 > s.len() {
                    s.len() as int
                } else {
                    m.0
                };
                match m.1 {
                    Some(c) => seq![c] + href_captures(s, nxt),
                    None => href_captures(s, nxt),
                }
            },
            None => href_captures(s, pos + 1),
        }
    }
}

/// Every double-quoted href value in `s`, in scan order.
pub open spec fn extract_hrefs(s: Seq<char>) -> Seq<Seq<char>> {
    href_captures(s, 0)
}

/// Whitespace test, as `is_ws` has it.
fn is_ws_char(c: char) -> (r: bool)
    ensures
        r == is_ws(c),
{
    c == ' ' || c == '\t' || c == '\n' || c == '\u{b}' || c == '\u{c}' || c == '\r' || c
        == '\u{85}' || c == '\u{a0}' || c == '\u{1680}' || (0x2000 <= c as u32 && c as u32
        <= 0x200a) || c == '\u{2028}' || c == '\u{2029}' || c == '\u{202f}' || c == '\u{205f}' || c
        == '\u{3000}'
}

/// Terminator test, as `is_term` has it.
fn is_term_char(c: char) -> (r: bool)
    ensures
        r == is_term(c),
{
    c == '\'' || c == '"' || c == '>' || is_ws_char(c)
}

/// Computes `first_non_ws`.
fn skip_ws(s: &Vec<char>, i: usize) -> (r: usize)
    requires
        i <= s@.len(),
    ensures
        r == first_non_ws(s@, i as int),
        i <= r <= s@.len(),
{
    let n = s.len();
    let mut cur: usize = i;
    loop
        invariant
            i <= cur <= n,
            n == s@.len(),
            first_non_ws(s@, i as int) == first_non_ws(s@, cur as int),
        decreases n - cur,
    {
        if cur == n {
            return cur;
        }
        if !is_ws_char(s[cur]) {
            return cur;
        }
        cur = cur + 1;
    }
}

/// Computes `first_char`.
fn find_char_from(s: &Vec<char>, i: usize, c: char) -> (r: usize)
    requires
        i <= s@.len(),
    ensures
        r == first_char(s@, i as int, c),
        i <= r <= s@.len(),
{
    let n = s.len();
    let mut cur: usize = i;
    loop
        invariant
            i <= cur <= n,
            n == s@.len(),
            first_char(s@, i as int, c) == first_char(s@, cur as int, c),
        decreases n - cur,
    {
        if cur == n {
            return cur;
        }
        if s[cur] == c {
            return cur;
        }
        cur = cur + 1;
    }
}

/// Computes `first_term`.
fn find_term_from(s: &Vec<char>, i: usize) -> (r: usize)
    requires
        i <= s@.len(),
    ensures
        r == first_term(s@, i as int),
        i <= r <= s@.len(),
{
    let n = s.len();
    let mut cur: usize = i;
    loop
        invariant
            i <= cur <= n,
            n == s@.len(),
            first_term(s@, i as int) == first_term(s@, cur as int),
        decreases n - cur,
    {
        if cur == n {
            return cur;
        }
        if is_term_char(s[cur]) {
            return cur;
        }
        cur = cur + 1;
    }
}

/// Copies `s[from..to]` into a fresh vector.
fn copy_range(s: &Vec<char>, from: usize, to: usize) -> (r: Vec<char>)
    requires
        from <= to <= s@.len(),
    ensures
        r@ == s@.subrange(from as int, to as int),
{
    let mut r: Vec<char> = Vec::new();
    let mut cur: usize = from;
    while cur < to
        invariant
            from <= cur <= to <= s@.len(),
            r@ =~= s@.subrange(from as int, cur as int),
        decreases to - cur,
    {
        r.push(s[cur]);
        proof {
            assert(r@ =~= s@.subrange(from as int, cur + 1 as int));
        }
        cur = cur + 1;
    }
    proof {
        assert(r@ =~= s@.subrange(from as int, to as int));
    }
    r
}

/// Computes `match_at` at position `k`, the capture copied out.
fn try_match(s: &Vec<char>, k: usize) -> (r: Option<(usize, Option<Vec<char>>)>)
    requires
        k < s@.len(),
    ensures
        match r {
            None => match_at(s@, k as int) is None,
            Some(m) => {
                &&& match_at(s@, k as int) matches Some(sm)
                &&& sm.0 == m.0 as int
                &&& k < m.0 <= s@.len()
                &&& match (m.1, sm.1) {
                    (Some(cv), Some(cs)) => cv@ == cs,
                    (None, None) => true,
                    _ => false,
                }
            },
        },
{
    let n = s.len();
    if n < 4 || k > n - 4 {
        return None;
    }
    let c0 = s[k];
    if !(c0 == 'h' || c0 == 'H') {
        return None;
    }
    let c1 = s[k + 1];
    if !(c1 == 'r' || c1 == 'R') {
        return None;
    }
    let c2 = s[k + 2];
    if !(c2 == 'e' || c2 == 'E') {
        return None;
    }
    let c3 = s[k + 3];
    if !(c3 == 'f' || c3 == 'F') {
        return None;
    }
    let a = skip_ws(s, k + 4);
    if a == n {
        return None;
    }
    if s[a] != '=' {
        return None;
    }
    let b = skip_ws(s, a + 1);
    if b == n {
        return None;
    }
    let cb = s[b];
    if cb == '"' {
        let e = find_char_from(s, b + 1, '"');
        if e == n {
            return None;
        }
        let cap = copy_range(s, b + 1, e);
        return Some((e + 1, Some(cap)));
    }
    if cb == '\'' {
        let e = find_char_from(s, b + 1, '\'');
        if e == n {
            return None;
        }
        return Some((e + 1, None));
    }
    if cb == '>' {
        return None;
    }
    let e = find_term_from(s, b);
    Some((e, None))
}

/// Scans `s` and returns every double-quoted href value, in scan order.
pub fn find_hrefs(s: &Vec<char>) -> (r: Vec<Vec<char>>)
    ensures
        r.deep_view() == extract_hrefs(s@),
{
    let n = s.len();
    let mut acc: Vec<Vec<char>> = Vec::new();
    let mut pos: usize = 0;
    while pos < n
        invariant
            pos <= n,
            n == s@.len(),
            extract_hrefs(s@) == acc.deep_view() + href_captures(s@, pos as int),
        decreases n - pos,
    {
        let ghost prev = pos as int;
        match try_match(s, pos) {
            None => {
                proof {
                    assert(href_captures(s@, prev) == href_captures(s@, prev + 1));
                }
                pos = pos + 1;
            },
            Some(m) => {
                let (end, cap) = m;
                match cap {
                    Some(cv) => {
                        proof {
                            let sm = match_at(s@, prev)->Some_0;
                            assert(href_captures(s@, prev) == seq![sm.1->Some_0]
                                + href_captures(s@, end as int));
                            assert(cv.deep_view() =~= cv@);
                        }
                        let ghost old_acc = acc.deep_view();
                        acc.push(cv);
                        proof {
                            assert(acc.deep_view() =~= old_acc.push(
                                match_at(s@, prev)->Some_0.1->Some_0,
                            ));
                            assert(old_acc + href_captures(s@, prev) =~= acc.deep_view()
                                + href_captures(s@, end as int));
                        }
                    },
                    None => {
                        proof {
                            assert(href_captures(s@, prev) == href_captures(s@, end as int));
                        }
                    },
                }
                pos = end;
            },
        }
    }
    proof {
        assert(href_captures(s@, pos as int) == Seq::<Seq<char>>::empty());
        assert(acc.deep_view() =~= acc.deep_view() + href_captures(s@, pos as int));
    }
    acc
}

} // verus!
