//! Small verified helpers for working with strings as sequences of
//! characters: equality, case-insensitive equality, prefix and substring
//! search.  The probe-output parsers and the matching engine are built on
//! these.

use vstd::prelude::*;

verus! {

/// Lower-cases a single character code, folding only the ASCII range.
pub open spec fn lower_code(u: u32) -> u32 {
    if 65 <= u && u <= 90 {
        (u + 32) as u32
    } else {
        u
    }
}

/// Two characters are equal up to ASCII case.
pub open spec fn char_eq_ci(a: char, b: char) -> bool {
    lower_code(a as u32) == lower_code(b as u32)
}

/// A character with its ASCII upper-case range folded to lower case;
/// every other character is left as it is.
pub open spec fn ascii_lower_char(c: char) -> char {
    if 65 <= c as u32 && c as u32 <= 90 {
        ((c as u32 + 32) as u32) as char
    } else {
        c
    }
}

/// A character sequence with its ASCII letters folded to lower case.
pub open spec fn lower_seq(s: Seq<char>) -> Seq<char> {
    Seq::new(s.len(), |i: int| ascii_lower_char(s[i]))
}

/// Copy of `s` with its ASCII letters folded to lower case.
pub fn ascii_lower(s: &str) -> (r: String)
    ensures
        r@ == lower_seq(s@),
{
    let n = s.unicode_len();
    let mut out = String::new();
    let mut i: usize = 0;
    proof {
        assert(out@ =~= lower_seq(s@).take(0));
    }
    while i < n
        invariant
            n == s@.len(),
            0 <= i <= n,
            out@ == lower_seq(s@).take(i as int),
        decreases n - i,
    {
        let c = s.get_char(i);
        let u = c as u32;
        if 65 <= u && u <= 90 {
            let alphabet = "abcdefghijklmnopqrstuvwxyz";
            proof {
                reveal_strlit("abcdefghijklmnopqrstuvwxyz");
            }
            let idx = (u - 65) as usize;
            let piece = alphabet.substring_char(idx, idx + 1);
            proof {
                assert(piece@ =~= seq![alphabet@[idx as int]]);
                assert(alphabet@[idx as int] == ascii_lower_char(s@[i as int]));
            }
            out = out.concat(piece);
        } else {
            let piece = s.substring_char(i, i + 1);
            proof {
                assert(piece@ =~= seq![s@[i as int]]);
            }
            out = out.concat(piece);
        }
        i += 1;
        proof {
            assert(out@ =~= lower_seq(s@).take(i as int));
        }
    }
    proof {
        assert(out@ =~= lower_seq(s@));
    }
    out
}

/// Two character sequences are equal up to ASCII case.
pub open spec fn seq_eq_ci(a: Seq<char>, b: Seq<char>) -> bool {
    a.len() == b.len() && forall|i: int| 0 <= i < a.len() ==> char_eq_ci(a[i], b[i])
}

/// String equality by contents.
pub fn str_eq(a: &str, b: &str) -> (r: bool)
    ensures
        r == (a@ == b@),
{
    let x: String = a.to_owned();
    let y: String = b.to_owned();
    x == y
}

/// Case-insensitive string equality, folding only ASCII letters.
pub fn str_eq_ci(a: &str, b: &str) -> (r: bool)
    ensures
        r == seq_eq_ci(a@, b@),
{
    let n = a.unicode_len();
    if n != b.unicode_len() {
        return false;
    }
    let mut i: usize = 0;
    while i < n
        invariant
            n == a@.len(),
            n == b@.len(),
            i <= n,
            forall|j: int| 0 <= j < i ==> char_eq_ci(a@[j], b@[j]),
        decreases n - i,
    {
        let ca = a.get_char(i);
        let cb = b.get_char(i);
        let ua = ca as u32;
        let ub = cb as u32;
        let la: u32 = if 65 <= ua && ua <= 90 {
            ua + 32
        } else {
            ua
        };
        let lb: u32 = if 65 <= ub && ub <= 90 {
            ub + 32
        } else {
            ub
        };
        if la != lb {
            return false;
        }
        i += 1;
    }
    true
}

/// Whether the pattern stands in `s` at position `i`.
pub open spec fn match_at(s: Seq<char>, pat: Seq<char>, i: int) -> bool {
    0 <= i && i + pat.len() <= s.len() && s.subrange(i, i + pat.len()) == pat
}

/// Position of the first occurrence of the pattern at or after `i`.
pub open spec fn find_from(s: Seq<char>, pat: Seq<char>, i: int) -> Option<int>
    decreases s.len() - i,
{
    if i < 0 || i + pat.len() > s.len() {
        None
    } else if pat.len() == 0 {
        Some(i)
    } else if s.subrange(i, i + pat.len()) == pat {
        Some(i)
    } else {
        find_from(s, pat, i + 1)
    }
}

/// Whether the pattern occurs anywhere in `s`.
pub open spec fn contains_sub(s: Seq<char>, pat: Seq<char>) -> bool {
    find_from(s, pat, 0) is Some
}

/// A found position lies in range and leaves room for the pattern.
pub proof fn lemma_find_from(s: Seq<char>, pat: Seq<char>, i: int)
    ensures
        match find_from(s, pat, i) {
            Some(p) => i <= p && 0 <= p && p + pat.len() <= s.len(),
            None => true,
        },
    decreases s.len() - i,
{
    if !(i < 0 || i + pat.len() > s.len()) && pat.len() != 0 && s.subrange(i, i + pat.len())
        != pat {
        lemma_find_from(s, pat, i + 1);
    }
}

/// Position of the first occurrence of the pattern at or after `i`,
/// comparing up to ASCII case.
pub open spec fn find_from_ci(s: Seq<char>, pat: Seq<char>, i: int) -> Option<int>
    decreases s.len() - i,
{
    if i < 0 || i + pat.len() > s.len() {
        None
    } else if pat.len() == 0 {
        Some(i)
    } else if seq_eq_ci(s.subrange(i, i + pat.len()), pat) {
        Some(i)
    } else {
        find_from_ci(s, pat, i + 1)
    }
}

/// Whether the pattern occurs anywhere in `s`, up to ASCII case.
pub open spec fn contains_ci(s: Seq<char>, pat: Seq<char>) -> bool {
    find_from_ci(s, pat, 0) is Some
}

/// Whether the pattern stands at position `i`, checked character by
/// character.
fn match_at_exec(s: &str, pat: &str, i: usize) -> (r: bool)
    requires
        i + pat@.len() <= s@.len(),
    ensures
        r == match_at(s@, pat@, i as int),
{
    let n = s.unicode_len();
    let m = pat.unicode_len();
    let mut j: usize = 0;
    while j < m
        invariant
            n == s@.len(),
            m == pat@.len(),
            i + m <= n,
            0 <= j <= m,
            forall|k: int| 0 <= k < j ==> s@[i + k] == pat@[k],
        decreases m - j,
    {
        if s.get_char(i + j) != pat.get_char(j) {
            proof {
                assert(s@.subrange(i as int, i + m) [j as int] == s@[i + j]);
                assert(s@.subrange(i as int, i + m) != pat@);
            }
            return false;
        }
        j += 1;
    }
    proof {
        assert(s@.subrange(i as int, i + m) =~= pat@);
    }
    true
}

/// Whether the pattern stands at position `i` up to ASCII case, checked
/// character by character.
fn match_at_ci_exec(s: &str, pat: &str, i: usize) -> (r: bool)
    requires
        i + pat@.len() <= s@.len(),
    ensures
        r == seq_eq_ci(s@.subrange(i as int, i + pat@.len()), pat@),
{
    let n = s.unicode_len();
    let m = pat.unicode_len();
    let mut j: usize = 0;
    while j < m
        invariant
            n == s@.len(),
            m == pat@.len(),
            i + m <= n,
            0 <= j <= m,
            forall|k: int| 0 <= k < j ==> char_eq_ci(s@[i + k], pat@[k]),
        decreases m - j,
    {
        let ca = s.get_char(i + j);
        let cb = pat.get_char(j);
        let ua = ca as u32;
        let ub = cb as u32;
        let la: u32 = if 65 <= ua && ua <= 90 {
            ua + 32
        } else {
            ua
        };
        let lb: u32 = if 65 <= ub && ub <= 90 {
            ub + 32
        } else {
            ub
        };
        if la != lb {
            proof {
                assert(s@.subrange(i as int, i + m) [j as int] == s@[i + j]);
                assert(!char_eq_ci(s@[i + j], pat@[j as int]));
            }
            return false;
        }
        j += 1;
    }
    proof {
        assert(forall|k: int|
            0 <= k < m ==> #[trigger] s@.subrange(i as int, i + m) [k] == s@[i + k]);
    }
    true
}

/// First occurrence of the pattern, scanning from the start.
pub fn find_sub(s: &str, pat: &str) -> (r: Option<usize>)
    ensures
        match r {
            Some(i) => find_from(s@, pat@, 0) == Some(i as int),
            None => find_from(s@, pat@, 0) is None,
        },
{
    let n = s.unicode_len();
    let m = pat.unicode_len();
    if m > n {
        return None;
    }
    if m == 0 {
        return Some(0);
    }
    let mut i: usize = 0;
    while i <= n - m
        invariant
            1 <= m <= n,
            n == s@.len(),
            m == pat@.len(),
            0 <= i <= n - m + 1,
            find_from(s@, pat@, 0) == find_from(s@, pat@, i as int),
        decreases n - i,
    {
        if match_at_exec(s, pat, i) {
            return Some(i);
        }
        i += 1;
    }
    proof {
        assert(find_from(s@, pat@, i as int) is None);
    }
    None
}

/// First occurrence of the pattern, up to ASCII case.
pub fn find_sub_ci(s: &str, pat: &str) -> (r: Option<usize>)
    ensures
        match r {
            Some(i) => find_from_ci(s@, pat@, 0) == Some(i as int),
            None => find_from_ci(s@, pat@, 0) is None,
        },
{
    let n = s.unicode_len();
    let m = pat.unicode_len();
    if m > n {
        return None;
    }
    if m == 0 {
        return Some(0);
    }
    let mut i: usize = 0;
    while i <= n - m
        invariant
            1 <= m <= n,
            n == s@.len(),
            m == pat@.len(),
            0 <= i <= n - m + 1,
            find_from_ci(s@, pat@, 0) == find_from_ci(s@, pat@, i as int),
        decreases n - i,
    {
        if match_at_ci_exec(s, pat, i) {
            return Some(i);
        }
        i += 1;
    }
    proof {
        assert(find_from_ci(s@, pat@, i as int) is None);
    }
    None
}

/// Whether `s` starts with the pattern.
pub fn starts_with(s: &str, pat: &str) -> (r: bool)
    ensures
        r == pat@.is_prefix_of(s@),
{
    let n = s.unicode_len();
    let m = pat.unicode_len();
    if m > n {
        return false;
    }
    let mut j: usize = 0;
    while j < m
        invariant
            m <= n,
            n == s@.len(),
            m == pat@.len(),
            0 <= j <= m,
            forall|k: int| 0 <= k < j ==> s@[k] == pat@[k],
        decreases m - j,
    {
        if s.get_char(j) != pat.get_char(j) {
            proof {
                assert(s@.subrange(0, m as int)[j as int] == s@[j as int]);
            }
            return false;
        }
        j += 1;
    }
    proof {
        assert(pat@ =~= s@.subrange(0, m as int));
    }
    true
}

/// Whether a character counts as trimmable whitespace.
pub open spec fn is_ws(c: char) -> bool {
    c == ' ' || c == '\t' || c == '\r' || c == '\n'
}

/// Position of the first non-whitespace character at or after `i`, or
/// the length.
pub open spec fn first_non_ws(s: Seq<char>, i: int) -> int
    decreases s.len() - i,
{
    if i < 0 || i >= s.len() {
        s.len() as int
    } else if !is_ws(s[i]) {
        i
    } else {
        first_non_ws(s, i + 1)
    }
}

/// Position one past the last non-whitespace character before `i`, or
/// zero.
pub open spec fn last_non_ws(s: Seq<char>, i: int) -> int
    decreases i,
{
    if i <= 0 || i > s.len() {
        0
    } else if !is_ws(s[i - 1]) {
        i
    } else {
        last_non_ws(s, i - 1)
    }
}

/// `s` without leading and trailing whitespace.
pub open spec fn spec_trim(s: Seq<char>) -> Seq<char> {
    let a = first_non_ws(s, 0);
    let b = last_non_ws(s, s.len() as int);
    if a < b {
        s.subrange(a, b)
    } else {
        Seq::empty()
    }
}

/// Index of the first non-whitespace character.
fn first_non_ws_exec(s: &str) -> (a: usize)
    ensures
        a <= s@.len(),
        a as int == first_non_ws(s@, 0),
{
    let n = s.unicode_len();
    let mut a: usize = 0;
    while a < n
        invariant
            n == s@.len(),
            0 <= a <= n,
            first_non_ws(s@, 0) == first_non_ws(s@, a as int),
        decreases n - a,
    {
        let c = s.get_char(a);
        if !(c == ' ' || c == '\t' || c == '\r' || c == '\n') {
            proof {
                assert(first_non_ws(s@, a as int) == a);
            }
            return a;
        }
        a += 1;
    }
    a
}

/// Index one past the last non-whitespace character.
fn last_non_ws_exec(s: &str) -> (b: usize)
    ensures
        b <= s@.len(),
        b as int == last_non_ws(s@, s@.len() as int),
{
    let n = s.unicode_len();
    let mut b: usize = n;
    while b > 0
        invariant
            n == s@.len(),
            0 <= b <= n,
            last_non_ws(s@, n as int) == last_non_ws(s@, b as int),
        decreases b,
    {
        let c = s.get_char(b - 1);
        if !(c == ' ' || c == '\t' || c == '\r' || c == '\n') {
            proof {
                assert(last_non_ws(s@, b as int) == b);
            }
            return b;
        }
        b -= 1;
    }
    b
}

/// Copy of `s` without leading and trailing whitespace.
pub fn trim(s: &str) -> (r: String)
    ensures
        r@ == spec_trim(s@),
{
    let a = first_non_ws_exec(s);
    let b = last_non_ws_exec(s);
    if a < b {
        s.substring_char(a, b).to_owned()
    } else {
        proof {
            assert(spec_trim(s@) =~= Seq::<char>::empty());
        }
        String::new()
    }
}

} // verus!
