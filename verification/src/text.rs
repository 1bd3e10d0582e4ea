//! Text primitives shared by the scanner, the tokenizer and the compiler:
//! substring search, whitespace trimming, character classes, string equality
//! and decimal rendering of numbers, each specified over `Seq<char>`.

use vstd::prelude::*;
use vstd::string::*;

verus! {

// ---------------------------------------------------------------------------
// Character classes
// ---------------------------------------------------------------------------

/// What `char::is_whitespace` returns for a character outside the four
/// ASCII whitespace characters (the Unicode `White_Space` property); a pure
/// function of the character alone.
pub uninterp spec fn unicode_whitespace(c: char) -> bool;

/// A whitespace character.  The four ASCII cases are definitional, so that
/// proofs can rely on them; the rest of the Unicode `White_Space` property
/// is carried by the name `unicode_whitespace`.
pub open spec fn whitespace(c: char) -> bool {
    c == ' ' || c == '\t' || c == '\n' || c == '\r' || unicode_whitespace(c)
}

/// Relies on `char::is_whitespace`: the result depends on the character
/// alone.  The four ASCII whitespace characters have the documented
/// `White_Space` property, so the disjunction in `whitespace` is exactly
/// what the call returns.
#[verifier::external_body]
pub fn is_whitespace_char(c: char) -> (r: bool)
    ensures
        r == (c == ' ' || c == '\t' || c == '\n' || c == '\r' || unicode_whitespace(c)),
{
    c.is_whitespace()
}

/// What `char::is_alphabetic` returns for a character (a Unicode letter);
/// a pure function of the character alone.
pub uninterp spec fn alphabetic(c: char) -> bool;

/// Relies on `char::is_alphabetic`: the result depends on the character
/// alone, so it is named by the spec function `alphabetic`.
#[verifier::external_body]
pub fn is_alphabetic_char(c: char) -> (r: bool)
    ensures
        r == alphabetic(c),
{
    c.is_alphabetic()
}

// ---------------------------------------------------------------------------
// Substring search
// ---------------------------------------------------------------------------

/// The pattern `pat` occurs in `s` at position `i`.
pub open spec fn match_at(s: Seq<char>, pat: Seq<char>, i: int) -> bool {
    0 <= i && i + pat.len() <= s.len() && s.subrange(i, i + pat.len() as int) == pat
}

/// The first position at or after `i` where `pat` occurs in `s`.
pub open spec fn find_from(s: Seq<char>, pat: Seq<char>, i: int) -> Option<int>
    decreases s.len() - i,
{
    if i < 0 || i + pat.len() > s.len() {
        None
    } else if s.subrange(i, i + pat.len() as int) == pat {
        Some(i)
    } else {
        proof {
            if pat.len() == 0 {
                assert(s.subrange(i, i + pat.len() as int) =~= pat);
            }
        }
        find_from(s, pat, i + 1)
    }
}

/// A found position is a real match, lies in range, and is the first one.
pub proof fn lemma_find_from_found(s: Seq<char>, pat: Seq<char>, i: int)
    requires
        find_from(s, pat, i) is Some,
    ensures
        ({
            let j = find_from(s, pat, i)->Some_0;
            i <= j && match_at(s, pat, j) && forall|k: int| i <= k < j ==> !match_at(s, pat, k)
        }),
    decreases s.len() - i,
{
    if !(i < 0 || i + pat.len() > s.len()) && s.subrange(i, i + pat.len() as int) != pat {
        if pat.len() == 0 {
            assert(s.subrange(i, i + pat.len() as int) =~= pat);
        }
        lemma_find_from_found(s, pat, i + 1);
    }
}

/// If no match stands at or after `i`, the search from `i` fails.
pub proof fn lemma_no_match_find_none(s: Seq<char>, pat: Seq<char>, i: int)
    requires
        0 <= i,
        forall|k: int| i <= k ==> !match_at(s, pat, k),
    ensures
        find_from(s, pat, i) is None,
    decreases s.len() - i,
{
    if !(i + pat.len() > s.len()) {
        if pat.len() == 0 {
            assert(s.subrange(i, i) =~= pat);
            assert(match_at(s, pat, i));
        } else {
            assert(!match_at(s, pat, i));
            lemma_no_match_find_none(s, pat, i + 1);
        }
    }
}

/// A match at `j` with none between `i` and `j` is what the search finds.
pub proof fn lemma_find_from_exact(s: Seq<char>, pat: Seq<char>, i: int, j: int)
    requires
        0 <= i <= j,
        match_at(s, pat, j),
        forall|k: int| i <= k < j ==> !match_at(s, pat, k),
    ensures
        find_from(s, pat, i) == Some(j),
    decreases j - i,
{
    if i < j {
        assert(!match_at(s, pat, i));
        lemma_find_from_exact(s, pat, i + 1, j);
    }
}

/// Compares `pat` with the characters of `s` at position `i`.
pub fn is_match_at(s: &str, pat: &str, i: usize, p_len: usize) -> (r: bool)
    requires
        p_len == pat@.len(),
        i + p_len <= s@.len(),
        s@.len() <= usize::MAX,
    ensures
        r == match_at(s@, pat@, i as int),
{
    let mut j: usize = 0;
    while j < p_len
        invariant
            0 <= j <= p_len,
            p_len == pat@.len(),
            i + p_len <= s@.len(),
            s@.len() <= usize::MAX,
            forall|k: int| 0 <= k < j ==> s@[i + k] == pat@[k],
        decreases p_len - j,
    {
        if s.get_char(i + j) != pat.get_char(j) {
            assert(!match_at(s@, pat@, i as int)) by {
                if match_at(s@, pat@, i as int) {
                    assert(s@.subrange(i as int, i + pat@.len() as int)[j as int] == s@[i + j]);
                }
            }
            return false;
        }
        j += 1;
    }
    assert(s@.subrange(i as int, i + pat@.len() as int) =~= pat@);
    true
}

/// The first occurrence of `pat` in `s` at or after position `from`.
pub fn find_pat(s: &str, pat: &str, from: usize) -> (r: Option<usize>)
    requires
        from <= s@.len(),
    ensures
        match r {
            Some(i) => {
                &&& find_from(s@, pat@, from as int) == Some(i as int)
                &&& from <= i
                &&& i + pat@.len() <= s@.len()
            },
            None => find_from(s@, pat@, from as int) is None,
        },
{
    let s_len = s.unicode_len();
    let p_len = pat.unicode_len();
    let mut i = from;
    loop
        invariant
            from <= i <= s_len,
            s_len == s@.len(),
            p_len == pat@.len(),
            find_from(s@, pat@, from as int) == find_from(s@, pat@, i as int),
        decreases s_len - i,
    {
        if p_len > s_len - i {
            assert(find_from(s@, pat@, i as int) is None);
            return None;
        }
        if is_match_at(s, pat, i, p_len) {
            assert(find_from(s@, pat@, i as int) == Some(i as int));
            return Some(i);
        }
        proof {
            // An empty pattern would already have matched, so the pattern
            // is non-empty here and the search can step forward.
            if p_len == 0 {
                assert(s@.subrange(i as int, i as int) =~= pat@);
                assert(false);
            }
        }
        assert(find_from(s@, pat@, i as int) == find_from(s@, pat@, i + 1));
        i += 1;
    }
}

/// The last position strictly before `end` where the character `c` stands.
pub open spec fn rfind_char(s: Seq<char>, c: char, end: int) -> Option<int>
    decreases end,
{
    if end <= 0 || end > s.len() {
        None
    } else if s[end - 1] == c {
        Some(end - 1)
    } else {
        rfind_char(s, c, end - 1)
    }
}

/// The last occurrence of `c` in `s` strictly before position `end`.
pub fn rfind_char_before(s: &str, c: char, end: usize) -> (r: Option<usize>)
    requires
        end <= s@.len(),
    ensures
        match r {
            Some(i) => rfind_char(s@, c, end as int) == Some(i as int) && i < end,
            None => rfind_char(s@, c, end as int) is None,
        },
{
    let mut i = end;
    while i > 0
        invariant
            0 <= i <= end <= s@.len(),
            rfind_char(s@, c, end as int) == rfind_char(s@, c, i as int),
        decreases i,
    {
        if s.get_char(i - 1) == c {
            return Some(i - 1);
        }
        i -= 1;
    }
    None
}

// ---------------------------------------------------------------------------
// Whitespace trimming
// ---------------------------------------------------------------------------

/// `s` without its leading whitespace.
pub open spec fn trim_front(s: Seq<char>) -> Seq<char>
    decreases s.len(),
{
    if s.len() > 0 && whitespace(s[0]) {
        trim_front(s.subrange(1, s.len() as int))
    } else {
        s
    }
}

/// `s` without its trailing whitespace.
pub open spec fn trim_back(s: Seq<char>) -> Seq<char>
    decreases s.len(),
{
    if s.len() > 0 && whitespace(s[s.len() - 1]) {
        trim_back(s.subrange(0, s.len() - 1))
    } else {
        s
    }
}

/// A sequence whose first character, if any, is not whitespace.
pub open spec fn head_not_ws(s: Seq<char>) -> bool {
    s.len() > 0 ==> !whitespace(s[0])
}

pub proof fn lemma_trim_front_head(s: Seq<char>)
    ensures
        head_not_ws(trim_front(s)),
    decreases s.len(),
{
    if s.len() > 0 && whitespace(s[0]) {
        lemma_trim_front_head(s.subrange(1, s.len() as int));
    }
}

/// Trimming the back keeps the head character.
pub proof fn lemma_trim_back_head(s: Seq<char>)
    ensures
        head_not_ws(s) ==> head_not_ws(trim_back(s)),
    decreases s.len(),
{
    if s.len() > 0 && whitespace(s[s.len() - 1]) {
        lemma_trim_back_head(s.subrange(0, s.len() - 1));
    }
}

pub proof fn lemma_trim_front_len(s: Seq<char>)
    ensures
        trim_front(s).len() <= s.len(),
    decreases s.len(),
{
    if s.len() > 0 && whitespace(s[0]) {
        lemma_trim_front_len(s.subrange(1, s.len() as int));
    }
}

pub proof fn lemma_trim_back_len(s: Seq<char>)
    ensures
        trim_back(s).len() <= s.len(),
    decreases s.len(),
{
    if s.len() > 0 && whitespace(s[s.len() - 1]) {
        lemma_trim_back_len(s.subrange(0, s.len() - 1));
    }
}

/// `s` without its leading whitespace.
pub fn trim_start_str<'a>(s: &'a str) -> (r: &'a str)
    ensures
        r@ == trim_front(s@),
{
    let len = s.unicode_len();
    let mut i: usize = 0;
    proof {
        assert(s@.subrange(0, len as int) =~= s@);
    }
    loop
        invariant
            0 <= i <= len,
            len == s@.len(),
            trim_front(s@) == trim_front(s@.subrange(i as int, len as int)),
        ensures
            i <= len && trim_front(s@) == s@.subrange(i as int, len as int),
        decreases len - i,
    {
        if i >= len {
            assert(s@.subrange(i as int, len as int) =~= Seq::<char>::empty());
            break;
        }
        let c = s.get_char(i);
        assert(s@.subrange(i as int, len as int)[0] == s@[i as int]);
        if !is_whitespace_char(c) {
            break;
        }
        proof {
            let tail = s@.subrange(i as int, len as int);
            assert(tail.subrange(1, tail.len() as int) =~= s@.subrange(i + 1, len as int));
        }
        i += 1;
    }
    s.substring_char(i, len)
}

/// `s` without its trailing whitespace.
pub fn trim_end_str<'a>(s: &'a str) -> (r: &'a str)
    ensures
        r@ == trim_back(s@),
{
    let len = s.unicode_len();
    let mut i: usize = len;
    proof {
        assert(s@.subrange(0, len as int) =~= s@);
    }
    loop
        invariant
            0 <= i <= len,
            len == s@.len(),
            trim_back(s@) == trim_back(s@.subrange(0, i as int)),
        ensures
            i <= len && trim_back(s@) == s@.subrange(0, i as int),
        decreases i,
    {
        if i == 0 {
            break;
        }
        let c = s.get_char(i - 1);
        assert(s@.subrange(0, i as int)[i - 1] == s@[i - 1]);
        if !is_whitespace_char(c) {
            break;
        }
        proof {
            let head = s@.subrange(0, i as int);
            assert(head.subrange(0, head.len() - 1) =~= s@.subrange(0, i - 1));
        }
        i -= 1;
    }
    s.substring_char(0, i)
}

/// `s` without leading and trailing whitespace.
pub fn trim_str<'a>(s: &'a str) -> (r: &'a str)
    ensures
        r@ == trim_back(trim_front(s@)),
{
    trim_end_str(trim_start_str(s))
}

/// `s` without leading occurrences of the character `c`.
pub open spec fn trim_char_front(s: Seq<char>, c: char) -> Seq<char>
    decreases s.len(),
{
    if s.len() > 0 && s[0] == c {
        trim_char_front(s.subrange(1, s.len() as int), c)
    } else {
        s
    }
}

/// `s` without trailing occurrences of the character `c`.
pub open spec fn trim_char_back(s: Seq<char>, c: char) -> Seq<char>
    decreases s.len(),
{
    if s.len() > 0 && s[s.len() - 1] == c {
        trim_char_back(s.subrange(0, s.len() - 1), c)
    } else {
        s
    }
}

/// `s` without leading and trailing occurrences of the character `c`.
pub fn trim_matches_char<'a>(s: &'a str, c: char) -> (r: &'a str)
    ensures
        r@ == trim_char_back(trim_char_front(s@, c), c),
{
    let len = s.unicode_len();
    let mut lo: usize = 0;
    proof {
        assert(s@.subrange(0, len as int) =~= s@);
    }
    loop
        invariant
            0 <= lo <= len,
            len == s@.len(),
            trim_char_front(s@, c) == trim_char_front(s@.subrange(lo as int, len as int), c),
        ensures
            lo <= len && trim_char_front(s@, c) == s@.subrange(lo as int, len as int),
        decreases len - lo,
    {
        if lo >= len {
            assert(s@.subrange(lo as int, len as int) =~= Seq::<char>::empty());
            break;
        }
        assert(s@.subrange(lo as int, len as int)[0] == s@[lo as int]);
        if s.get_char(lo) != c {
            break;
        }
        proof {
            let tail = s@.subrange(lo as int, len as int);
            assert(tail.subrange(1, tail.len() as int) =~= s@.subrange(lo + 1, len as int));
        }
        lo += 1;
    }
    let mut hi: usize = len;
    loop
        invariant
            lo <= hi <= len,
            len == s@.len(),
            trim_char_front(s@, c) == s@.subrange(lo as int, len as int),
            trim_char_back(trim_char_front(s@, c), c) == trim_char_back(
                s@.subrange(lo as int, hi as int),
                c,
            ),
        ensures
            lo <= hi <= len && trim_char_back(trim_char_front(s@, c), c) == s@.subrange(
                lo as int,
                hi as int,
            ),
        decreases hi,
    {
        if hi == lo {
            break;
        }
        assert(s@.subrange(lo as int, hi as int)[hi - lo - 1] == s@[hi - 1]);
        if s.get_char(hi - 1) != c {
            break;
        }
        proof {
            let head = s@.subrange(lo as int, hi as int);
            assert(head.subrange(0, head.len() - 1) =~= s@.subrange(lo as int, hi - 1));
        }
        hi -= 1;
    }
    s.substring_char(lo, hi)
}

// ---------------------------------------------------------------------------
// String equality
// ---------------------------------------------------------------------------

/// Character-for-character equality of two string slices.
pub fn str_eq(a: &str, b: &str) -> (r: bool)
    ensures
        r == (a@ == b@),
{
    let a_len = a.unicode_len();
    let b_len = b.unicode_len();
    if a_len != b_len {
        return false;
    }
    let mut i: usize = 0;
    while i < a_len
        invariant
            0 <= i <= a_len,
            a_len == a@.len() && a_len == b@.len(),
            forall|k: int| 0 <= k < i ==> a@[k] == b@[k],
        decreases a_len - i,
    {
        if a.get_char(i) != b.get_char(i) {
            return false;
        }
        i += 1;
    }
    proof {
        assert(a@ =~= b@);
    }
    true
}

// ---------------------------------------------------------------------------
// Decimal rendering
// ---------------------------------------------------------------------------

/// The decimal digit for a value below ten.
pub open spec fn dec_digit(d: int) -> char {
    if d == 0 {
        '0'
    } else if d == 1 {
        '1'
    } else if d == 2 {
        '2'
    } else if d == 3 {
        '3'
    } else if d == 4 {
        '4'
    } else if d == 5 {
        '5'
    } else if d == 6 {
        '6'
    } else if d == 7 {
        '7'
    } else if d == 8 {
        '8'
    } else {
        '9'
    }
}

/// The decimal rendering of a non-negative number, most significant digit
/// first, without leading zeros (except for the number zero itself).
pub open spec fn dec_str(n: int) -> Seq<char>
    decreases n,
{
    if n < 10 {
        seq![dec_digit(n)]
    } else {
        dec_str(n / 10).push(dec_digit(n % 10))
    }
}

fn digit_str(d: usize) -> (r: &'static str)
    requires
        d < 10,
    ensures
        r@ == seq![dec_digit(d as int)],
{
    if d == 0 {
        proof {
            reveal_strlit("0");
        }
        assert("0"@ =~= seq![dec_digit(0)]);
        "0"
    } else if d == 1 {
        proof {
            reveal_strlit("1");
        }
        assert("1"@ =~= seq![dec_digit(1)]);
        "1"
    } else if d == 2 {
        proof {
            reveal_strlit("2");
        }
        assert("2"@ =~= seq![dec_digit(2)]);
        "2"
    } else if d == 3 {
        proof {
            reveal_strlit("3");
        }
        assert("3"@ =~= seq![dec_digit(3)]);
        "3"
    } else if d == 4 {
        proof {
            reveal_strlit("4");
        }
        assert("4"@ =~= seq![dec_digit(4)]);
        "4"
    } else if d == 5 {
        proof {
            reveal_strlit("5");
        }
        assert("5"@ =~= seq![dec_digit(5)]);
        "5"
    } else if d == 6 {
        proof {
            reveal_strlit("6");
        }
        assert("6"@ =~= seq![dec_digit(6)]);
        "6"
    } else if d == 7 {
        proof {
            reveal_strlit("7");
        }
        assert("7"@ =~= seq![dec_digit(7)]);
        "7"
    } else if d == 8 {
        proof {
            reveal_strlit("8");
        }
        assert("8"@ =~= seq![dec_digit(8)]);
        "8"
    } else {
        proof {
            reveal_strlit("9");
        }
        assert("9"@ =~= seq![dec_digit(9)]);
        "9"
    }
}

/// The decimal rendering of `n`.
pub fn usize_string(n: usize) -> (r: String)
    ensures
        r@ == dec_str(n as int),
    decreases n,
{
    if n < 10 {
        let r = String::from_str(digit_str(n));
        r
    } else {
        let mut r = usize_string(n / 10);
        r.append(digit_str(n % 10));
        proof {
            assert(r@ =~= dec_str(n as int));
        }
        r
    }
}

} // verus!
