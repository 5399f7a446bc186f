//! Character-level text primitives shared by the services: whitespace, substring
//! search, splitting into lines and tokens, and decimal / hexadecimal numerals.
//!
//! Every executable helper here works on the characters of a string and is
//! proved against a spec function over `Seq<char>`.
use vstd::prelude::*;

verus! {

/// The view of an optional string.
pub open spec fn opt_text(o: Option<String>) -> Option<Seq<char>> {
    match o {
        Some(s) => Some(s@),
        None => None,
    }
}

/// Unicode `White_Space`, the set that `char::is_whitespace` tests.
pub open spec fn is_space(c: char) -> bool {
    let u = c as u32;
    ||| 0x09 <= u <= 0x0D
    ||| u == 0x20
    ||| u == 0x85
    ||| u == 0xA0
    ||| u == 0x1680
    ||| 0x2000 <= u <= 0x200A
    ||| u == 0x2028
    ||| u == 0x2029
    ||| u == 0x202F
    ||| u == 0x205F
    ||| u == 0x3000
}

pub fn is_space_char(c: char) -> (b: bool)
    ensures
        b == is_space(c),
{
    let u = c as u32;
    (0x09 <= u && u <= 0x0D) || u == 0x20 || u == 0x85 || u == 0xA0 || u == 0x1680 || (0x2000
        <= u && u <= 0x200A) || u == 0x2028 || u == 0x2029 || u == 0x202F || u == 0x205F || u
        == 0x3000
}

/// `p` occurs in `s` starting at position `i`.
pub open spec fn occurs_at(s: Seq<char>, p: Seq<char>, i: int) -> bool {
    0 <= i && i + p.len() <= s.len() && s.subrange(i, i + p.len()) =~= p
}

/// `p` is a substring of `s` (`str::contains`).
pub open spec fn has_sub(s: Seq<char>, p: Seq<char>) -> bool {
    exists|i: int| occurs_at(s, p, i)
}

/// `s` begins with `p` (`str::starts_with`).
pub open spec fn begins_with(s: Seq<char>, p: Seq<char>) -> bool {
    occurs_at(s, p, 0)
}

/// The characters of a string slice, in order.
pub fn chars_of(s: &str) -> (v: Vec<char>)
    ensures
        v@ == s@,
{
    let n = s.unicode_len();
    let mut v: Vec<char> = Vec::new();
    let mut i: usize = 0;
    while i < n
        invariant
            n == s@.len(),
            i <= n,
            v@ == s@.subrange(0, i as int),
        decreases n - i,
    {
        v.push(s.get_char(i));
        i = i + 1;
    }
    assert(v@ =~= s@);
    v
}

/// Builds a `String` out of a sequence of characters.
#[verifier::external_body]
pub fn string_of(chars: &[char]) -> (s: String)
    ensures
        s@ == chars@,
{
    chars.iter().collect()
}

/// Whether `p` occurs in `s` at position `i`.
pub fn matches_at(s: &[char], p: &[char], i: usize) -> (b: bool)
    ensures
        b == occurs_at(s@, p@, i as int),
{
    if i > s.len() || p.len() > s.len() - i {
        return false;
    }
    let mut k: usize = 0;
    while k < p.len()
        invariant
            i + p@.len() <= s@.len(),
            i + p.len() <= s.len(),
            k <= p@.len(),
            forall|j: int| 0 <= j < k ==> s@[i + j] == p@[j],
        decreases p.len() - k,
    {
        if s[i + k] != p[k] {
            assert(s@.subrange(i as int, i + p@.len())[k as int] != p@[k as int]);
            return false;
        }
        k = k + 1;
    }
    assert(s@.subrange(i as int, i + p@.len()) =~= p@);
    true
}

/// `str::contains` on character sequences.
pub fn contains_text(s: &[char], p: &[char]) -> (b: bool)
    ensures
        b == has_sub(s@, p@),
{
    if p.len() > s.len() {
        assert forall|i: int| !occurs_at(s@, p@, i) by {}
        return false;
    }
    let last = s.len() - p.len();
    let mut i: usize = 0;
    loop
        invariant
            last == s@.len() - p@.len(),
            i <= last,
            forall|j: int| 0 <= j < i ==> !occurs_at(s@, p@, j),
        ensures
            forall|j: int| 0 <= j <= last ==> !occurs_at(s@, p@, j),
        decreases last - i,
    {
        if matches_at(s, p, i) {
            return true;
        }
        if i == last {
            break;
        }
        i = i + 1;
    }
    assert forall|j: int| !occurs_at(s@, p@, j) by {
        if 0 <= j && j <= last {
        }
    }
    false
}

/// `str::starts_with` on character sequences.
pub fn starts_with_text(s: &[char], p: &[char]) -> (b: bool)
    ensures
        b == begins_with(s@, p@),
{
    matches_at(s, p, 0)
}

/// Whole-sequence equality of two character sequences.
pub fn same_text(a: &[char], b: &[char]) -> (r: bool)
    ensures
        r == (a@ == b@),
{
    if a.len() != b.len() {
        return false;
    }
    let r = matches_at(a, b, 0);
    proof {
        if r {
            assert(a@ =~= a@.subrange(0, b@.len() as int));
        } else {
            assert(a@.subrange(0, b@.len() as int) =~= a@);
        }
    }
    r
}

/// Whether a character sequence equals the characters of a string slice.
pub fn text_is(s: &[char], lit: &str) -> (r: bool)
    ensures
        r == (s@ == lit@),
{
    let l = chars_of(lit);
    same_text(s, l.as_slice())
}

/// Whether two string slices hold the same characters.
pub fn str_eq(a: &str, b: &str) -> (r: bool)
    ensures
        r == (a@ == b@),
{
    let x = chars_of(a);
    text_is(x.as_slice(), b)
}

// ---------------------------------------------------------------------------
// Trimming
// ---------------------------------------------------------------------------
/// Index of the first non-whitespace character (or `s.len()`).
pub open spec fn first_non_space(s: Seq<char>, from: int) -> int
    decreases s.len() - from,
{
    if from >= s.len() {
        s.len() as int
    } else if is_space(s[from]) {
        first_non_space(s, from + 1)
    } else {
        from
    }
}

/// One past the last non-whitespace character at or before `to` (or `lo`).
pub open spec fn last_non_space(s: Seq<char>, lo: int, to: int) -> int
    decreases to - lo,
{
    if to <= lo {
        lo
    } else if is_space(s[to - 1]) {
        last_non_space(s, lo, to - 1)
    } else {
        to
    }
}

/// `str::trim`: whitespace removed from both ends.
pub open spec fn trimmed(s: Seq<char>) -> Seq<char> {
    let lo = first_non_space(s, 0);
    s.subrange(lo, last_non_space(s, lo, s.len() as int))
}

proof fn lemma_first_non_space_bounds(s: Seq<char>, from: int)
    requires
        0 <= from <= s.len(),
    ensures
        from <= first_non_space(s, from) <= s.len(),
    decreases s.len() - from,
{
    if from < s.len() && is_space(s[from]) {
        lemma_first_non_space_bounds(s, from + 1);
    }
}

proof fn lemma_last_non_space_bounds(s: Seq<char>, lo: int, to: int)
    requires
        0 <= lo <= to <= s.len(),
    ensures
        lo <= last_non_space(s, lo, to) <= to,
    decreases to - lo,
{
    if to > lo && is_space(s[to - 1]) {
        lemma_last_non_space_bounds(s, lo, to - 1);
    }
}

/// `str::trim` on a character sequence.
pub fn trim_text(s: &[char]) -> (t: Vec<char>)
    ensures
        t@ == trimmed(s@),
{
    let n = s.len();
    let mut lo: usize = 0;
    while lo < n && is_space_char(s[lo])
        invariant
            n == s@.len(),
            lo <= n,
            first_non_space(s@, lo as int) == first_non_space(s@, 0),
        decreases n - lo,
    {
        lo = lo + 1;
    }
    let mut hi: usize = n;
    while hi > lo && is_space_char(s[hi - 1])
        invariant
            n == s@.len(),
            lo <= hi <= n,
            lo == first_non_space(s@, 0),
            last_non_space(s@, lo as int, hi as int) == last_non_space(s@, lo as int, n as int),
        decreases hi - lo,
    {
        hi = hi - 1;
    }
    let mut t: Vec<char> = Vec::new();
    let mut k: usize = lo;
    while k < hi
        invariant
            lo <= k <= hi <= n,
            n == s@.len(),
            t@ =~= s@.subrange(lo as int, k as int),
        decreases hi - k,
    {
        t.push(s[k]);
        k = k + 1;
    }
    t
}

/// First index at or after `from` whose character is not `c`.
pub open spec fn first_not(s: Seq<char>, c: char, from: int) -> int
    decreases s.len() - from,
{
    if from >= s.len() {
        s.len() as int
    } else if s[from] == c {
        first_not(s, c, from + 1)
    } else {
        from
    }
}

/// One past the last character before `to`, and not before `lo`, that is not `c`.
pub open spec fn last_not(s: Seq<char>, c: char, lo: int, to: int) -> int
    decreases to - lo,
{
    if to <= lo {
        lo
    } else if s[to - 1] == c {
        last_not(s, c, lo, to - 1)
    } else {
        to
    }
}

/// `str::trim_matches(c)`: every `c` removed from both ends.
pub open spec fn stripped(s: Seq<char>, c: char) -> Seq<char> {
    let lo = first_not(s, c, 0);
    s.subrange(lo, last_not(s, c, lo, s.len() as int))
}

proof fn lemma_first_not_bounds(s: Seq<char>, c: char, from: int)
    requires
        0 <= from <= s.len(),
    ensures
        from <= first_not(s, c, from) <= s.len(),
    decreases s.len() - from,
{
    if from < s.len() && s[from] == c {
        lemma_first_not_bounds(s, c, from + 1);
    }
}

/// `str::trim_matches(c)` on a character sequence.
pub fn strip_char(s: &[char], c: char) -> (t: Vec<char>)
    ensures
        t@ == stripped(s@, c),
{
    let n = s.len();
    let mut lo: usize = 0;
    while lo < n && s[lo] == c
        invariant
            n == s@.len(),
            lo <= n,
            first_not(s@, c, lo as int) == first_not(s@, c, 0),
        decreases n - lo,
    {
        lo = lo + 1;
    }
    let mut hi: usize = n;
    while hi > lo && s[hi - 1] == c
        invariant
            n == s@.len(),
            lo <= hi <= n,
            lo == first_not(s@, c, 0),
            last_not(s@, c, lo as int, hi as int) == last_not(s@, c, lo as int, n as int),
        decreases hi - lo,
    {
        hi = hi - 1;
    }
    let mut t: Vec<char> = Vec::new();
    let mut k: usize = lo;
    while k < hi
        invariant
            lo <= k <= hi <= n,
            n == s@.len(),
            t@ =~= s@.subrange(lo as int, k as int),
        decreases hi - k,
    {
        t.push(s[k]);
        k = k + 1;
    }
    t
}

// ---------------------------------------------------------------------------
// Splitting
// ---------------------------------------------------------------------------
/// The pieces of `s` between occurrences of the separator `sep`
/// (`str::split(sep)`): always at least one piece, empty pieces kept.
pub open spec fn pieces(s: Seq<char>, sep: char) -> Seq<Seq<char>>
    decreases s.len(),
{
    if s.len() == 0 {
        seq![Seq::<char>::empty()]
    } else {
        let prev = pieces(s.drop_last(), sep);
        if s.last() == sep {
            prev.push(Seq::<char>::empty())
        } else {
            prev.update(prev.len() - 1, prev.last().push(s.last()))
        }
    }
}

pub proof fn lemma_pieces_nonempty(s: Seq<char>, sep: char)
    ensures
        pieces(s, sep).len() >= 1,
    decreases s.len(),
{
    if s.len() > 0 {
        lemma_pieces_nonempty(s.drop_last(), sep);
    }
}

/// `str::split(sep)` on a character sequence.
pub fn split_text(s: &[char], sep: char) -> (r: Vec<Vec<char>>)
    ensures
        r@.len() == pieces(s@, sep).len(),
        forall|i: int| 0 <= i < r@.len() ==> #[trigger] r@[i]@ == pieces(s@, sep)[i],
{
    let mut done: Vec<Vec<char>> = Vec::new();
    let mut cur: Vec<char> = Vec::new();
    let mut i: usize = 0;
    while i < s.len()
        invariant
            i <= s@.len(),
            pieces(s@.subrange(0, i as int), sep).len() == done@.len() + 1,
            forall|j: int|
                0 <= j < done@.len() ==> #[trigger] done@[j]@ == pieces(
                    s@.subrange(0, i as int),
                    sep,
                )[j],
            cur@ == pieces(s@.subrange(0, i as int), sep).last(),
        decreases s.len() - i,
    {
        let c = s[i];
        proof {
            assert(s@.subrange(0, i + 1).drop_last() =~= s@.subrange(0, i as int));
            lemma_pieces_nonempty(s@.subrange(0, i as int), sep);
        }
        if c == sep {
            let finished = cur;
            done.push(finished);
            cur = Vec::new();
        } else {
            cur.push(c);
        }
        i = i + 1;
    }
    done.push(cur);
    proof {
        assert(s@.subrange(0, s@.len() as int) =~= s@);
    }
    done
}

/// `split_whitespace`: the maximal runs of non-whitespace characters.
pub open spec fn words(s: Seq<char>) -> Seq<Seq<char>>
    decreases s.len(),
{
    if s.len() == 0 {
        Seq::empty()
    } else {
        let prev = words(s.drop_last());
        let c = s.last();
        if is_space(c) {
            prev
        } else if s.len() >= 2 && !is_space(s[s.len() - 2]) {
            prev.update(prev.len() - 1, prev.last().push(c))
        } else {
            prev.push(seq![c])
        }
    }
}

pub proof fn lemma_words_last(s: Seq<char>)
    requires
        s.len() > 0,
        !is_space(s.last()),
    ensures
        words(s).len() >= 1,
    decreases s.len(),
{
    if s.len() >= 2 && !is_space(s[s.len() - 2]) {
        lemma_words_last(s.drop_last());
    }
}

/// `str::split_whitespace` on a character sequence.
pub fn split_words(s: &[char]) -> (r: Vec<Vec<char>>)
    ensures
        r@.len() == words(s@).len(),
        forall|i: int| 0 <= i < r@.len() ==> #[trigger] r@[i]@ == words(s@)[i],
{
    let mut done: Vec<Vec<char>> = Vec::new();
    let mut cur: Vec<char> = Vec::new();
    let mut in_word = false;
    let mut i: usize = 0;
    while i < s.len()
        invariant
            i <= s@.len(),
            in_word == (i > 0 && !is_space(s@[i - 1])),
            in_word ==> words(s@.subrange(0, i as int)).len() == done@.len() + 1 && cur@
                == words(s@.subrange(0, i as int)).last(),
            !in_word ==> words(s@.subrange(0, i as int)).len() == done@.len(),
            forall|j: int|
                0 <= j < done@.len() ==> #[trigger] done@[j]@ == words(
                    s@.subrange(0, i as int),
                )[j],
        decreases s.len() - i,
    {
        let c = s[i];
        proof {
            assert(s@.subrange(0, i + 1).drop_last() =~= s@.subrange(0, i as int));
            assert(s@.subrange(0, i + 1).last() == c);
            if i > 0 {
                assert(s@.subrange(0, i + 1)[i - 1] == s@[i - 1]);
                assert(s@.subrange(0, i as int).last() == s@[i - 1]);
                if !is_space(s@[i - 1]) {
                    lemma_words_last(s@.subrange(0, i as int));
                }
            }
        }
        if is_space_char(c) {
            if in_word {
                let finished = cur;
                done.push(finished);
                cur = Vec::new();
            }
            in_word = false;
        } else {
            if !in_word {
                cur = Vec::new();
            }
            cur.push(c);
            in_word = true;
        }
        i = i + 1;
    }
    if in_word {
        done.push(cur);
    }
    proof {
        assert(s@.subrange(0, s@.len() as int) =~= s@);
    }
    done
}

// ---------------------------------------------------------------------------
// Numerals
// ---------------------------------------------------------------------------
pub open spec fn is_digit(c: char) -> bool {
    '0' <= c && c <= '9'
}

pub open spec fn digit_value(c: char) -> int {
    (c as u32) - ('0' as u32)
}

/// The value of a run of decimal digits.
pub open spec fn digits_value(s: Seq<char>) -> int
    decreases s.len(),
{
    if s.len() == 0 {
        0
    } else {
        10 * digits_value(s.drop_last()) + digit_value(s.last())
    }
}

pub open spec fn all_digits(s: Seq<char>) -> bool {
    forall|i: int| 0 <= i < s.len() ==> is_digit(#[trigger] s[i])
}

/// What `str::parse::<i32>` accepts and returns: an optional sign followed by at
/// least one decimal digit, whose value lies in the range of `i32`.
pub open spec fn parsed_i32(s: Seq<char>) -> Option<i32> {
    if s.len() == 0 {
        None
    } else {
        let neg = s[0] == '-';
        let body = if s[0] == '-' || s[0] == '+' {
            s.drop_first()
        } else {
            s
        };
        let v = if neg {
            -digits_value(body)
        } else {
            digits_value(body)
        };
        if body.len() == 0 || !all_digits(body) || v < i32::MIN || v > i32::MAX {
            None
        } else {
            Some(v as i32)
        }
    }
}

proof fn lemma_digits_nonneg(s: Seq<char>)
    requires
        all_digits(s),
    ensures
        digits_value(s) >= 0,
    decreases s.len(),
{
    if s.len() > 0 {
        assert(all_digits(s.drop_last()));
        lemma_digits_nonneg(s.drop_last());
        assert(is_digit(s[s.len() - 1]));
    }
}

/// `str::parse::<i32>` on a character sequence.
pub fn parse_i32(s: &[char]) -> (r: Option<i32>)
    ensures
        r == parsed_i32(s@),
{
    if s.len() == 0 {
        return None;
    }
    let neg = s[0] == '-';
    let start: usize = if s[0] == '-' || s[0] == '+' {
        1
    } else {
        0
    };
    let ghost body = if s@[0] == '-' || s@[0] == '+' {
        s@.drop_first()
    } else {
        s@
    };
    assert(body =~= s@.subrange(start as int, s@.len() as int));
    if start == s.len() {
        return None;
    }
    // Values above `cap` are all out of range for i32, whatever follows.
    let cap: u64 = 2147483649;
    let mut acc: u64 = 0;
    let mut i: usize = start;
    while i < s.len()
        invariant
            start <= i <= s@.len(),
            cap == 2147483649,
            s@.len() > 0,
            body == (if s@[0] == '-' || s@[0] == '+' {
                s@.drop_first()
            } else {
                s@
            }),
            body =~= s@.subrange(start as int, s@.len() as int),
            all_digits(s@.subrange(start as int, i as int)),
            acc <= cap,
            acc == (if digits_value(s@.subrange(start as int, i as int)) < cap {
                digits_value(s@.subrange(start as int, i as int))
            } else {
                cap as int
            }),
        decreases s.len() - i,
    {
        let c = s[i];
        if !('0' <= c && c <= '9') {
            proof {
                assert(body[i - start] == c);
                assert(!is_digit(body[i - start]));
                assert(!all_digits(body));
                assert(parsed_i32(s@) is None);
            }
            return None;
        }
        let d = (c as u32 - '0' as u32) as u64;
        proof {
            let p = s@.subrange(start as int, i as int);
            let q = s@.subrange(start as int, i + 1);
            assert(q.drop_last() =~= p);
            assert(q.last() == c);
            lemma_digits_nonneg(p);
        }
        acc = if acc * 10 + d < cap {
            acc * 10 + d
        } else {
            cap
        };
        i = i + 1;
        proof {
            let q = s@.subrange(start as int, i as int);
            assert forall|j: int| 0 <= j < q.len() implies is_digit(#[trigger] q[j]) by {
                if j < q.len() - 1 {
                    assert(q[j] == s@.subrange(start as int, i - 1)[j]);
                }
            }
        }
    }
    assert(s@.subrange(start as int, s@.len() as int) =~= body);
    proof {
        lemma_digits_nonneg(body);
    }
    if neg {
        if acc > 2147483648 {
            None
        } else {
            Some((0 - (acc as i64)) as i32)
        }
    } else {
        if acc > 2147483647 {
            None
        } else {
            Some(acc as i32)
        }
    }
}

/// What `str::parse::<u32>` accepts and returns: an optional `+` followed by
/// at least one decimal digit, whose value fits in `u32`.
pub open spec fn parsed_u32(s: Seq<char>) -> Option<u32> {
    if s.len() == 0 {
        None
    } else {
        let body = if s[0] == '+' {
            s.drop_first()
        } else {
            s
        };
        if body.len() == 0 || !all_digits(body) || digits_value(body) > u32::MAX {
            None
        } else {
            Some(digits_value(body) as u32)
        }
    }
}

/// `str::parse::<u32>` on a character sequence.
pub fn parse_u32(s: &[char]) -> (r: Option<u32>)
    ensures
        r == parsed_u32(s@),
{
    if s.len() == 0 {
        return None;
    }
    let start: usize = if s[0] == '+' {
        1
    } else {
        0
    };
    let ghost body = if s@[0] == '+' {
        s@.drop_first()
    } else {
        s@
    };
    assert(body =~= s@.subrange(start as int, s@.len() as int));
    if start == s.len() {
        return None;
    }
    let cap: u64 = 4294967296;
    let mut acc: u64 = 0;
    let mut i: usize = start;
    while i < s.len()
        invariant
            start <= i <= s@.len(),
            cap == 4294967296,
            s@.len() > 0,
            body == (if s@[0] == '+' {
                s@.drop_first()
            } else {
                s@
            }),
            body =~= s@.subrange(start as int, s@.len() as int),
            all_digits(s@.subrange(start as int, i as int)),
            acc <= cap,
            acc == (if digits_value(s@.subrange(start as int, i as int)) < cap {
                digits_value(s@.subrange(start as int, i as int))
            } else {
                cap as int
            }),
        decreases s.len() - i,
    {
        let c = s[i];
        if !('0' <= c && c <= '9') {
            proof {
                assert(body[i - start] == c);
                assert(!is_digit(body[i - start]));
                assert(!all_digits(body));
            }
            return None;
        }
        let d = (c as u32 - '0' as u32) as u64;
        proof {
            let p = s@.subrange(start as int, i as int);
            let q = s@.subrange(start as int, i + 1);
            assert(q.drop_last() =~= p);
            assert(q.last() == c);
            lemma_digits_nonneg(p);
        }
        acc = if acc * 10 + d < cap {
            acc * 10 + d
        } else {
            cap
        };
        i = i + 1;
        proof {
            let q = s@.subrange(start as int, i as int);
            assert forall|j: int| 0 <= j < q.len() implies is_digit(#[trigger] q[j]) by {
                if j < q.len() - 1 {
                    assert(q[j] == s@.subrange(start as int, i - 1)[j]);
                }
            }
        }
    }
    assert(s@.subrange(start as int, s@.len() as int) =~= body);
    proof {
        lemma_digits_nonneg(body);
    }
    if acc > 4294967295 {
        None
    } else {
        Some(acc as u32)
    }
}

pub open spec fn digit_char(d: int) -> char {
    if d == 0 {
        '0'
    } else if d == 1 {
        '1'
    } else if d == 2 {
        '2'
    } else if d == 3 {
        '3'
    } else if d == 4 {
        '4'
    } else if d == 5 {
        '5'
    } else if d == 6 {
        '6'
    } else if d == 7 {
        '7'
    } else if d == 8 {
        '8'
    } else if d == 9 {
        '9'
    } else if d == 10 {
        'A'
    } else if d == 11 {
        'B'
    } else if d == 12 {
        'C'
    } else if d == 13 {
        'D'
    } else if d == 14 {
        'E'
    } else {
        'F'
    }
}

fn digit_of(d: u64) -> (c: char)
    requires
        d < 16,
    ensures
        c == digit_char(d as int),
{
    if d == 0 {
        '0'
    } else if d == 1 {
        '1'
    } else if d == 2 {
        '2'
    } else if d == 3 {
        '3'
    } else if d == 4 {
        '4'
    } else if d == 5 {
        '5'
    } else if d == 6 {
        '6'
    } else if d == 7 {
        '7'
    } else if d == 8 {
        '8'
    } else if d == 9 {
        '9'
    } else if d == 10 {
        'A'
    } else if d == 11 {
        'B'
    } else if d == 12 {
        'C'
    } else if d == 13 {
        'D'
    } else if d == 14 {
        'E'
    } else {
        'F'
    }
}

/// The numeral of `n` in base `b` (no leading zeros; "0" for zero).
pub open spec fn numeral(n: nat, b: nat) -> Seq<char>
    decreases n,
{
    if b < 2 || n < b {
        seq![digit_char(n as int)]
    } else {
        proof {
            assert(n / b < n) by (nonlinear_arith)
                requires
                    b >= 2,
                    n >= b,
            ;
        }
        numeral(n / b, b).push(digit_char((n % b) as int))
    }
}

/// `{}` of an unsigned integer.
pub open spec fn decimal(n: nat) -> Seq<char> {
    numeral(n, 10)
}

/// `{}` of a signed integer.
pub open spec fn signed_decimal(x: int) -> Seq<char> {
    if x < 0 {
        seq!['-'] + decimal((-x) as nat)
    } else {
        decimal(x as nat)
    }
}

/// `{:0w}` / `{:0wX}`: zeros on the left up to width `w`.
pub open spec fn zero_padded(digits: Seq<char>, w: nat) -> Seq<char> {
    if digits.len() >= w {
        digits
    } else {
        Seq::new((w - digits.len()) as nat, |i: int| '0') + digits
    }
}

/// Appends the base-`b` numeral of `n`.
pub fn push_numeral(n: u64, b: u64, out: &mut Vec<char>)
    requires
        2 <= b <= 16,
    ensures
        final(out)@ == old(out)@ + numeral(n as nat, b as nat),
    decreases n,
{
    if n >= b {
        assert(n / b < n) by (nonlinear_arith)
            requires
                b >= 2,
                n >= b,
        ;
        push_numeral(n / b, b, out);
    }
    out.push(digit_of(n % b));
    proof {
        if n >= b {
            assert(old(out)@ + numeral(n as nat, b as nat) =~= old(out)@ + numeral(
                (n / b) as nat,
                b as nat,
            ) + seq![digit_char((n % b) as int)]);
        } else {
            assert(n % b == n) by (nonlinear_arith)
                requires
                    n < b,
            ;
        }
    }
}

/// Appends `{}` of a signed integer.
pub fn push_signed(x: i64, out: &mut Vec<char>)
    ensures
        final(out)@ == old(out)@ + signed_decimal(x as int),
{
    if x < 0 {
        out.push('-');
        let mag: u64 = if x == i64::MIN {
            9223372036854775808u64
        } else {
            (0 - x) as u64
        };
        push_numeral(mag, 10, out);
        assert(old(out)@ + signed_decimal(x as int) =~= old(out)@ + seq!['-'] + decimal(
            mag as nat,
        ));
    } else {
        push_numeral(x as u64, 10, out);
    }
}

/// Appends `n` in base `b`, zero-padded to width `w`.
pub fn push_padded(n: u64, b: u64, w: usize, out: &mut Vec<char>)
    requires
        2 <= b <= 16,
    ensures
        final(out)@ == old(out)@ + zero_padded(numeral(n as nat, b as nat), w as nat),
{
    let mut digits: Vec<char> = Vec::new();
    push_numeral(n, b, &mut digits);
    assert(digits@ =~= numeral(n as nat, b as nat));
    let mut k: usize = digits.len();
    let ghost start = out@;
    while k < w
        invariant
            digits@ == numeral(n as nat, b as nat),
            digits@.len() <= k,
            k == digits@.len() || k <= w,
            out@ =~= start + Seq::new((k - digits@.len()) as nat, |i: int| '0'),
        decreases w - k,
    {
        out.push('0');
        k = k + 1;
    }
    let mut j: usize = 0;
    let ghost mid = out@;
    while j < digits.len()
        invariant
            j <= digits@.len(),
            out@ =~= mid + digits@.subrange(0, j as int),
        decreases digits.len() - j,
    {
        out.push(digits[j]);
        j = j + 1;
    }
    proof {
        assert(digits@.subrange(0, digits@.len() as int) =~= digits@);
        if digits@.len() >= w {
            assert(k == digits@.len());
            assert(Seq::new((k - digits@.len()) as nat, |i: int| '0') =~= Seq::<char>::empty());
        } else {
            assert(k == w);
        }
    }
}

/// Appends the characters of a string slice.
pub fn push_str(s: &str, out: &mut Vec<char>)
    ensures
        final(out)@ == old(out)@ + s@,
{
    let v = chars_of(s);
    let mut i: usize = 0;
    let ghost start = out@;
    while i < v.len()
        invariant
            i <= v@.len(),
            v@ == s@,
            out@ =~= start + v@.subrange(0, i as int),
        decreases v.len() - i,
    {
        out.push(v[i]);
        i = i + 1;
    }
    assert(v@.subrange(0, v@.len() as int) =~= v@);
}

/// Appends a sequence of characters.
pub fn push_chars(s: &[char], out: &mut Vec<char>)
    ensures
        final(out)@ == old(out)@ + s@,
{
    let mut i: usize = 0;
    let ghost start = out@;
    while i < s.len()
        invariant
            i <= s@.len(),
            out@ =~= start + s@.subrange(0, i as int),
        decreases s.len() - i,
    {
        out.push(s[i]);
        i = i + 1;
    }
    assert(s@.subrange(0, s@.len() as int) =~= s@);
}

// ---------------------------------------------------------------------------
// Lines of text
// ---------------------------------------------------------------------------
/// A line terminated by `\n` loses one trailing `\r`.
pub open spec fn strip_cr(p: Seq<char>) -> Seq<char> {
    if p.len() > 0 && p.last() == '\r' {
        p.drop_last()
    } else {
        p
    }
}

/// `str::lines`: the pieces between `\n`, with `\r\n` endings removed and no
/// empty line after a final `\n`.
pub open spec fn text_lines(s: Seq<char>) -> Seq<Seq<char>> {
    let ps = pieces(s, '\n');
    let body = Seq::new((ps.len() - 1) as nat, |j: int| strip_cr(ps[j]));
    if ps.last().len() > 0 {
        body.push(ps.last())
    } else {
        body
    }
}

/// `str::lines` on a character sequence.
pub fn lines_of(s: &[char]) -> (r: Vec<Vec<char>>)
    ensures
        r@.len() == text_lines(s@).len(),
        forall|i: int| 0 <= i < r@.len() ==> #[trigger] r@[i]@ == text_lines(s@)[i],
{
    let ps = split_text(s, '\n');
    proof {
        lemma_pieces_nonempty(s@, '\n');
    }
    let ghost sp = pieces(s@, '\n');
    let mut out: Vec<Vec<char>> = Vec::new();
    let last = ps.len() - 1;
    let mut j: usize = 0;
    while j < last
        invariant
            last == ps@.len() - 1,
            ps@.len() == sp.len(),
            forall|i: int| 0 <= i < ps@.len() ==> #[trigger] ps@[i]@ == sp[i],
            j <= last,
            out@.len() == j,
            forall|i: int| 0 <= i < j ==> #[trigger] out@[i]@ == strip_cr(sp[i]),
        decreases last - j,
    {
        let p = &ps[j];
        let n = p.len();
        let mut line: Vec<char> = Vec::new();
        let keep = if n > 0 && p[n - 1] == '\r' {
            n - 1
        } else {
            n
        };
        let mut k: usize = 0;
        while k < keep
            invariant
                keep <= n,
                n == p@.len(),
                k <= keep,
                line@ =~= p@.subrange(0, k as int),
            decreases keep - k,
        {
            line.push(p[k]);
            k = k + 1;
        }
        proof {
            assert(ps@[j as int]@ == sp[j as int]);
            if n > 0 && p@[n - 1] == '\r' {
                assert(line@ =~= p@.drop_last());
            } else {
                assert(line@ =~= p@);
            }
        }
        out.push(line);
        j = j + 1;
    }
    if ps[last].len() > 0 {
        let mut tail: Vec<char> = Vec::new();
        push_chars(ps[last].as_slice(), &mut tail);
        out.push(tail);
    }
    proof {
        let ls = text_lines(s@);
        assert(ps@[last as int]@ == sp.last());
        assert forall|i: int| 0 <= i < out@.len() implies #[trigger] out@[i]@ == ls[i] by {
            if i < last {
                assert(out@[i]@ == strip_cr(sp[i]));
            }
        }
    }
    out
}

// ---------------------------------------------------------------------------
// Lowercase and removal
// ---------------------------------------------------------------------------
/// The lowercase mapping of a text, as `str::to_lowercase` computes it; a
/// function of the text.
pub uninterp spec fn lowercase(s: Seq<char>) -> Seq<char>;

/// The lowercase mapping of a text, through `str::to_lowercase`.
#[verifier::external_body]
pub fn to_lower(s: &str) -> (r: String)
    ensures
        r@ == lowercase(s@),
{
    s.to_lowercase()
}

/// `s` with every occurrence of `p` removed, scanning from the left
/// (`str::replace(p, "")`).
pub open spec fn remove_all(s: Seq<char>, p: Seq<char>) -> Seq<char>
    decreases s.len(),
{
    if p.len() == 0 || s.len() == 0 {
        s
    } else if begins_with(s, p) {
        remove_all(s.skip(p.len() as int), p)
    } else {
        seq![s[0]] + remove_all(s.skip(1), p)
    }
}

/// Removes every occurrence of `p` from `s`, scanning from the left.
pub fn remove_text(s: &[char], p: &[char]) -> (r: Vec<char>)
    requires
        p@.len() > 0,
    ensures
        r@ == remove_all(s@, p@),
{
    let mut out: Vec<char> = Vec::new();
    let mut i: usize = 0;
    assert(s@.skip(0) =~= s@);
    while i < s.len()
        invariant
            i <= s@.len(),
            p@.len() > 0,
            out@ + remove_all(s@.skip(i as int), p@) == remove_all(s@, p@),
        decreases s.len() - i,
    {
        let ghost rest = s@.skip(i as int);
        assert(rest.len() > 0);
        if matches_at(s, p, i) {
            assert(rest.subrange(0, p@.len() as int) =~= s@.subrange(i as int, i + p@.len()));
            assert(begins_with(rest, p@));
            assert(rest.skip(p@.len() as int) =~= s@.skip(i + p@.len()));
            i = i + p.len();
        } else {
            proof {
                if begins_with(rest, p@) {
                    assert(rest.subrange(0, p@.len() as int) =~= s@.subrange(i as int, i + p@.len()));
                    assert(occurs_at(s@, p@, i as int));
                }
            }
            assert(rest.skip(1) =~= s@.skip(i + 1));
            assert(rest[0] == s@[i as int]);
            let ghost o = out@;
            out.push(s[i]);
            assert(o.push(s@[i as int]) + remove_all(s@.skip(i + 1), p@) =~= o + (seq![rest[0]] + remove_all(rest.skip(1), p@)));
            i = i + 1;
        }
    }
    assert(remove_all(s@.skip(i as int), p@) =~= Seq::<char>::empty());
    assert(out@ + Seq::<char>::empty() =~= out@);
    out
}

/// The first position of `p` in `s`, from `i` on.
pub open spec fn find_from(s: Seq<char>, p: Seq<char>, i: int) -> Option<int>
    decreases s.len() + 1 - i,
{
    if i < 0 || i > s.len() {
        None
    } else if crate::text::occurs_at(s, p, i) {
        Some(i)
    } else {
        find_from(s, p, i + 1)
    }
}

/// The first position of `p` in `s`.
pub fn find_text(s: &[char], p: &[char]) -> (r: Option<usize>)
    ensures
        match r {
            Some(i) => find_from(s@, p@, 0) == Some(i as int) && i <= s@.len(),
            None => find_from(s@, p@, 0) is None,
        },
{
    let mut i: usize = 0;
    while i < s.len()
        invariant
            i <= s@.len(),
            find_from(s@, p@, 0) == find_from(s@, p@, i as int),
        decreases s.len() - i,
    {
        if matches_at(s, p, i) {
            return Some(i);
        }
        i = i + 1;
    }
    if matches_at(s, p, i) {
        return Some(i);
    }
    assert(find_from(s@, p@, s@.len() + 1int) is None);
    None
}

} // verus!
