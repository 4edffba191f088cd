//! Character-level text handling for the SFZ format.

use vstd::prelude::*;

verus! {

/// The characters of `s`, in order.
pub fn chars_of(s: &str) -> (v: Vec<char>)
    ensures
        v@ == s@,
{
    let mut v: Vec<char> = Vec::new();
    for c in it: s.chars()
        invariant
            v@ == it.seq().take(it.index() as int),
            it.seq() == s@,
    {
        v.push(c);
    }
    v
}

/// A `String` holding exactly the characters `cs`.
///
/// Calls `FromIterator<char>` for `String` (through `collect`), which
/// appends the characters in order.
#[verifier::external_body]
pub fn string_from_chars(cs: &[char]) -> (s: String)
    ensures
        s@ == cs@,
{
    cs.iter().collect()
}

/// The lowercase mapping of Unicode, as `str::to_lowercase` applies it.
pub uninterp spec fn lowercase(s: Seq<char>) -> Seq<char>;

/// Calls `str::to_lowercase`; its result is a function of the text alone.
#[verifier::external_body]
pub fn to_lowercase(s: &str) -> (r: String)
    ensures
        r@ == lowercase(s@),
{
    s.to_lowercase()
}

/// Unicode `White_Space`, the set that `char::is_whitespace` and `str::trim`
/// use.
pub open spec fn is_ws(c: char) -> bool {
    let u = c as u32;
    (0x9 <= u && u <= 0xd) || u == 0x20 || u == 0x85 || u == 0xa0 || u == 0x1680 || (0x2000 <= u
        && u <= 0x200a) || u == 0x2028 || u == 0x2029 || u == 0x202f || u == 0x205f || u == 0x3000
}

pub fn is_whitespace(c: char) -> (b: bool)
    ensures
        b == is_ws(c),
{
    let u = c as u32;
    (0x9 <= u && u <= 0xd) || u == 0x20 || u == 0x85 || u == 0xa0 || u == 0x1680 || (0x2000 <= u
        && u <= 0x200a) || u == 0x2028 || u == 0x2029 || u == 0x202f || u == 0x205f || u == 0x3000
}

/// Whether `s` has a character that is not whitespace.
pub open spec fn has_content(s: Seq<char>) -> bool {
    exists|i: int| 0 <= i < s.len() && !is_ws(#[trigger] s[i])
}

/// Index of the first non-whitespace character (the length if none).
#[verifier::opaque]
pub open spec fn trim_lo(s: Seq<char>) -> int {
    if has_content(s) {
        choose|i: int|
            0 <= i < s.len() && !is_ws(s[i]) && (forall|j: int| 0 <= j < i ==> is_ws(#[trigger] s[j]))
    } else {
        s.len() as int
    }
}

/// One past the index of the last non-whitespace character (the length if
/// none).
#[verifier::opaque]
pub open spec fn trim_hi(s: Seq<char>) -> int {
    if has_content(s) {
        (choose|i: int|
            0 <= i < s.len() && !is_ws(s[i]) && (forall|j: int|
                i < j < s.len() ==> is_ws(#[trigger] s[j]))) + 1
    } else {
        s.len() as int
    }
}

/// `s` without leading and trailing whitespace, as `str::trim` returns it.
pub open spec fn trim(s: Seq<char>) -> Seq<char> {
    s.subrange(trim_lo(s), trim_hi(s))
}

/// Bounds of the trimmed part of `s[lo..hi]`.
pub fn trim_bounds(s: &Vec<char>, lo: usize, hi: usize) -> (r: (usize, usize))
    requires
        lo <= hi <= s.len(),
    ensures
        lo <= r.0 <= r.1 <= hi,
        s@.subrange(r.0 as int, r.1 as int) == trim(s@.subrange(lo as int, hi as int)),
{
    let ghost t = s@.subrange(lo as int, hi as int);
    reveal(trim_lo);
    reveal(trim_hi);
    let mut a = lo;
    while a < hi && is_whitespace(s[a])
        invariant
            lo <= a <= hi <= s.len(),
            t == s@.subrange(lo as int, hi as int),
            forall|j: int| lo <= j < a ==> is_ws(#[trigger] s@[j]),
        decreases hi - a,
    {
        a = a + 1;
    }
    if a == hi {
        assert(!has_content(t)) by {
            assert forall|i: int| 0 <= i < t.len() implies is_ws(#[trigger] t[i]) by {
                assert(t[i] == s@[lo + i]);
            }
        }
        assert(t.subrange(t.len() as int, t.len() as int) =~= s@.subrange(hi as int, hi as int));
        return (hi, hi);
    }
    let mut b = hi;
    while b > a && is_whitespace(s[b - 1])
        invariant
            lo <= a < hi,
            a <= b <= hi <= s.len(),
            !is_ws(s@[a as int]),
            forall|j: int| b <= j < hi ==> is_ws(#[trigger] s@[j]),
        decreases b,
    {
        b = b - 1;
    }
    proof {
        let i0 = a - lo;
        assert(t[i0] == s@[a as int]);
        assert(has_content(t));
        let c_lo = choose|i: int|
            0 <= i < t.len() && !is_ws(t[i]) && (forall|j: int| 0 <= j < i ==> is_ws(#[trigger] t[j]));
        assert forall|j: int| 0 <= j < i0 implies is_ws(#[trigger] t[j]) by {
            assert(t[j] == s@[lo + j]);
        }
        if c_lo < i0 {
            assert(t[c_lo] == s@[lo + c_lo]);
        }
        if c_lo > i0 {
            assert(is_ws(t[i0]));
        }
        assert(trim_lo(t) == i0);
        let i1 = b - 1 - lo;
        assert(t[i1] == s@[b - 1]);
        assert forall|j: int| i1 < j < t.len() implies is_ws(#[trigger] t[j]) by {
            assert(t[j] == s@[lo + j]);
        }
        let c_hi = choose|i: int|
            0 <= i < t.len() && !is_ws(t[i]) && (forall|j: int| i < j < t.len() ==> is_ws(#[trigger] t[j]));
        if c_hi < i1 {
            assert(is_ws(t[i1]));
        }
        if c_hi > i1 {
            assert(t[c_hi] == s@[lo + c_hi]);
        }
        assert(trim_hi(t) == i1 + 1);
        assert(s@.subrange(a as int, b as int) =~= t.subrange(i0, i1 + 1));
    }
    (a, b)
}

/// Index of the first occurrence of `c` in `s`, if any.
#[verifier::opaque]
pub open spec fn find_char(s: Seq<char>, c: char) -> Option<int> {
    if exists|i: int| 0 <= i < s.len() && s[i] == c {
        Some(choose|i: int| 0 <= i < s.len() && s[i] == c && (forall|j: int| 0 <= j < i ==> s[j] != c))
    } else {
        None
    }
}

/// Whether a `"//"` starts at index `i` of `s`.
pub open spec fn comment_at(s: Seq<char>, i: int) -> bool {
    0 <= i && i + 1 < s.len() && s[i] == '/' && s[i + 1] == '/'
}

/// Index of the first `"//"` in `s`, if any.
#[verifier::opaque]
pub open spec fn find_comment(s: Seq<char>) -> Option<int> {
    if exists|i: int| #[trigger] comment_at(s, i) {
        Some(choose|i: int| comment_at(s, i) && (forall|j: int| 0 <= j < i ==> !#[trigger] comment_at(s, j)))
    } else {
        None
    }
}

/// First index in `s[lo..hi]` of `c`, relative to `lo`.
pub fn find_char_in(s: &Vec<char>, lo: usize, hi: usize, c: char) -> (r: Option<usize>)
    requires
        lo <= hi <= s.len(),
    ensures
        match find_char(s@.subrange(lo as int, hi as int), c) {
            Some(i) => 0 <= i < hi - lo && r == Some((lo + i) as usize),
            None => r is None,
        },
        match r {
            Some(p) => lo <= p < hi,
            None => true,
        },
{
    let ghost t = s@.subrange(lo as int, hi as int);
    reveal(find_char);
    let mut i = lo;
    while i < hi
        invariant
            lo <= i <= hi <= s.len(),
            t == s@.subrange(lo as int, hi as int),
            forall|j: int| lo <= j < i ==> s@[j] != c,
        decreases hi - i,
    {
        if s[i] == c {
            proof {
                reveal(find_char);
                let k = i - lo;
                assert(t[k] == c);
                let ch = choose|m: int| 0 <= m < t.len() && t[m] == c && (forall|j: int| 0 <= j < m ==> t[j] != c);
                if ch < k {
                    assert(t[ch] == s@[lo + ch]);
                }
                if ch > k {
                    assert(t[k] != c);
                }
            }
            return Some(i);
        }
        i = i + 1;
    }
    proof {
        reveal(find_char);
        assert forall|m: int| 0 <= m < t.len() implies t[m] != c by {
            assert(t[m] == s@[lo + m]);
        }
    }
    None
}

/// First index in `s[lo..hi]` of `"//"`, relative to `lo`.
pub fn find_comment_in(s: &Vec<char>, lo: usize, hi: usize) -> (r: Option<usize>)
    requires
        lo <= hi <= s.len(),
    ensures
        match find_comment(s@.subrange(lo as int, hi as int)) {
            Some(i) => 0 <= i && i + 1 < hi - lo && r == Some((lo + i) as usize),
            None => r is None,
        },
        match r {
            Some(p) => lo <= p && p + 1 < hi,
            None => true,
        },
{
    let ghost t = s@.subrange(lo as int, hi as int);
    reveal(find_comment);
    let mut i = lo;
    while hi - i > 1
        invariant
            lo <= i <= hi <= s.len(),
            t == s@.subrange(lo as int, hi as int),
            forall|j: int| 0 <= j < i - lo ==> !#[trigger] comment_at(t, j),
        decreases hi - i,
    {
        if s[i] == '/' && s[i + 1] == '/' {
            proof {
                reveal(find_comment);
                let k = i - lo;
                assert(t[k] == '/' && t[k + 1] == '/');
                assert(comment_at(t, k));
                let ch = choose|m: int| comment_at(t, m) && (forall|j: int| 0 <= j < m ==> !#[trigger] comment_at(t, j));
                if ch > k {
                    assert(!comment_at(t, k));
                }
            }
            return Some(i);
        }
        proof {
            let k = i - lo;
            assert(t[k] == s@[i as int] && t[k + 1] == s@[i + 1]);
            assert forall|j: int| 0 <= j < k + 1 implies !#[trigger] comment_at(t, j) by {
                if j == k {
                    assert(!comment_at(t, k));
                }
            }
        }
        i = i + 1;
    }
    proof {
        reveal(find_comment);
        assert forall|m: int| #[trigger] comment_at(t, m) implies false by {
            assert(m < i - lo);
        }
    }
    None
}

/// `l` without one trailing carriage return.
pub open spec fn strip_cr(l: Seq<char>) -> Seq<char> {
    if l.len() > 0 && l.last() == '\r' {
        l.drop_last()
    } else {
        l
    }
}

/// Scans `s` for lines: the completed lines and the line still open.
pub open spec fn scan_lines(s: Seq<char>) -> (Seq<Seq<char>>, Seq<char>)
    decreases s.len(),
{
    if s.len() == 0 {
        (Seq::empty(), Seq::empty())
    } else {
        let (done, cur) = scan_lines(s.drop_last());
        if s.last() == '\n' {
            (done.push(strip_cr(cur)), Seq::empty())
        } else {
            (done, cur.push(s.last()))
        }
    }
}

/// The lines of `s`, as `str::lines` yields them: split at `'\n'`, a
/// carriage return before it removed, and no empty last line after a final
/// line break.
pub open spec fn lines(s: Seq<char>) -> Seq<Seq<char>> {
    let (done, cur) = scan_lines(s);
    if cur.len() > 0 {
        done.push(cur)
    } else {
        done
    }
}

/// The lines of `s` as `(start, end)` character bounds.
pub fn line_bounds(s: &Vec<char>) -> (r: Vec<(usize, usize)>)
    ensures
        r@.len() == lines(s@).len(),
        forall|k: int|
            0 <= k < r@.len() ==> {
                let (a, b) = #[trigger] r@[k];
                &&& a <= b <= s@.len()
                &&& s@.subrange(a as int, b as int) == lines(s@)[k]
            },
{
    let mut r: Vec<(usize, usize)> = Vec::new();
    let mut start: usize = 0;
    let mut i: usize = 0;
    while i < s.len()
        invariant
            start <= i <= s.len(),
            scan_lines(s@.take(i as int)).1 == s@.subrange(start as int, i as int),
            r@.len() == scan_lines(s@.take(i as int)).0.len(),
            forall|k: int|
                0 <= k < r@.len() ==> {
                    let (a, b) = #[trigger] r@[k];
                    &&& a <= b <= s@.len()
                    &&& s@.subrange(a as int, b as int) == scan_lines(s@.take(i as int)).0[k]
                },
        decreases s.len() - i,
    {
        let ghost prev = scan_lines(s@.take(i as int));
        assert(s@.take(i + 1).drop_last() =~= s@.take(i as int));
        if s[i] == '\n' {
            let mut end = i;
            if end > start && s[end - 1] == '\r' {
                end = end - 1;
            }
            proof {
                let cur = s@.subrange(start as int, i as int);
                assert(strip_cr(cur) =~= s@.subrange(start as int, end as int));
            }
            r.push((start, end));
            start = i + 1;
        }
        i = i + 1;
        proof {
            assert(s@.subrange(start as int, i as int) =~= scan_lines(s@.take(i as int)).1);
        }
    }
    assert(s@.take(s@.len() as int) =~= s@);
    if start < s.len() {
        r.push((start, s.len()));
    }
    r
}

/// Value of a run of decimal digits.
pub open spec fn digits_value(s: Seq<char>) -> int
    decreases s.len(),
{
    if s.len() == 0 {
        0
    } else {
        digits_value(s.drop_last()) * 10 + (s.last() as u32 - 48)
    }
}

pub open spec fn is_digit(c: char) -> bool {
    48 <= c as u32 && c as u32 <= 57
}

pub open spec fn all_digits(s: Seq<char>) -> bool {
    forall|i: int| 0 <= i < s.len() ==> is_digit(#[trigger] s[i])
}

/// Decimal integer text as Rust's `FromStr` for integer types reads it: an
/// optional `+` (or `-` when `min` is negative) followed by at least one
/// ASCII digit, with a value from `min` to `max`.
pub open spec fn parse_int_spec(s: Seq<char>, min: int, max: int) -> Option<int> {
    if s.len() == 0 {
        None
    } else if (s[0] == '+' || s[0] == '-') && s.len() == 1 {
        None
    } else {
        let neg = s[0] == '-' && min < 0;
        let body = if s[0] == '+' || neg {
            s.drop_first()
        } else {
            s
        };
        let v = if neg {
            -digits_value(body)
        } else {
            digits_value(body)
        };
        if all_digits(body) && min <= v <= max {
            Some(v)
        } else {
            None
        }
    }
}

proof fn lemma_digits_value_grows(s: Seq<char>, i: int)
    requires
        0 <= i <= s.len(),
        all_digits(s),
    ensures
        digits_value(s.take(i)) <= digits_value(s),
        digits_value(s) >= 0,
    decreases s.len(),
{
    lemma_digits_nonneg(s);
    if i < s.len() {
        let p = s.drop_last();
        assert(all_digits(p));
        lemma_digits_value_grows(p, i);
        assert(p.take(i) =~= s.take(i));
        assert(is_digit(s.last()));
        lemma_digits_nonneg(p);
    } else {
        assert(s.take(i) =~= s);
    }
}

proof fn lemma_digits_nonneg(s: Seq<char>)
    requires
        all_digits(s),
    ensures
        digits_value(s) >= 0,
    decreases s.len(),
{
    if s.len() > 0 {
        assert(all_digits(s.drop_last()));
        lemma_digits_nonneg(s.drop_last());
        assert(is_digit(s.last()));
    }
}

/// Parses `s[lo..hi]` as a decimal integer from `min` to `max`.
pub fn parse_int(s: &Vec<char>, lo: usize, hi: usize, min: i64, max: i64) -> (r: Option<i64>)
    requires
        lo <= hi <= s.len(),
        -0x1_0000_0000 <= min <= 0,
        0 <= max <= 0x1_0000_0000,
    ensures
        match parse_int_spec(s@.subrange(lo as int, hi as int), min as int, max as int) {
            Some(v) => r == Some(v as i64),
            None => r is None,
        },
{
    let ghost t = s@.subrange(lo as int, hi as int);
    if lo == hi {
        return None;
    }
    let first = s[lo];
    if (first == '+' || first == '-') && hi - lo == 1 {
        return None;
    }
    let neg = first == '-' && min < 0;
    let start = if first == '+' || neg {
        lo + 1
    } else {
        lo
    };
    let bound: i64 = if neg {
        -min
    } else {
        max
    };
    let ghost body = s@.subrange(start as int, hi as int);
    proof {
        assert(t[0] == first);
        if first == '+' || neg {
            assert(body =~= t.drop_first());
        } else {
            assert(body =~= t);
        }
    }
    let mut acc: i64 = 0;
    let mut i = start;
    while i < hi
        invariant
            lo <= start <= i <= hi <= s.len(),
            body == s@.subrange(start as int, hi as int),
            t == s@.subrange(lo as int, hi as int),
            t.len() > 0,
            t[0] == first,
            !((first == '+' || first == '-') && t.len() == 1),
            neg == (first == '-' && min < 0),
            (first == '+' || neg) ==> body == t.drop_first(),
            !(first == '+' || neg) ==> body == t,
            bound == (if neg { -min } else { max as int }),
            -0x1_0000_0000 <= min <= 0,
            0 <= max <= 0x1_0000_0000,
            0 <= bound <= 0x1_0000_0000,
            all_digits(s@.subrange(start as int, i as int)),
            acc == digits_value(s@.subrange(start as int, i as int)),
            0 <= acc <= bound,
        decreases hi - i,
    {
        let c = s[i];
        let ghost pre = s@.subrange(start as int, i as int);
        let ghost next = s@.subrange(start as int, i + 1);
        assert(next.drop_last() =~= pre);
        let u = c as u32;
        assert(u == c as u32);
        if !(48 <= u && u <= 57) {
            proof {
                assert(body[i - start] == c);
                assert(!is_digit(body[i - start]));
                assert(!all_digits(body));
            }
            return None;
        }
        let d = (u - 48) as i64;
        acc = acc * 10 + d;
        i = i + 1;
        if acc > bound {
            proof {
                assert(all_digits(next));
                if all_digits(body) {
                    assert(body.take(i - start) =~= next);
                    lemma_digits_value_grows(body, i - start);
                    assert(digits_value(body) > bound);
                }
            }
            return None;
        }
    }
    proof {
        assert(s@.subrange(start as int, hi as int) == body);
    }
    if neg {
        Some(-acc)
    } else {
        Some(acc)
    }
}

/// Whether `s` is the word `w`.
pub fn is_word(s: &String, w: &str) -> (b: bool)
    ensures
        b == (s@ == w@),
{
    let o = w.to_owned();
    *s == o
}

} // verus!
