//! Character-sequence utilities the table parsers are built on.
//!
//! Console output arrives as ordinary strings; every helper here has an exec
//! form whose result is pinned to a spec function over `Seq<char>`, so the
//! parsers can reason about the text they slice.

use vstd::prelude::*;
use vstd::string::StrSliceExecFns;
use vstd::string::StringExecFns;

verus! {

/// ASCII whitespace as it occurs in console output.
pub open spec fn spec_is_space(c: char) -> bool {
    c == ' ' || c == '\t' || c == '\r' || c == '\n' || c == '\u{b}' || c == '\u{c}'
}

/// Decimal digit.
pub open spec fn spec_is_digit(c: char) -> bool {
    '0' <= c && c <= '9'
}

pub fn is_space(c: char) -> (r: bool)
    ensures
        r == spec_is_space(c),
{
    c == ' ' || c == '\t' || c == '\r' || c == '\n' || c == '\u{b}' || c == '\u{c}'
}

pub fn is_digit(c: char) -> (r: bool)
    ensures
        r == spec_is_digit(c),
{
    '0' <= c && c <= '9'
}

/// Index of the first `'\n'` in `s`, or `s.len()` if there is none.
pub open spec fn spec_first_nl(s: Seq<char>) -> nat
    decreases s.len(),
{
    if s.len() == 0 {
        0
    } else if s[0] == '\n' {
        0
    } else {
        1 + spec_first_nl(s.skip(1))
    }
}

pub proof fn lemma_first_nl(s: Seq<char>)
    ensures
        spec_first_nl(s) <= s.len(),
        spec_first_nl(s) < s.len() ==> s[spec_first_nl(s) as int] == '\n',
        forall|j: int| 0 <= j < spec_first_nl(s) ==> s[j] != '\n',
    decreases s.len(),
{
    if s.len() == 0 {
    } else if s[0] == '\n' {
    } else {
        lemma_first_nl(s.skip(1));
        assert forall|j: int| 0 <= j < spec_first_nl(s) implies s[j] != '\n' by {
            if j > 0 {
                assert(s.skip(1)[j - 1] == s[j]);
            }
        }
    }
}

/// The first position of `'\n'` determines `spec_first_nl`.
pub proof fn lemma_first_nl_is(s: Seq<char>, k: int)
    requires
        0 <= k <= s.len(),
        forall|j: int| 0 <= j < k ==> s[j] != '\n',
        k < s.len() ==> s[k] == '\n',
    ensures
        spec_first_nl(s) == k,
    decreases s.len(),
{
    if s.len() == 0 {
    } else if s[0] == '\n' {
        assert(k == 0);
    } else {
        assert(k >= 1);
        lemma_first_nl_is(s.skip(1), k - 1);
    }
}

/// A single carriage return directly before a line break is dropped, as in
/// `str::lines`.
pub open spec fn spec_strip_cr(l: Seq<char>) -> Seq<char> {
    if l.len() > 0 && l.last() == '\r' {
        l.drop_last()
    } else {
        l
    }
}

/// The lines of `s`, split at `'\n'`, each piece before a break losing a
/// trailing `'\r'`; a final piece without a break is kept as it stands, and
/// an empty final piece is dropped.
pub open spec fn spec_lines(s: Seq<char>) -> Seq<Seq<char>>
    decreases s.len(),
{
    if s.len() == 0 {
        Seq::empty()
    } else {
        let k = spec_first_nl(s);
        if k >= s.len() {
            seq![s]
        } else {
            seq![spec_strip_cr(s.take(k as int))] + spec_lines(s.skip(k as int + 1))
        }
    }
}

/// Exec form of `spec_lines`: owns each line.
pub fn split_lines(s: &str) -> (r: Vec<String>)
    ensures
        r.deep_view() == spec_lines(s@),
{
    let len: usize = s.unicode_len();
    let mut r: Vec<String> = Vec::new();
    let mut start: usize = 0;
    let mut i: usize = 0;
    proof {
        assert(s@.skip(0) =~= s@);
        assert(r.deep_view() =~= Seq::<Seq<char>>::empty());
        assert(spec_lines(s@) =~= r.deep_view() + spec_lines(s@.skip(0)));
    }
    while i < len
        invariant
            0 <= start <= i <= len,
            len == s@.len(),
            forall|j: int| start <= j < i ==> s@[j] != '\n',
            spec_lines(s@) == r.deep_view() + spec_lines(s@.skip(start as int)),
        decreases len - i,
    {
        let c = s.get_char(i);
        if c == '\n' {
            let piece: &str = if i > start && s.get_char(i - 1) == '\r' {
                s.substring_char(start, i - 1)
            } else {
                s.substring_char(start, i)
            };
            let owned: String = piece.to_owned();
            let ghost tail = s@.skip(start as int);
            let ghost prev = r.deep_view();
            proof {
                assert forall|j: int| 0 <= j < i - start implies tail[j] != '\n' by {
                    assert(tail[j] == s@[start + j]);
                }
                assert(tail[i - start] == s@[i as int]);
                lemma_first_nl_is(tail, i - start);
                assert(tail.take(i - start) =~= s@.subrange(start as int, i as int));
                assert(tail.skip(i - start + 1) =~= s@.skip(i + 1));
                assert(owned@ =~= spec_strip_cr(tail.take(i - start)));
                assert(spec_lines(tail) == seq![spec_strip_cr(tail.take(i - start))]
                    + spec_lines(tail.skip(i - start + 1)));
            }
            r.push(owned);
            proof {
                assert(r.deep_view() =~= prev.push(owned@));
                assert(spec_lines(s@) =~= r.deep_view() + spec_lines(s@.skip(i + 1)));
            }
            start = i + 1;
        }
        i = i + 1;
    }
    let ghost tail = s@.skip(start as int);
    proof {
        if start < len {
            assert forall|j: int| 0 <= j < len - start implies tail[j] != '\n' by {
                assert(tail[j] == s@[start + j]);
            }
            lemma_first_nl_is(tail, len - start);
            assert(spec_lines(tail) == seq![tail]);
        } else {
            assert(tail =~= Seq::<char>::empty());
        }
    }
    if start < len {
        let piece: &str = s.substring_char(start, len);
        let owned: String = piece.to_owned();
        let ghost prev = r.deep_view();
        proof {
            assert(owned@ =~= tail);
        }
        r.push(owned);
        proof {
            assert(r.deep_view() =~= prev.push(owned@));
        }
    }
    proof {
        assert(spec_lines(s@) =~= r.deep_view());
    }
    r
}

/// `p` occurs in `s` at position `i`.
pub open spec fn spec_match_at(s: Seq<char>, p: Seq<char>, i: int) -> bool {
    0 <= i && i + p.len() <= s.len() && s.subrange(i, i + p.len() as int) == p
}

/// Position of the first occurrence of `p` in `s`.
pub open spec fn spec_find(s: Seq<char>, p: Seq<char>) -> Option<int>
    decreases s.len(),
{
    if p.len() > s.len() {
        None
    } else if s.take(p.len() as int) == p {
        Some(0)
    } else if s.len() == 0 {
        None
    } else {
        match spec_find(s.skip(1), p) {
            Some(i) => Some(i + 1),
            None => None,
        }
    }
}

pub proof fn lemma_find(s: Seq<char>, p: Seq<char>)
    ensures
        match spec_find(s, p) {
            Some(i) => spec_match_at(s, p, i) && forall|j: int|
                0 <= j < i ==> !spec_match_at(s, p, j),
            None => forall|j: int| !spec_match_at(s, p, j),
        },
    decreases s.len(),
{
    if p.len() > s.len() {
    } else if s.take(p.len() as int) == p {
        assert(s.subrange(0, p.len() as int) =~= s.take(p.len() as int));
    } else if s.len() == 0 {
        assert(!spec_match_at(s, p, 0)) by {
            assert(s.subrange(0, p.len() as int) =~= s.take(p.len() as int));
        }
    } else {
        lemma_find(s.skip(1), p);
        assert forall|j: int| 1 <= j <= s.len() implies (spec_match_at(s, p, j)
            <==> spec_match_at(s.skip(1), p, j - 1)) by {
            if j + p.len() <= s.len() {
                assert(s.subrange(j, j + p.len() as int) =~= s.skip(1).subrange(
                    j - 1,
                    j - 1 + p.len() as int,
                ));
            }
        }
        assert(!spec_match_at(s, p, 0)) by {
            assert(s.subrange(0, p.len() as int) =~= s.take(p.len() as int));
        }
        match spec_find(s.skip(1), p) {
            Some(i) => {
                assert forall|j: int| 0 <= j < i + 1 implies !spec_match_at(s, p, j) by {
                    if j >= 1 {
                        assert(!spec_match_at(s.skip(1), p, j - 1));
                    }
                }
            },
            None => {
                assert forall|j: int| !spec_match_at(s, p, j) by {
                    if 1 <= j <= s.len() {
                        assert(!spec_match_at(s.skip(1), p, j - 1));
                    }
                }
            },
        }
    }
}

/// Whether the characters of `p` stand at position `i` of `s`, compared one
/// by one.
fn match_at(s: &str, p: &str, i: usize, s_len: usize, p_len: usize) -> (r: bool)
    requires
        s_len == s@.len(),
        p_len == p@.len(),
        i + p_len <= s_len,
    ensures
        r == spec_match_at(s@, p@, i as int),
{
    let mut k: usize = 0;
    while k < p_len
        invariant
            0 <= k <= p_len,
            s_len == s@.len(),
            p_len == p@.len(),
            i + p_len <= s_len,
            forall|m: int| 0 <= m < k ==> s@[i + m] == p@[m],
        decreases p_len - k,
    {
        if s.get_char(i + k) != p.get_char(k) {
            proof {
                assert(s@.subrange(i as int, i + p@.len()) != p@) by {
                    assert(s@.subrange(i as int, i + p@.len())[k as int] == s@[i + k]);
                }
            }
            return false;
        }
        k = k + 1;
    }
    proof {
        assert(s@.subrange(i as int, i + p@.len()) =~= p@);
    }
    true
}

/// First occurrence of `p` in `s`, as `str::find` reports it.
pub fn find_str(s: &str, p: &str) -> (r: Option<usize>)
    ensures
        match r {
            Some(i) => spec_find(s@, p@) == Some(i as int),
            None => spec_find(s@, p@) is None,
        },
{
    let s_len: usize = s.unicode_len();
    let p_len: usize = p.unicode_len();
    proof {
        lemma_find(s@, p@);
    }
    if p_len > s_len {
        return None;
    }
    if p_len == 0 {
        proof {
            assert(s@.take(0) =~= p@);
        }
        return Some(0);
    }
    let mut j: usize = 0;
    while j <= s_len - p_len
        invariant
            0 <= j,
            1 <= p_len <= s_len,
            j <= s_len - p_len + 1,
            s_len == s@.len(),
            p_len == p@.len(),
            forall|m: int| 0 <= m < j ==> !spec_match_at(s@, p@, m),
        decreases s_len - j,
    {
        if match_at(s, p, j, s_len, p_len) {
            proof {
                lemma_find(s@, p@);
                match spec_find(s@, p@) {
                    Some(i) => {
                        assert(!(i < j) && !(i > j));
                    },
                    None => {
                        assert(false);
                    },
                }
            }
            return Some(j);
        }
        j = j + 1;
    }
    proof {
        lemma_find(s@, p@);
        assert forall|m: int| !spec_match_at(s@, p@, m) by {
            if 0 <= m && m + p@.len() <= s@.len() {
                assert(!spec_match_at(s@, p@, m));
            }
        }
        match spec_find(s@, p@) {
            Some(i) => {
                assert(spec_match_at(s@, p@, i));
                assert(false);
            },
            None => {},
        }
    }
    None
}

pub open spec fn spec_contains(s: Seq<char>, p: Seq<char>) -> bool {
    spec_find(s, p) is Some
}

/// `str::contains` for string patterns.
pub fn contains_str(s: &str, p: &str) -> (r: bool)
    ensures
        r == spec_contains(s@, p@),
{
    find_str(s, p).is_some()
}

pub open spec fn spec_starts_with(s: Seq<char>, p: Seq<char>) -> bool {
    p.len() <= s.len() && s.take(p.len() as int) == p
}

/// `str::starts_with` for string patterns.
pub fn starts_with_str(s: &str, p: &str) -> (r: bool)
    ensures
        r == spec_starts_with(s@, p@),
{
    let s_len: usize = s.unicode_len();
    let p_len: usize = p.unicode_len();
    if p_len > s_len {
        return false;
    }
    let r = match_at(s, p, 0, s_len, p_len);
    proof {
        assert(s@.subrange(0, p@.len() as int) =~= s@.take(p@.len() as int));
    }
    r
}

/// Substring by character positions with both bounds clamped to the text:
/// positions past the end stop at the end, and a start at or beyond the stop
/// yields the empty string.
pub open spec fn spec_substring(s: Seq<char>, a: int, b: int) -> Seq<char> {
    let lo = if a > s.len() {
        s.len() as int
    } else {
        a
    };
    let hi = if b > s.len() {
        s.len() as int
    } else {
        b
    };
    if hi < lo {
        s.subrange(lo, lo)
    } else {
        s.subrange(lo, hi)
    }
}

/// Exec form of `spec_substring`; owns the piece.
pub fn substring_clamped(s: &str, a: usize, b: usize) -> (r: String)
    ensures
        r@ == spec_substring(s@, a as int, b as int),
{
    let len: usize = s.unicode_len();
    let lo: usize = if a > len {
        len
    } else {
        a
    };
    let hi: usize = if b > len {
        len
    } else {
        b
    };
    let hi: usize = if hi < lo {
        lo
    } else {
        hi
    };
    s.substring_char(lo, hi).to_owned()
}

pub open spec fn spec_trim_start(s: Seq<char>) -> Seq<char>
    decreases s.len(),
{
    if s.len() > 0 && spec_is_space(s[0]) {
        spec_trim_start(s.skip(1))
    } else {
        s
    }
}

pub open spec fn spec_trim_end(s: Seq<char>) -> Seq<char>
    decreases s.len(),
{
    if s.len() > 0 && spec_is_space(s.last()) {
        spec_trim_end(s.drop_last())
    } else {
        s
    }
}

/// The text with leading and trailing whitespace removed.
pub open spec fn spec_trim(s: Seq<char>) -> Seq<char> {
    spec_trim_end(spec_trim_start(s))
}

proof fn lemma_trim_start_skip(s: Seq<char>, a: int)
    requires
        0 <= a <= s.len(),
        forall|j: int| 0 <= j < a ==> spec_is_space(s[j]),
        a < s.len() ==> !spec_is_space(s[a]),
    ensures
        spec_trim_start(s) == s.skip(a),
    decreases a,
{
    if a == 0 {
        assert(s.skip(0) =~= s);
        if s.len() > 0 && spec_is_space(s[0]) {
            assert(false);
        }
    } else {
        assert(spec_is_space(s[0]));
        let t = s.skip(1);
        assert forall|j: int| 0 <= j < a - 1 implies spec_is_space(t[j]) by {
            assert(t[j] == s[j + 1]);
        }
        if a - 1 < t.len() {
            assert(t[a - 1] == s[a]);
        }
        lemma_trim_start_skip(t, a - 1);
        assert(t.skip(a - 1) =~= s.skip(a));
    }
}

proof fn lemma_trim_end_take(s: Seq<char>, b: int)
    requires
        0 <= b <= s.len(),
        forall|j: int| b <= j < s.len() ==> spec_is_space(s[j]),
        b > 0 ==> !spec_is_space(s[b - 1]),
    ensures
        spec_trim_end(s) == s.take(b),
    decreases s.len(),
{
    if b == s.len() {
        assert(s.take(b) =~= s);
        if s.len() > 0 && spec_is_space(s.last()) {
            assert(false);
        }
    } else {
        assert(spec_is_space(s.last()));
        let t = s.drop_last();
        assert forall|j: int| b <= j < t.len() implies spec_is_space(t[j]) by {
            assert(t[j] == s[j]);
        }
        lemma_trim_end_take(t, b);
        assert(t.take(b) =~= s.take(b));
    }
}

/// `str::trim` restricted to the ASCII whitespace of console output.
pub fn trim_str(s: &str) -> (r: String)
    ensures
        r@ == spec_trim(s@),
{
    let len: usize = s.unicode_len();
    let mut a: usize = 0;
    while a < len && is_space(s.get_char(a))
        invariant
            0 <= a <= len,
            len == s@.len(),
            forall|j: int| 0 <= j < a ==> spec_is_space(s@[j]),
        decreases len - a,
    {
        a = a + 1;
    }
    let mut b: usize = len;
    while b > a && is_space(s.get_char(b - 1))
        invariant
            a <= b <= len,
            len == s@.len(),
            forall|j: int| b <= j < len ==> spec_is_space(s@[j]),
        decreases b,
    {
        b = b - 1;
    }
    let r = s.substring_char(a, b).to_owned();
    proof {
        lemma_trim_start_skip(s@, a as int);
        let t = s@.skip(a as int);
        assert forall|j: int| b - a <= j < t.len() implies spec_is_space(t[j]) by {
            assert(t[j] == s@[j + a]);
        }
        if b > a {
            assert(t[b - a - 1] == s@[b - 1]);
        }
        lemma_trim_end_take(t, b - a);
        assert(t.take(b - a) =~= s@.subrange(a as int, b as int));
    }
    r
}

/// Value of a digit string, most significant digit first.
pub open spec fn spec_digits_val(s: Seq<char>) -> int
    decreases s.len(),
{
    if s.len() == 0 {
        0
    } else {
        spec_digits_val(s.drop_last()) * 10 + (s.last() as int - '0' as int)
    }
}

pub open spec fn spec_all_digits(s: Seq<char>) -> bool {
    forall|j: int| 0 <= j < s.len() ==> spec_is_digit(s[j])
}

proof fn lemma_digits_val_nonneg(s: Seq<char>)
    requires
        spec_all_digits(s),
    ensures
        spec_digits_val(s) >= 0,
    decreases s.len(),
{
    if s.len() > 0 {
        let t = s.drop_last();
        assert(spec_all_digits(t));
        lemma_digits_val_nonneg(t);
        assert(spec_is_digit(s.last()));
    }
}

proof fn lemma_digits_val_grows(s: Seq<char>, i: int)
    requires
        spec_all_digits(s),
        0 <= i <= s.len(),
    ensures
        spec_digits_val(s) >= spec_digits_val(s.take(i)),
    decreases s.len() - i,
{
    if i < s.len() {
        let u = s.take(i + 1);
        let t = s.take(i);
        assert(u.drop_last() =~= t);
        assert(spec_all_digits(t));
        lemma_digits_val_nonneg(t);
        assert(spec_is_digit(u.last()));
        assert(spec_digits_val(u) == spec_digits_val(t) * 10 + (u.last() as int - '0' as int));
        lemma_digits_val_grows(s, i + 1);
        assert(s.take(s.len() as int) =~= s);
    } else {
        assert(s.take(s.len() as int) =~= s);
    }
}

/// `str::parse::<u32>`: an optional `'+'` sign, then one or more digits,
/// rejected on any other shape or on overflow.
pub open spec fn spec_parse_u32(s: Seq<char>) -> Option<u32> {
    let ds = if s.len() > 0 && s[0] == '+' {
        s.skip(1)
    } else {
        s
    };
    if ds.len() == 0 || !spec_all_digits(ds) || spec_digits_val(ds) > u32::MAX {
        None
    } else {
        Some(spec_digits_val(ds) as u32)
    }
}

/// Exec form of `spec_parse_u32`.
pub fn parse_u32_str(s: &str) -> (r: Option<u32>)
    ensures
        r == spec_parse_u32(s@),
{
    let len: usize = s.unicode_len();
    let start: usize = if len > 0 && s.get_char(0) == '+' {
        1
    } else {
        0
    };
    let ghost ds = if s@.len() > 0 && s@[0] == '+' {
        s@.skip(1)
    } else {
        s@
    };
    proof {
        if start == 0 {
            assert(ds =~= s@.skip(0));
        }
    }
    if start == len {
        return None;
    }
    let mut acc: u64 = 0;
    let mut i: usize = start;
    while i < len
        invariant
            start <= i <= len,
            len == s@.len(),
            start == 0 || start == 1,
            start == 1 ==> s@.len() > 0 && s@[0] == '+',
            start == 0 ==> !(s@.len() > 0 && s@[0] == '+'),
            ds == s@.skip(start as int),
            spec_all_digits(ds.take(i - start)),
            acc == spec_digits_val(ds.take(i - start)),
            acc <= u32::MAX,
        decreases len - i,
    {
        let c = s.get_char(i);
        if !is_digit(c) {
            proof {
                assert(s@.skip(0) =~= s@);
                assert(ds[i - start] == s@[i as int]);
                assert(!spec_all_digits(ds));
            }
            return None;
        }
        let d: u64 = (c as u32) as u64 - 48;
        proof {
            assert(ds[i - start] == s@[i as int]);
            assert(ds.take(i - start + 1).drop_last() =~= ds.take(i - start));
            assert(ds.take(i - start + 1).last() == ds[i - start]);
            assert('0' as int == 48);
        }
        acc = acc * 10 + d;
        i = i + 1;
        if acc > 0xffff_ffff {
            proof {
                assert(s@.skip(0) =~= s@);
                if spec_all_digits(ds) {
                    lemma_digits_val_grows(ds, i - start);
                    assert(ds.take(ds.len() as int) =~= ds);
                }
            }
            return None;
        }
    }
    proof {
        assert(s@.skip(0) =~= s@);
        assert(ds.take(ds.len() as int) =~= ds);
        lemma_digits_val_nonneg(ds);
    }
    Some(acc as u32)
}

/// Decimal digits of `n`, most significant first.
pub open spec fn spec_digit_char(d: int) -> char {
    if d == 0 {
        '0'
    } else if d == 1 {
        '1'
    } else if d == 2 {
        '2'
    } else if d == 3 {
        '3'
    } else if d == 4 {
        '4'
    } else if d == 5 {
        '5'
    } else if d == 6 {
        '6'
    } else if d == 7 {
        '7'
    } else if d == 8 {
        '8'
    } else {
        '9'
    }
}

pub open spec fn spec_u32_dec(n: nat) -> Seq<char>
    decreases n,
{
    if n < 10 {
        seq![spec_digit_char(n as int)]
    } else {
        spec_u32_dec(n / 10) + seq![spec_digit_char((n % 10) as int)]
    }
}

fn digit_str(d: u32) -> (r: &'static str)
    requires
        d < 10,
    ensures
        r@ == seq![spec_digit_char(d as int)],
{
    proof {
        reveal_strlit("0");
        reveal_strlit("1");
        reveal_strlit("2");
        reveal_strlit("3");
        reveal_strlit("4");
        reveal_strlit("5");
        reveal_strlit("6");
        reveal_strlit("7");
        reveal_strlit("8");
        reveal_strlit("9");
    }
    let r = match d {
        0 => "0",
        1 => "1",
        2 => "2",
        3 => "3",
        4 => "4",
        5 => "5",
        6 => "6",
        7 => "7",
        8 => "8",
        _ => "9",
    };
    proof {
        assert(r@ =~= seq![spec_digit_char(d as int)]);
    }
    r
}

/// Decimal rendering of `n`, as `format!("{}", n)` writes it.
pub fn u32_to_dec(n: u32) -> (r: String)
    ensures
        r@ == spec_u32_dec(n as nat),
    decreases n,
{
    if n < 10 {
        digit_str(n).to_owned()
    } else {
        let mut s = u32_to_dec(n / 10);
        s.append(digit_str(n % 10));
        proof {
            assert(s@ =~= spec_u32_dec(n as nat));
        }
        s
    }
}

/// Index of the first `','` in `s`, or `s.len()` if there is none.
pub open spec fn spec_first_comma(s: Seq<char>) -> nat
    decreases s.len(),
{
    if s.len() == 0 {
        0
    } else if s[0] == ',' {
        0
    } else {
        1 + spec_first_comma(s.skip(1))
    }
}

pub proof fn lemma_first_comma_is(s: Seq<char>, k: int)
    requires
        0 <= k <= s.len(),
        forall|j: int| 0 <= j < k ==> s[j] != ',',
        k < s.len() ==> s[k] == ',',
    ensures
        spec_first_comma(s) == k,
    decreases s.len(),
{
    if s.len() == 0 {
    } else if s[0] == ',' {
        assert(k == 0);
    } else {
        assert(k >= 1);
        lemma_first_comma_is(s.skip(1), k - 1);
    }
}

/// The pieces of `s` between commas, as `str::split(',')` yields them: empty
/// pieces are kept, and the empty string is one empty piece.
pub open spec fn spec_split_commas(s: Seq<char>) -> Seq<Seq<char>>
    decreases s.len(),
{
    let k = spec_first_comma(s);
    if k >= s.len() {
        seq![s]
    } else {
        seq![s.take(k as int)] + spec_split_commas(s.skip(k as int + 1))
    }
}

/// Exec form of `spec_split_commas`; owns each piece.
pub fn split_commas(s: &str) -> (r: Vec<String>)
    ensures
        r.deep_view() == spec_split_commas(s@),
{
    let len: usize = s.unicode_len();
    let mut r: Vec<String> = Vec::new();
    let mut start: usize = 0;
    let mut i: usize = 0;
    proof {
        assert(s@.skip(0) =~= s@);
        assert(r.deep_view() =~= Seq::<Seq<char>>::empty());
        assert(spec_split_commas(s@) =~= r.deep_view() + spec_split_commas(s@.skip(0)));
    }
    while i < len
        invariant
            0 <= start <= i <= len,
            len == s@.len(),
            forall|j: int| start <= j < i ==> s@[j] != ',',
            spec_split_commas(s@) == r.deep_view() + spec_split_commas(s@.skip(start as int)),
        decreases len - i,
    {
        let c = s.get_char(i);
        if c == ',' {
            let owned: String = s.substring_char(start, i).to_owned();
            let ghost tail = s@.skip(start as int);
            let ghost prev = r.deep_view();
            proof {
                assert forall|j: int| 0 <= j < i - start implies tail[j] != ',' by {
                    assert(tail[j] == s@[start + j]);
                }
                assert(tail[i - start] == s@[i as int]);
                lemma_first_comma_is(tail, i - start);
                assert(tail.take(i - start) =~= s@.subrange(start as int, i as int));
                assert(tail.skip(i - start + 1) =~= s@.skip(i + 1));
                assert(owned@ =~= tail.take(i - start));
                assert(spec_split_commas(tail) == seq![tail.take(i - start)] + spec_split_commas(
                    tail.skip(i - start + 1),
                ));
            }
            r.push(owned);
            proof {
                assert(r.deep_view() =~= prev.push(owned@));
                assert(spec_split_commas(s@) =~= r.deep_view() + spec_split_commas(s@.skip(i + 1)));
            }
            start = i + 1;
        }
        i = i + 1;
    }
    let ghost tail = s@.skip(start as int);
    proof {
        assert forall|j: int| 0 <= j < len - start implies tail[j] != ',' by {
            assert(tail[j] == s@[start + j]);
        }
        lemma_first_comma_is(tail, len - start);
        assert(spec_split_commas(tail) == seq![tail]);
    }
    let owned: String = s.substring_char(start, len).to_owned();
    let ghost prev = r.deep_view();
    proof {
        assert(owned@ =~= tail);
    }
    r.push(owned);
    proof {
        assert(r.deep_view() =~= prev.push(owned@));
        assert(spec_split_commas(s@) =~= r.deep_view());
    }
    r
}

/// Position of the first decimal digit in `s`, as `str::find` with a digit
/// pattern reports it.
pub open spec fn spec_find_digit(s: Seq<char>) -> Option<int>
    decreases s.len(),
{
    if s.len() == 0 {
        None
    } else if spec_is_digit(s[0]) {
        Some(0)
    } else {
        match spec_find_digit(s.skip(1)) {
            Some(i) => Some(i + 1),
            None => None,
        }
    }
}

pub proof fn lemma_find_digit(s: Seq<char>)
    ensures
        match spec_find_digit(s) {
            Some(i) => 0 <= i < s.len() && spec_is_digit(s[i]) && forall|j: int|
                0 <= j < i ==> !spec_is_digit(s[j]),
            None => forall|j: int| 0 <= j < s.len() ==> !spec_is_digit(s[j]),
        },
    decreases s.len(),
{
    if s.len() == 0 {
    } else if spec_is_digit(s[0]) {
    } else {
        lemma_find_digit(s.skip(1));
        assert forall|j: int| 1 <= j < s.len() implies s.skip(1)[j - 1] == s[j] by {}
        match spec_find_digit(s.skip(1)) {
            Some(i) => {
                assert(s.skip(1)[i] == s[i + 1]);
                assert forall|j: int| 0 <= j < i + 1 implies !spec_is_digit(s[j]) by {
                    if j >= 1 {
                        assert(!spec_is_digit(s.skip(1)[j - 1]));
                    }
                }
            },
            None => {
                assert forall|j: int| 0 <= j < s.len() implies !spec_is_digit(s[j]) by {
                    if j >= 1 {
                        assert(!spec_is_digit(s.skip(1)[j - 1]));
                    }
                }
            },
        }
    }
}

pub proof fn lemma_find_digit_is(s: Seq<char>, k: int)
    requires
        0 <= k <= s.len(),
        forall|j: int| 0 <= j < k ==> !spec_is_digit(s[j]),
        k < s.len() ==> spec_is_digit(s[k]),
    ensures
        k < s.len() ==> spec_find_digit(s) == Some(k),
        k == s.len() ==> spec_find_digit(s) is None,
{
    lemma_find_digit(s);
    match spec_find_digit(s) {
        Some(i) => {
            if k < s.len() {
                assert(!(i < k) && !(k < i));
            }
        },
        None => {},
    }
}

/// Exec form of `spec_find_digit`.
pub fn find_digit_str(s: &str) -> (r: Option<usize>)
    ensures
        match r {
            Some(i) => spec_find_digit(s@) == Some(i as int),
            None => spec_find_digit(s@) is None,
        },
{
    let len: usize = s.unicode_len();
    let mut i: usize = 0;
    while i < len
        invariant
            0 <= i <= len,
            len == s@.len(),
            forall|j: int| 0 <= j < i ==> !spec_is_digit(s@[j]),
        decreases len - i,
    {
        if is_digit(s.get_char(i)) {
            proof {
                lemma_find_digit_is(s@, i as int);
            }
            return Some(i);
        }
        i = i + 1;
    }
    proof {
        lemma_find_digit_is(s@, len as int);
    }
    None
}

/// Character-for-character string equality.
pub fn str_eq(a: &str, b: &str) -> (r: bool)
    ensures
        r == (a@ == b@),
{
    let a_len: usize = a.unicode_len();
    let b_len: usize = b.unicode_len();
    if a_len != b_len {
        return false;
    }
    let r = match_at(a, b, 0, a_len, b_len);
    proof {
        assert(a@.subrange(0, b@.len() as int) =~= a@);
        if a@ == b@ {
            assert(spec_match_at(a@, b@, 0));
        }
    }
    r
}

} // verus!
