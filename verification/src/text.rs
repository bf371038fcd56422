//! Character-level text utilities shared by the header parser, the chain
//! verdicts and the display helpers. Strings are modelled by their view, the
//! sequence of their `char`s.
use vstd::prelude::*;

verus! {

/// Appends one character to a `String` (std's `String::push`).
#[verifier::external_body]
pub(crate) fn push_char(s: &mut String, c: char)
    ensures
        final(s)@ == old(s)@.push(c),
{
    s.push(c)
}

/// The characters of `s`, in order.
pub fn chars_of(s: &str) -> (res: Vec<char>)
    ensures
        res@ == s@,
{
    let mut out: Vec<char> = Vec::new();
    for c in it: s.chars()
        invariant
            out@ == it.seq().take(it.index() as int),
            it.seq() == s@,
    {
        out.push(c);
    }
    out
}

/// Appends every character of `t` to `s`.
pub fn append_str(s: &mut String, t: &str)
    ensures
        final(s)@ == old(s)@ + t@,
{
    let ghost start = s@;
    for c in it: t.chars()
        invariant
            s@ == start + it.seq().take(it.index() as int),
            it.seq() == t@,
    {
        push_char(s, c);
        proof {
            assert(it.seq().take(it.index() + 1) =~= it.seq().take(it.index() as int).push(c));
        }
    }
    assert(t@.take(t@.len() as int) =~= t@);
}

/// A fresh `String` holding the characters of `cs[a..b]`.
pub fn string_of_range(cs: &Vec<char>, a: usize, b: usize) -> (res: String)
    requires
        a <= b <= cs@.len(),
    ensures
        res@ == cs@.subrange(a as int, b as int),
{
    let mut out = String::new();
    let mut i = a;
    while i < b
        invariant
            a <= i <= b <= cs@.len(),
            out@ == cs@.subrange(a as int, i as int),
        decreases b - i,
    {
        push_char(&mut out, cs[i]);
        assert(cs@.subrange(a as int, i + 1) =~= cs@.subrange(a as int, i as int).push(cs@[i as int]));
        i += 1;
    }
    out
}

/// A fresh `String` with the same characters as `s`.
pub fn owned(s: &str) -> (res: String)
    ensures
        res@ == s@,
{
    s.to_owned()
}

// ---------------------------------------------------------------------------
// Searching for a character
// ---------------------------------------------------------------------------

/// Index of the first occurrence of `c` in `s`, or `s.len()` when absent.
pub open spec fn index_of(s: Seq<char>, c: char) -> int
    decreases s.len(),
{
    if s.len() == 0 {
        0
    } else if s[0] == c {
        0
    } else {
        1 + index_of(s.drop_first(), c)
    }
}

pub proof fn lemma_index_of(s: Seq<char>, c: char)
    ensures
        0 <= index_of(s, c) <= s.len(),
        forall|j: int| 0 <= j < index_of(s, c) ==> s[j] != c,
        index_of(s, c) < s.len() ==> s[index_of(s, c)] == c,
    decreases s.len(),
{
    if s.len() > 0 && s[0] != c {
        lemma_index_of(s.drop_first(), c);
        assert forall|j: int| 0 <= j < index_of(s, c) implies s[j] != c by {
            if j > 0 {
                assert(s[j] == s.drop_first()[j - 1]);
            }
        }
    }
}

pub proof fn lemma_index_of_unique(s: Seq<char>, c: char, i: int)
    requires
        0 <= i <= s.len(),
        forall|j: int| 0 <= j < i ==> s[j] != c,
        i < s.len() ==> s[i] == c,
    ensures
        index_of(s, c) == i,
{
    lemma_index_of(s, c);
}

/// Position of the first `c` in `cs[a..b]`, or `b` when there is none.
pub fn index_of_in(cs: &Vec<char>, a: usize, b: usize, c: char) -> (r: usize)
    requires
        a <= b <= cs@.len(),
    ensures
        a <= r <= b,
        r - a == index_of(cs@.subrange(a as int, b as int), c),
{
    let mut i = a;
    while i < b
        invariant
            a <= i <= b <= cs@.len(),
            forall|j: int| a <= j < i ==> cs@[j] != c,
        decreases b - i,
    {
        if cs[i] == c {
            proof {
                lemma_index_of_unique(cs@.subrange(a as int, b as int), c, i - a);
            }
            return i;
        }
        i += 1;
    }
    proof {
        lemma_index_of_unique(cs@.subrange(a as int, b as int), c, i - a);
    }
    i
}

// ---------------------------------------------------------------------------
// Whitespace and trimming (`str::trim`)
// ---------------------------------------------------------------------------

/// `char::is_whitespace`: the Unicode `White_Space` property.
pub open spec fn is_white_space(c: char) -> bool {
    ||| ('\t' <= c && c <= '\r')
    ||| c == ' '
    ||| c == '\u{85}'
    ||| c == '\u{a0}'
    ||| c == '\u{1680}'
    ||| ('\u{2000}' <= c && c <= '\u{200a}')
    ||| c == '\u{2028}'
    ||| c == '\u{2029}'
    ||| c == '\u{202f}'
    ||| c == '\u{205f}'
    ||| c == '\u{3000}'
}

pub fn white_space(c: char) -> (r: bool)
    ensures
        r == is_white_space(c),
{
    ('\t' <= c && c <= '\r') || c == ' ' || c == '\u{85}' || c == '\u{a0}' || c == '\u{1680}' || (
    '\u{2000}' <= c && c <= '\u{200a}') || c == '\u{2028}' || c == '\u{2029}' || c == '\u{202f}'
        || c == '\u{205f}' || c == '\u{3000}'
}

pub open spec fn trim_start(s: Seq<char>) -> Seq<char>
    decreases s.len(),
{
    if s.len() > 0 && is_white_space(s[0]) {
        trim_start(s.drop_first())
    } else {
        s
    }
}

pub open spec fn trim_end(s: Seq<char>) -> Seq<char>
    decreases s.len(),
{
    if s.len() > 0 && is_white_space(s.last()) {
        trim_end(s.drop_last())
    } else {
        s
    }
}

/// `str::trim`: the sequence without its leading and trailing whitespace.
pub open spec fn trim(s: Seq<char>) -> Seq<char> {
    trim_end(trim_start(s))
}

proof fn lemma_trim_start(s: Seq<char>, k: int)
    requires
        0 <= k <= s.len(),
        forall|j: int| 0 <= j < k ==> is_white_space(s[j]),
        k == s.len() || !is_white_space(s[k]),
    ensures
        trim_start(s) == s.skip(k),
    decreases k,
{
    if k == 0 {
        assert(s.skip(0) =~= s);
    } else {
        let t = s.drop_first();
        assert forall|j: int| 0 <= j < k - 1 implies is_white_space(t[j]) by {
            assert(t[j] == s[j + 1]);
        }
        if k < s.len() {
            assert(t[k - 1] == s[k]);
        }
        lemma_trim_start(t, k - 1);
        assert(t.skip(k - 1) =~= s.skip(k));
    }
}

proof fn lemma_trim_end(s: Seq<char>, k: int)
    requires
        0 <= k <= s.len(),
        forall|j: int| k <= j < s.len() ==> is_white_space(s[j]),
        k == 0 || !is_white_space(s[k - 1]),
    ensures
        trim_end(s) == s.take(k),
    decreases s.len() - k,
{
    if k == s.len() {
        assert(s.take(k) =~= s);
    } else {
        let t = s.drop_last();
        assert forall|j: int| k <= j < t.len() implies is_white_space(t[j]) by {
            assert(t[j] == s[j]);
        }
        if k > 0 {
            assert(t[k - 1] == s[k - 1]);
        }
        lemma_trim_end(t, k);
        assert(t.take(k) =~= s.take(k));
    }
}

/// Bounds of `trim(cs[a..b])` inside `cs`.
pub fn trim_range(cs: &Vec<char>, a: usize, b: usize) -> (r: (usize, usize))
    requires
        a <= b <= cs@.len(),
    ensures
        a <= r.0 <= r.1 <= b,
        cs@.subrange(r.0 as int, r.1 as int) == trim(cs@.subrange(a as int, b as int)),
{
    let mut i = a;
    while i < b && white_space(cs[i])
        invariant
            a <= i <= b <= cs@.len(),
            forall|j: int| a <= j < i ==> is_white_space(cs@[j]),
        decreases b - i,
    {
        i += 1;
    }
    let mut k = b;
    while k > i && white_space(cs[k - 1])
        invariant
            a <= i <= k <= b <= cs@.len(),
            forall|j: int| k <= j < b ==> is_white_space(cs@[j]),
        decreases k - i,
    {
        k -= 1;
    }
    proof {
        let s = cs@.subrange(a as int, b as int);
        lemma_trim_start(s, i - a);
        let t = cs@.subrange(i as int, b as int);
        assert(s.skip(i - a) =~= t);
        lemma_trim_end(t, k - i);
        assert(t.take(k - i) =~= cs@.subrange(i as int, k as int));
    }
    (i, k)
}

// ---------------------------------------------------------------------------
// ASCII case folding and prefixes
// ---------------------------------------------------------------------------

/// The code point of `c` with ASCII upper-case letters folded to lower case.
pub open spec fn ascii_folded(c: char) -> u32 {
    if 'A' <= c && c <= 'Z' {
        (c as u32 + 32) as u32
    } else {
        c as u32
    }
}

pub fn fold_ascii(c: char) -> (r: u32)
    ensures
        r == ascii_folded(c),
{
    if 'A' <= c && c <= 'Z' {
        c as u32 + 32
    } else {
        c as u32
    }
}

/// `eq_ignore_ascii_case` on character sequences.
pub open spec fn eq_ignore_ascii_case(a: Seq<char>, b: Seq<char>) -> bool {
    &&& a.len() == b.len()
    &&& forall|i: int| 0 <= i < a.len() ==> ascii_folded(a[i]) == ascii_folded(b[i])
}

/// Whether `cs[a..b]` equals `pat` ignoring ASCII case.
pub fn range_eq_ignore_ascii_case(cs: &Vec<char>, a: usize, b: usize, pat: &Vec<char>) -> (r: bool)
    requires
        a <= b <= cs@.len(),
    ensures
        r == eq_ignore_ascii_case(cs@.subrange(a as int, b as int), pat@),
{
    if b - a != pat.len() {
        return false;
    }
    let mut i: usize = 0;
    while i < pat.len()
        invariant
            a <= b <= cs@.len(),
            b - a == pat@.len(),
            0 <= i <= pat@.len(),
            forall|j: int| 0 <= j < i ==> ascii_folded(cs@[a + j]) == ascii_folded(pat@[j]),
        decreases pat@.len() - i,
    {
        if fold_ascii(cs[a + i]) != fold_ascii(pat[i]) {
            assert(cs@.subrange(a as int, b as int)[i as int] == cs@[a + i]);
            return false;
        }
        i += 1;
    }
    assert forall|j: int| 0 <= j < pat@.len() implies ascii_folded(
        cs@.subrange(a as int, b as int)[j],
    ) == ascii_folded(pat@[j]) by {
        assert(cs@.subrange(a as int, b as int)[j] == cs@[a + j]);
    }
    true
}

/// `s` starts with `p`.
pub open spec fn has_prefix(s: Seq<char>, p: Seq<char>) -> bool {
    p.len() <= s.len() && s.take(p.len() as int) == p
}

/// Whether `cs[a..b]` starts with `pat`.
pub fn range_has_prefix(cs: &Vec<char>, a: usize, b: usize, pat: &Vec<char>) -> (r: bool)
    requires
        a <= b <= cs@.len(),
    ensures
        r == has_prefix(cs@.subrange(a as int, b as int), pat@),
{
    if b - a < pat.len() {
        return false;
    }
    let mut i: usize = 0;
    while i < pat.len()
        invariant
            a <= b <= cs@.len(),
            pat@.len() <= b - a,
            0 <= i <= pat@.len(),
            forall|j: int| 0 <= j < i ==> cs@[a + j] == pat@[j],
        decreases pat@.len() - i,
    {
        if cs[a + i] != pat[i] {
            assert(cs@.subrange(a as int, b as int).take(pat@.len() as int)[i as int] == cs@[a + i]);
            return false;
        }
        i += 1;
    }
    assert(cs@.subrange(a as int, b as int).take(pat@.len() as int) =~= pat@);
    true
}

/// `s` contains `p` as a contiguous piece.
pub open spec fn contains_seq(s: Seq<char>, p: Seq<char>) -> bool {
    exists|i: int| 0 <= i && i + p.len() <= s.len() && #[trigger] s.subrange(i, i + p.len()) == p
}

/// `str::contains` with a string pattern.
pub fn contains_chars(cs: &Vec<char>, pat: &Vec<char>) -> (r: bool)
    ensures
        r == contains_seq(cs@, pat@),
{
    if pat.len() > cs.len() {
        return false;
    }
    let last = cs.len() - pat.len();
    let mut i: usize = 0;
    loop
        invariant
            pat@.len() <= cs@.len(),
            last == cs@.len() - pat@.len(),
            i <= last,
            forall|k: int|
                0 <= k < i && k + pat@.len() <= cs@.len() ==> #[trigger] cs@.subrange(
                    k,
                    k + pat@.len(),
                ) != pat@,
        decreases last - i,
    {
        assert(cs@.subrange(i as int, cs@.len() as int).take(pat@.len() as int) =~= cs@.subrange(
            i as int,
            i + pat@.len(),
        ));
        if range_has_prefix(cs, i, cs.len(), pat) {
            return true;
        }
        if i == last {
            return false;
        }
        i += 1;
    }
}

// ---------------------------------------------------------------------------
// Decimal numbers (`u64::from_str` and `u64`'s `Display`)
// ---------------------------------------------------------------------------

pub open spec fn is_ascii_digit(c: char) -> bool {
    '0' <= c && c <= '9'
}

pub open spec fn digit_value(c: char) -> int {
    c as int - '0' as int
}

pub open spec fn all_digits(s: Seq<char>) -> bool {
    forall|i: int| 0 <= i < s.len() ==> is_ascii_digit(#[trigger] s[i])
}

/// The number written by the decimal digits `s`.
pub open spec fn decimal_value(s: Seq<char>) -> int
    decreases s.len(),
{
    if s.len() == 0 {
        0
    } else {
        decimal_value(s.drop_last()) * 10 + digit_value(s.last())
    }
}

/// `u64::from_str`: an optional `+`, then one or more ASCII digits whose
/// value fits in a `u64`.
pub open spec fn parse_u64(s: Seq<char>) -> Option<u64> {
    let d = if s.len() > 0 && s[0] == '+' {
        s.drop_first()
    } else {
        s
    };
    if d.len() > 0 && all_digits(d) && decimal_value(d) <= u64::MAX {
        Some(decimal_value(d) as u64)
    } else {
        None
    }
}

proof fn lemma_decimal_value_nonneg(s: Seq<char>)
    requires
        all_digits(s),
    ensures
        decimal_value(s) >= 0,
    decreases s.len(),
{
    if s.len() > 0 {
        assert(all_digits(s.drop_last())) by {
            assert forall|i: int| 0 <= i < s.drop_last().len() implies is_ascii_digit(
                #[trigger] s.drop_last()[i],
            ) by {
                assert(s.drop_last()[i] == s[i]);
            }
        }
        lemma_decimal_value_nonneg(s.drop_last());
        assert(is_ascii_digit(s[s.len() - 1]));
    }
}

proof fn lemma_decimal_value_prefix(s: Seq<char>, k: int)
    requires
        all_digits(s),
        0 <= k <= s.len(),
    ensures
        decimal_value(s.take(k)) <= decimal_value(s),
    decreases s.len() - k,
{
    if k < s.len() {
        let t = s.drop_last();
        assert(all_digits(t)) by {
            assert forall|i: int| 0 <= i < t.len() implies is_ascii_digit(#[trigger] t[i]) by {
                assert(t[i] == s[i]);
            }
        }
        lemma_decimal_value_prefix(t, k);
        assert(t.take(k) =~= s.take(k));
        lemma_decimal_value_nonneg(t);
        assert(is_ascii_digit(s[s.len() - 1]));
    } else {
        assert(s.take(k) =~= s);
    }
}

/// `u64::from_str` on `cs[a..b]`.
pub fn parse_u64_range(cs: &Vec<char>, a: usize, b: usize) -> (r: Option<u64>)
    requires
        a <= b <= cs@.len(),
    ensures
        r == parse_u64(cs@.subrange(a as int, b as int)),
{
    let ghost s = cs@.subrange(a as int, b as int);
    let start = if a < b && cs[a] == '+' {
        a + 1
    } else {
        a
    };
    let ghost d = cs@.subrange(start as int, b as int);
    assert(d =~= (if s.len() > 0 && s[0] == '+' {
        s.drop_first()
    } else {
        s
    }));
    if start == b {
        return None;
    }
    let mut acc: u64 = 0;
    let mut i = start;
    while i < b
        invariant
            a <= start < b <= cs@.len(),
            start <= i <= b,
            s == cs@.subrange(a as int, b as int),
            d == cs@.subrange(start as int, b as int),
            d == (if s.len() > 0 && s[0] == '+' {
                s.drop_first()
            } else {
                s
            }),
            forall|j: int| start <= j < i ==> is_ascii_digit(cs@[j]),
            acc as int == decimal_value(cs@.subrange(start as int, i as int)),
        decreases b - i,
    {
        let c = cs[i];
        if !('0' <= c && c <= '9') {
            assert(d[i - start] == c);
            assert(!is_ascii_digit(d[i - start]));
            return None;
        }
        let digit = (c as u32 - '0' as u32) as u64;
        let ghost next = cs@.subrange(start as int, i + 1);
        assert(next.drop_last() =~= cs@.subrange(start as int, i as int));
        assert(next.last() == c);
        assert(decimal_value(next) == acc * 10 + digit);
        assert(d.take(i + 1 - start) =~= next);
        assert forall|j: int| 0 <= j < i + 1 - start implies is_ascii_digit(d[j]) by {
            assert(d[j] == cs@[start + j]);
        }
        match acc.checked_mul(10) {
            Some(m) => match m.checked_add(digit) {
                Some(v) => {
                    acc = v;
                },
                None => {
                    proof {
                        lemma_overflow_or_bad_digit(d, i + 1 - start);
                    }
                    return None;
                },
            },
            None => {
                proof {
                    lemma_overflow_or_bad_digit(d, i + 1 - start);
                }
                return None;
            },
        }
        i += 1;
    }
    assert(cs@.subrange(start as int, i as int) =~= d);
    assert(all_digits(d)) by {
        assert forall|j: int| 0 <= j < d.len() implies is_ascii_digit(#[trigger] d[j]) by {
            assert(d[j] == cs@[start + j]);
        }
    }
    Some(acc)
}

/// Once a prefix of digits exceeds `u64::MAX`, the whole piece fails to parse.
proof fn lemma_overflow_or_bad_digit(d: Seq<char>, k: int)
    requires
        0 < k <= d.len(),
        forall|j: int| 0 <= j < k ==> is_ascii_digit(d[j]),
        decimal_value(d.take(k)) > u64::MAX,
    ensures
        !(d.len() > 0 && all_digits(d) && decimal_value(d) <= u64::MAX),
{
    if all_digits(d) {
        lemma_decimal_value_prefix(d, k);
    }
}

/// The decimal digits of `n`, most significant first, without leading zeros.
pub open spec fn decimal_digits(n: nat) -> Seq<char>
    decreases n,
{
    if n < 10 {
        seq![digit_char(n)]
    } else {
        decimal_digits(n / 10).push(digit_char(n % 10))
    }
}

pub open spec fn digit_char(d: nat) -> char {
    ('0' as u32 + d) as char
}

fn digit_to_char(d: u64) -> (c: char)
    requires
        d < 10,
    ensures
        c == digit_char(d as nat),
{
    let b: u8 = 48u8 + d as u8;
    b as char
}

/// Appends the decimal text of `n` to `s`.
pub fn push_decimal(s: &mut String, n: u64)
    ensures
        final(s)@ == old(s)@ + decimal_digits(n as nat),
    decreases n,
{
    if n >= 10 {
        push_decimal(s, n / 10);
    }
    push_char(s, digit_to_char(n % 10));
    proof {
        if n >= 10 {
            assert(decimal_digits(n as nat) == decimal_digits((n / 10) as nat).push(
                digit_char((n % 10) as nat),
            ));
        }
    }
}

/// Reading back the decimal text of a number gives the number.
pub proof fn lemma_parse_decimal_digits(n: u64)
    ensures
        parse_u64(decimal_digits(n as nat)) == Some(n),
{
    lemma_decimal_digits(n as nat);
}

proof fn lemma_decimal_digits(n: nat)
    ensures
        decimal_digits(n).len() > 0,
        all_digits(decimal_digits(n)),
        decimal_value(decimal_digits(n)) == n,
    decreases n,
{
    if n >= 10 {
        lemma_decimal_digits(n / 10);
        let p = decimal_digits(n / 10);
        let s = p.push(digit_char(n % 10));
        assert(s.drop_last() =~= p);
        assert forall|i: int| 0 <= i < s.len() implies is_ascii_digit(#[trigger] s[i]) by {
            if i < p.len() {
                assert(s[i] == p[i]);
            }
        }
        assert(n == (n / 10) * 10 + n % 10) by (nonlinear_arith);
        assert(digit_value(digit_char(n % 10)) == n % 10);
        assert(decimal_digits(n) == s);
        assert(s.last() == digit_char(n % 10));
        assert(decimal_value(s) == decimal_value(p) * 10 + digit_value(s.last()));
        assert(decimal_value(s) == (n / 10) * 10 + n % 10);
    } else {
        let s = seq![digit_char(n)];
        assert(s.drop_last() =~= Seq::<char>::empty());
        assert(decimal_value(s.drop_last()) == 0);
        assert(decimal_value(s) == digit_value(s.last()));
        assert(digit_value(digit_char(n)) == n);
    }
}

} // verus!

verus! {

/// Whether two strings hold the same characters.
pub fn str_eq(a: &str, b: &str) -> (r: bool)
    ensures
        r == (a@ == b@),
{
    let x = chars_of(a);
    let y = chars_of(b);
    if x.len() != y.len() {
        return false;
    }
    let mut i: usize = 0;
    while i < x.len()
        invariant
            x@ == a@,
            y@ == b@,
            x@.len() == y@.len(),
            0 <= i <= x@.len(),
            forall|j: int| 0 <= j < i ==> x@[j] == y@[j],
        decreases x@.len() - i,
    {
        if x[i] != y[i] {
            assert(x@[i as int] != y@[i as int]);
            return false;
        }
        i += 1;
    }
    assert(x@ =~= y@);
    true
}

/// Whether two byte strings are equal.
pub fn bytes_eq(a: &[u8], b: &[u8]) -> (r: bool)
    ensures
        r == (a@ == b@),
{
    if a.len() != b.len() {
        return false;
    }
    let mut i: usize = 0;
    while i < a.len()
        invariant
            a@.len() == b@.len(),
            0 <= i <= a@.len(),
            forall|j: int| 0 <= j < i ==> a@[j] == b@[j],
        decreases a@.len() - i,
    {
        if a[i] != b[i] {
            assert(a@[i as int] != b@[i as int]);
            return false;
        }
        i += 1;
    }
    assert(a@ =~= b@);
    true
}

} // verus!

verus! {

/// `s` with `c` inserted before the character at `idx`.
pub fn insert_char(s: &str, idx: usize, c: char) -> (r: String)
    requires
        idx <= s@.len(),
    ensures
        r@ == s@.take(idx as int).push(c) + s@.skip(idx as int),
{
    let cs = chars_of(s);
    let mut out = string_of_range(&cs, 0, idx);
    push_char(&mut out, c);
    let rest = string_of_range(&cs, idx, cs.len());
    append_str(&mut out, rest.as_str());
    assert(cs@.subrange(0, idx as int) =~= s@.take(idx as int));
    assert(cs@.subrange(idx as int, cs@.len() as int) =~= s@.skip(idx as int));
    out
}

/// `s` without the character at `idx`.
pub fn remove_char(s: &str, idx: usize) -> (r: String)
    requires
        idx < s@.len(),
    ensures
        r@ == s@.take(idx as int) + s@.skip(idx + 1),
{
    let cs = chars_of(s);
    let mut out = string_of_range(&cs, 0, idx);
    let n = cs.len();
    let rest = string_of_range(&cs, idx + 1, n);
    append_str(&mut out, rest.as_str());
    assert(cs@.subrange(0, idx as int) =~= s@.take(idx as int));
    assert(cs@.subrange(idx + 1, cs@.len() as int) =~= s@.skip(idx + 1));
    out
}

/// The number of characters in `s`.
pub fn char_count(s: &str) -> (r: usize)
    ensures
        r == s@.len(),
{
    chars_of(s).len()
}

/// Whether `c` is a control character: general category Cc, the code
/// points U+0000 to U+001F and U+007F to U+009F (as `char::is_control`).
pub open spec fn is_control(c: char) -> bool {
    (c as u32) < 0x20 || (0x7f <= (c as u32) && (c as u32) <= 0x9f)
}

/// The character that stands in for a control character on screen.
pub const CONTROL_REPLACEMENT: char = '\u{FFFD}';

/// `s` with every control character replaced by U+FFFD and every other
/// character kept in place.
pub open spec fn sanitized(s: Seq<char>) -> Seq<char> {
    s.map_values(|c: char| if is_control(c) { CONTROL_REPLACEMENT } else { c })
}

/// Whether `c` is a control character.
pub fn control_char(c: char) -> (r: bool)
    ensures
        r == is_control(c),
{
    let v = c as u32;
    v < 0x20 || (0x7f <= v && v <= 0x9f)
}

/// A copy of `s` safe to put in a terminal cell: every control character
/// (such as the escape that starts a terminal control sequence) replaced
/// by U+FFFD, every other character kept in place.
pub fn sanitize(s: &str) -> (r: String)
    ensures
        r@ == sanitized(s@),
        r@.len() == s@.len(),
        forall|i: int| 0 <= i < r@.len() ==> !is_control(#[trigger] r@[i]),
        forall|i: int| 0 <= i < s@.len() && !is_control(s@[i]) ==> r@[i] == s@[i],
{
    let mut out = String::new();
    for c in it: s.chars()
        invariant
            it.seq() == s@,
            out@ == sanitized(it.seq().take(it.index() as int)),
    {
        let d = if control_char(c) {
            CONTROL_REPLACEMENT
        } else {
            c
        };
        push_char(&mut out, d);
        proof {
            assert(sanitized(it.seq().take(it.index() + 1)) =~= sanitized(
                it.seq().take(it.index() as int),
            ).push(d));
        }
    }
    assert(s@.take(s@.len() as int) =~= s@);
    proof {
        assert(!is_control(CONTROL_REPLACEMENT));
    }
    out
}

/// `n` copies of `piece`, one after another.
pub open spec fn repeat_seq(piece: Seq<char>, n: nat) -> Seq<char>
    decreases n,
{
    if n == 0 {
        seq![]
    } else {
        repeat_seq(piece, (n - 1) as nat) + piece
    }
}

/// `str::repeat`, appended to `s`.
pub fn append_repeated(s: &mut String, piece: &str, n: usize)
    ensures
        final(s)@ == old(s)@ + repeat_seq(piece@, n as nat),
{
    let ghost start = s@;
    let mut i: usize = 0;
    while i < n
        invariant
            0 <= i <= n,
            s@ == start + repeat_seq(piece@, i as nat),
        decreases n - i,
    {
        append_str(s, piece);
        assert(repeat_seq(piece@, (i + 1) as nat) == repeat_seq(piece@, i as nat) + piece@);
        assert(start + repeat_seq(piece@, i as nat) + piece@ =~= start + (repeat_seq(
            piece@,
            i as nat,
        ) + piece@));
        i += 1;
    }
}

} // verus!

verus! {

/// A sequence without `c` has no index of it.
pub proof fn lemma_index_of_absent(s: Seq<char>, c: char)
    requires
        forall|i: int| 0 <= i < s.len() ==> s[i] != c,
    ensures
        index_of(s, c) == s.len(),
{
    lemma_index_of_unique(s, c, s.len() as int);
}

/// The first `c` of `a + b`, when `a` holds none, is the first `c` of `b`.
pub proof fn lemma_index_of_concat(a: Seq<char>, b: Seq<char>, c: char)
    requires
        forall|i: int| 0 <= i < a.len() ==> a[i] != c,
    ensures
        index_of(a + b, c) == a.len() + index_of(b, c),
{
    lemma_index_of(b, c);
    let s = a + b;
    let k = a.len() + index_of(b, c);
    assert forall|j: int| 0 <= j < k implies s[j] != c by {
        if j >= a.len() {
            assert(s[j] == b[j - a.len()]);
        }
    }
    if k < s.len() {
        assert(s[k] == b[index_of(b, c)]);
    }
    lemma_index_of_unique(s, c, k);
}

/// Trimming leaves alone a sequence that neither starts nor ends with
/// whitespace.
pub proof fn lemma_trim_unchanged(s: Seq<char>)
    requires
        s.len() > 0,
        !is_white_space(s[0]),
        !is_white_space(s.last()),
    ensures
        trim(s) == s,
{
    assert(trim_start(s) == s);
    assert(trim_end(s) == s);
}

/// Trimming drops leading whitespace.
pub proof fn lemma_trim_drops_leading(ws: Seq<char>, s: Seq<char>)
    requires
        forall|i: int| 0 <= i < ws.len() ==> is_white_space(ws[i]),
        s.len() > 0,
        !is_white_space(s[0]),
    ensures
        trim_start(ws + s) == s,
{
    lemma_trim_start(ws + s, ws.len() as int);
    assert((ws + s).skip(ws.len() as int) =~= s);
}

pub proof fn lemma_decimal_digits_shape(n: nat)
    ensures
        decimal_digits(n).len() > 0,
        all_digits(decimal_digits(n)),
{
    lemma_decimal_digits(n);
}

} // verus!
