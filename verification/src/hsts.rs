//! The `Strict-Transport-Security` header: whether the origin opts into HTTP
//! Strict Transport Security, and for how long.
use vstd::prelude::*;

use crate::text::{
    all_digits, ascii_folded, chars_of, decimal_digits, eq_ignore_ascii_case, has_prefix,
    index_of, index_of_in, is_white_space, lemma_decimal_digits_shape, lemma_index_of,
    lemma_index_of_absent, lemma_index_of_concat, lemma_parse_decimal_digits,
    lemma_trim_drops_leading, lemma_trim_unchanged, parse_u64, parse_u64_range,
    range_eq_ignore_ascii_case, range_has_prefix, trim, trim_end, trim_range, trim_start,
};

verus! {

/// Whether the origin opts into HTTP Strict Transport Security, and for
/// how long.
#[derive(Debug, Clone, Copy, PartialEq, Eq, Structural)]
pub enum Hsts {
    NotSet,
    MaxAge(u64),
}

/// A line without its trailing carriage return.
pub open spec fn strip_cr(line: Seq<char>) -> Seq<char> {
    if line.len() > 0 && line.last() == '\r' {
        line.drop_last()
    } else {
        line
    }
}

/// `str::lines`: the text split at each `\n`, each line without its `\r\n`
/// or `\n` ending; the last line's ending is optional, and an empty text
/// has no lines.
pub open spec fn lines(s: Seq<char>) -> Seq<Seq<char>>
    decreases s.len(),
{
    if s.len() == 0 {
        seq![]
    } else {
        let i = index_of(s, '\n');
        proof {
            lemma_index_of(s, '\n');
        }
        if i < s.len() {
            seq![strip_cr(s.take(i))] + lines(s.skip(i + 1))
        } else {
            seq![s]
        }
    }
}

/// The header name the parser looks for, compared ignoring ASCII case.
pub open spec fn hsts_name() -> Seq<char> {
    "strict-transport-security"@
}

/// The directive that carries the lifetime.
pub open spec fn max_age_prefix() -> Seq<char> {
    "max-age="@
}

/// The value of the first `;`-separated directive of a header value that
/// starts with `max-age=` (after trimming), read as a `u64`; `None` when no
/// directive starts so, or when the first one that does holds no number.
pub open spec fn max_age_of_value(value: Seq<char>) -> Option<u64>
    decreases value.len(),
{
    let i = index_of(value, ';');
    let piece = trim(value.take(i));
    if has_prefix(piece, max_age_prefix()) {
        parse_u64(trim(piece.skip(max_age_prefix().len() as int)))
    } else if 0 <= i < value.len() {
        max_age_of_value(value.skip(i + 1))
    } else {
        None
    }
}

/// The max-age a single header line carries: the line must split at its
/// first `:` into a name equal to `strict-transport-security` (ignoring
/// ASCII case and surrounding whitespace) and a value with a max-age.
pub open spec fn line_max_age(line: Seq<char>) -> Option<u64> {
    let c = index_of(line, ':');
    if 0 <= c < line.len() && eq_ignore_ascii_case(trim(line.take(c)), hsts_name()) {
        max_age_of_value(line.skip(c + 1))
    } else {
        None
    }
}

/// The max-age of the first line that carries one.
pub open spec fn first_max_age(ls: Seq<Seq<char>>) -> Hsts
    decreases ls.len(),
{
    if ls.len() == 0 {
        Hsts::NotSet
    } else {
        match line_max_age(ls[0]) {
            Some(age) => Hsts::MaxAge(age),
            None => first_max_age(ls.drop_first()),
        }
    }
}

/// What [`parse`] answers for the header text `headers`.
pub open spec fn hsts_of(headers: Seq<char>) -> Hsts {
    first_max_age(lines(headers))
}

fn max_age_directive_in(cs: &Vec<char>, a: usize, b: usize, prefix: &Vec<char>) -> (r: Option<u64>)
    requires
        a <= b <= cs@.len(),
        prefix@ == max_age_prefix(),
    ensures
        r == max_age_of_value(cs@.subrange(a as int, b as int)),
{
    let mut pos = a;
    loop
        invariant
            a <= pos <= b <= cs@.len(),
            prefix@ == max_age_prefix(),
            max_age_of_value(cs@.subrange(a as int, b as int)) == max_age_of_value(
                cs@.subrange(pos as int, b as int),
            ),
        decreases b - pos,
    {
        let ghost v = cs@.subrange(pos as int, b as int);
        let i = index_of_in(cs, pos, b, ';');
        assert(v.take(i - pos) =~= cs@.subrange(pos as int, i as int));
        let (ta, tb) = trim_range(cs, pos, i);
        if range_has_prefix(cs, ta, tb, prefix) {
            let (ua, ub) = trim_range(cs, ta + prefix.len(), tb);
            assert(cs@.subrange(ta as int, tb as int).skip(prefix@.len() as int) =~= cs@.subrange(
                ta + prefix@.len(),
                tb as int,
            ));
            return parse_u64_range(cs, ua, ub);
        }
        if i == b {
            return None;
        }
        assert(v.skip(i - pos + 1) =~= cs@.subrange(i + 1, b as int));
        pos = i + 1;
    }
}

fn line_max_age_in(cs: &Vec<char>, a: usize, b: usize, name: &Vec<char>, prefix: &Vec<char>) -> (r:
    Option<u64>)
    requires
        a <= b <= cs@.len(),
        name@ == hsts_name(),
        prefix@ == max_age_prefix(),
    ensures
        r == line_max_age(cs@.subrange(a as int, b as int)),
{
    let ghost line = cs@.subrange(a as int, b as int);
    let c = index_of_in(cs, a, b, ':');
    if c == b {
        return None;
    }
    assert(line.take(c - a) =~= cs@.subrange(a as int, c as int));
    assert(line.skip(c - a + 1) =~= cs@.subrange(c + 1, b as int));
    let (na, nb) = trim_range(cs, a, c);
    if !range_eq_ignore_ascii_case(cs, na, nb, name) {
        return None;
    }
    max_age_directive_in(cs, c + 1, b, prefix)
}

/// The max-age that a `Strict-Transport-Security` header value carries
/// (see [`max_age_of_value`]).
pub fn max_age_directive(header_value: &str) -> (r: Option<u64>)
    ensures
        r == max_age_of_value(header_value@),
{
    let cs = chars_of(header_value);
    let prefix = chars_of("max-age=");
    assert(cs@.subrange(0, cs@.len() as int) =~= cs@);
    max_age_directive_in(&cs, 0, cs.len(), &prefix)
}

/// Parse the `Strict-Transport-Security` `max-age` directive out of raw
/// HTTP response header text (one header per line, as delivered on the
/// wire before the blank line that ends the header block).
pub fn parse(headers: &str) -> (res: Hsts)
    ensures
        res == hsts_of(headers@),
{
    let cs = chars_of(headers);
    let name = chars_of("strict-transport-security");
    let prefix = chars_of("max-age=");
    let n = cs.len();
    let mut pos: usize = 0;
    assert(cs@.subrange(0, n as int) =~= cs@);
    while pos < n
        invariant
            pos <= n == cs@.len(),
            name@ == hsts_name(),
            prefix@ == max_age_prefix(),
            hsts_of(headers@) == first_max_age(lines(cs@.subrange(pos as int, n as int))),
            cs@ == headers@,
        decreases n - pos,
    {
        let ghost s = cs@.subrange(pos as int, n as int);
        let nl = index_of_in(&cs, pos, n, '\n');
        let end = if nl < n && nl > pos && cs[nl - 1] == '\r' {
            nl - 1
        } else {
            nl
        };
        proof {
            let ls = lines(s);
            if nl < n {
                assert(s.take(nl - pos) =~= cs@.subrange(pos as int, nl as int));
                assert(strip_cr(s.take(nl - pos)) =~= cs@.subrange(pos as int, end as int));
                assert(s.skip(nl - pos + 1) =~= cs@.subrange(nl + 1, n as int));
                assert(ls[0] == cs@.subrange(pos as int, end as int));
                assert(ls.drop_first() =~= lines(cs@.subrange(nl + 1, n as int)));
            } else {
                assert(ls =~= seq![s]);
            }
        }
        if let Some(age) = line_max_age_in(&cs, pos, end, &name, &prefix) {
            return Hsts::MaxAge(age);
        }
        if nl == n {
            proof {
                assert(lines(s) =~= seq![s]);
                assert(lines(s)[0] == cs@.subrange(pos as int, end as int));
                assert(lines(s).drop_first() =~= Seq::<Seq<char>>::empty());
                assert(first_max_age(Seq::<Seq<char>>::empty()) == Hsts::NotSet);
            }
            return Hsts::NotSet;
        }
        pos = nl + 1;
    }
    Hsts::NotSet
}

/// The answer for a text that is a single header line (no line break).
proof fn lemma_single_line(line: Seq<char>)
    requires
        line.len() > 0,
        forall|i: int| 0 <= i < line.len() ==> line[i] != '\n',
    ensures
        hsts_of(line) == match line_max_age(line) {
            Some(a) => Hsts::MaxAge(a),
            None => Hsts::NotSet,
        },
{
    lemma_index_of_absent(line, '\n');
    assert(lines(line) == seq![line]);
    assert(seq![line].drop_first() =~= Seq::<Seq<char>>::empty());
    assert(first_max_age(Seq::<Seq<char>>::empty()) == Hsts::NotSet);
}

/// A `strict-transport-security` header line, its name written in any
/// ASCII case, gives the max-age that its value carries.
pub proof fn law_header_name_ignores_ascii_case(name: Seq<char>, value: Seq<char>)
    requires
        eq_ignore_ascii_case(name, hsts_name()),
        forall|i: int| 0 <= i < value.len() ==> value[i] != '\n',
    ensures
        hsts_of(name + seq![':'] + value) == match max_age_of_value(value) {
            Some(a) => Hsts::MaxAge(a),
            None => Hsts::NotSet,
        },
{
    reveal_strlit("strict-transport-security");
    let pat = hsts_name();
    assert(pat.len() == 25);
    assert forall|i: int| 0 <= i < name.len() implies name[i] != '\n' && name[i] != ':' by {
        assert(ascii_folded(name[i]) == ascii_folded(pat[i]));
        assert(('a' <= pat[i] && pat[i] <= 'z') || pat[i] == '-');
    }
    assert(ascii_folded(name[0]) == ascii_folded(pat[0]));
    assert(ascii_folded(name[24]) == ascii_folded(pat[24]));
    assert(!is_white_space(name[0]) && !is_white_space(name.last()));
    let tail = seq![':'] + value;
    let line = name + tail;
    assert(line =~= name + seq![':'] + value);
    assert forall|i: int| 0 <= i < line.len() implies line[i] != '\n' by {
        if i < name.len() {
            assert(line[i] == name[i]);
        } else if i > name.len() {
            assert(line[i] == value[i - name.len() - 1]);
        }
    }
    lemma_index_of_concat(name, tail, ':');
    assert(index_of(tail, ':') == 0);
    assert(line.take(name.len() as int) =~= name);
    assert(line.skip(name.len() as int + 1) =~= value);
    lemma_trim_unchanged(name);
    lemma_single_line(line);
}

/// A line without a colon is no header: it leaves the answer to the lines
/// after it.
pub proof fn law_line_without_colon_is_skipped(line: Seq<char>, rest: Seq<char>)
    requires
        forall|i: int| 0 <= i < line.len() ==> line[i] != ':' && line[i] != '\n',
    ensures
        hsts_of(line + seq!['\n'] + rest) == hsts_of(rest),
{
    let tail = seq!['\n'] + rest;
    let s = line + tail;
    assert(s =~= line + seq!['\n'] + rest);
    lemma_index_of_concat(line, tail, '\n');
    assert(index_of(tail, '\n') == 0);
    assert(s.take(line.len() as int) =~= line);
    assert(s.skip(line.len() as int + 1) =~= rest);
    let l = strip_cr(line);
    assert forall|i: int| 0 <= i < l.len() implies l[i] != ':' by {
        assert(l[i] == line[i]);
    }
    lemma_index_of_absent(l, ':');
    assert(line_max_age(l) is None);
    assert(lines(s) =~= seq![l] + lines(rest));
    assert(lines(s).drop_first() =~= lines(rest));
}

/// The header line that announces a lifetime of `n` seconds reads back
/// as exactly that lifetime.
pub proof fn law_max_age_round_trip(n: u64)
    ensures
        hsts_of("Strict-Transport-Security: max-age="@ + decimal_digits(n as nat)) == Hsts::MaxAge(
            n,
        ),
{
    reveal_strlit("Strict-Transport-Security: max-age=");
    reveal_strlit("strict-transport-security");
    reveal_strlit("max-age=");
    let digits = decimal_digits(n as nat);
    lemma_decimal_digits_shape(n as nat);
    let name = "Strict-Transport-Security: max-age="@.take(25);
    let directive = max_age_prefix() + digits;
    let value = seq![' '] + directive;
    let text = "Strict-Transport-Security: max-age="@ + digits;
    assert(text =~= name + seq![':'] + value);
    assert(eq_ignore_ascii_case(name, hsts_name()));
    assert forall|i: int| 0 <= i < value.len() implies value[i] != '\n' && value[i] != ';' by {
        if i > 8 {
            assert(value[i] == digits[i - 9]);
        }
    }
    law_header_name_ignores_ascii_case(name, value);
    lemma_index_of_absent(value, ';');
    assert(value.take(value.len() as int) =~= value);
    assert(!is_white_space(directive[0]));
    assert(directive.last() == digits.last());
    assert(!is_white_space(directive.last()));
    assert(forall|i: int| 0 <= i < seq![' '].len() ==> is_white_space(#[trigger] seq![' '][i]));
    lemma_trim_drops_leading(seq![' '], directive);
    assert(trim_start(value) == directive);
    assert(trim_end(directive) == directive);
    assert(trim(value) == directive);
    assert(directive.take(8) =~= max_age_prefix());
    assert(directive.skip(8) =~= digits);
    assert(!is_white_space(digits[0]) && !is_white_space(digits.last()));
    lemma_trim_unchanged(digits);
    lemma_parse_decimal_digits(n);
}

/// The first line that carries a max-age decides: what follows it does
/// not matter.
pub proof fn law_first_max_age_wins(line: Seq<char>, rest: Seq<char>, age: u64)
    requires
        forall|i: int| 0 <= i < line.len() ==> line[i] != '\n',
        line_max_age(strip_cr(line)) == Some(age),
    ensures
        hsts_of(line + seq!['\n'] + rest) == Hsts::MaxAge(age),
{
    let tail = seq!['\n'] + rest;
    let s = line + tail;
    assert(s =~= line + seq!['\n'] + rest);
    lemma_index_of_concat(line, tail, '\n');
    assert(index_of(tail, '\n') == 0);
    assert(s.take(line.len() as int) =~= line);
    assert(lines(s)[0] == strip_cr(line));
}

/// Without a `strict-transport-security` header line (one whose name,
/// before its first colon, equals it ignoring ASCII case and surrounding
/// whitespace), the answer is that HSTS is not set.
pub proof fn law_no_hsts_header_is_not_set(headers: Seq<char>)
    requires
        forall|i: int|
            0 <= i < lines(headers).len() ==> {
                let l = #[trigger] lines(headers)[i];
                let c = index_of(l, ':');
                !(0 <= c < l.len() && eq_ignore_ascii_case(trim(l.take(c)), hsts_name()))
            },
    ensures
        hsts_of(headers) == Hsts::NotSet,
{
    lemma_first_max_age_none(lines(headers));
}

proof fn lemma_first_max_age_none(ls: Seq<Seq<char>>)
    requires
        forall|i: int|
            0 <= i < ls.len() ==> {
                let l = #[trigger] ls[i];
                let c = index_of(l, ':');
                !(0 <= c < l.len() && eq_ignore_ascii_case(trim(l.take(c)), hsts_name()))
            },
    ensures
        first_max_age(ls) == Hsts::NotSet,
    decreases ls.len(),
{
    if ls.len() > 0 {
        let t = ls.drop_first();
        assert forall|i: int|
            0 <= i < t.len() implies {
                let l = #[trigger] t[i];
                let c = index_of(l, ':');
                !(0 <= c < l.len() && eq_ignore_ascii_case(trim(l.take(c)), hsts_name()))
            } by {
            assert(t[i] == ls[i + 1]);
        }
        let l0 = ls[0];
        assert(line_max_age(l0) is None);
        lemma_first_max_age_none(t);
    }
}

} // verus!
