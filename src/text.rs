//! Character-level helpers shared by the parsers.
use vstd::prelude::*;
use vstd::std_specs::iter::IteratorSpec;

verus! {

broadcast use vstd::string::axiom_spec_iter, vstd::string::next_postcondition;

/// Relies on `String::push`: appends one character.
#[verifier::external_body]
pub(crate) fn push_char(s: &mut String, c: char)
    ensures
        final(s)@ == old(s)@.push(c),
{
    s.push(c);
}

/// The characters of `s`, in order.
pub fn chars_of(s: &str) -> (r: Vec<char>)
    ensures
        r@ == s@,
{
    let mut it = s.chars();
    let mut out: Vec<char> = Vec::new();
    loop
        invariant
            it.obeys_prophetic_iter_laws(),
            out@ + it.remaining() == s@,
            it.decrease() is Some,
        ensures
            out@ == s@,
        decreases it.decrease()->0,
    {
        match it.next() {
            Some(c) => {
                out.push(c);
            },
            None => {
                assert(out@ + it.remaining() =~= out@);
                break;
            },
        }
    }
    out
}

} // verus!

verus! {

/// `s` begins with `p`.
pub open spec fn has_prefix(s: Seq<char>, p: Seq<char>) -> bool {
    p.len() <= s.len() && s.subrange(0, p.len() as int) == p
}

/// Whether `s` begins with `p`.
pub fn starts_with_chars(s: &Vec<char>, p: &Vec<char>) -> (r: bool)
    ensures
        r == has_prefix(s@, p@),
{
    if p.len() > s.len() {
        return false;
    }
    let mut i: usize = 0;
    while i < p.len()
        invariant
            p@.len() <= s@.len(),
            0 <= i <= p@.len(),
            s@.subrange(0, i as int) == p@.subrange(0, i as int),
        decreases p@.len() - i,
    {
        if s[i] != p[i] {
            assert(s@.subrange(0, p@.len() as int)[i as int] != p@[i as int]);
            return false;
        }
        assert(s@.subrange(0, i + 1) =~= s@.subrange(0, i as int).push(s@[i as int]));
        assert(p@.subrange(0, i + 1) =~= p@.subrange(0, i as int).push(p@[i as int]));
        i = i + 1;
    }
    assert(p@ =~= p@.subrange(0, i as int));
    true
}

/// A line without the carriage return that ends it, if any.
pub open spec fn strip_cr(line: Seq<char>) -> Seq<char> {
    if line.len() > 0 && line.last() == '\r' {
        line.drop_last()
    } else {
        line
    }
}

/// The lines of `t` from position `i` on, `cur` being the part of the
/// current line read so far: lines end at a line feed, the carriage return
/// before it is dropped, and a final line feed starts no empty line.
pub open spec fn lines_from(t: Seq<char>, i: int, cur: Seq<char>) -> Seq<Seq<char>>
    decreases t.len() - i,
{
    if i < 0 || i >= t.len() {
        if cur.len() > 0 {
            seq![cur]
        } else {
            seq![]
        }
    } else if t[i] == '\n' {
        seq![strip_cr(cur)] + lines_from(t, i + 1, seq![])
    } else {
        lines_from(t, i + 1, cur.push(t[i]))
    }
}

/// The lines of a text.
pub open spec fn lines_of(t: Seq<char>) -> Seq<Seq<char>> {
    lines_from(t, 0, seq![])
}

/// Splits a text into its lines.
pub fn split_lines(t: &Vec<char>) -> (r: Vec<Vec<char>>)
    ensures
        r@.map_values(|l: Vec<char>| l@) == lines_of(t@),
{
    let mut out: Vec<Vec<char>> = Vec::new();
    let mut cur: Vec<char> = Vec::new();
    let mut i: usize = 0;
    while i < t.len()
        invariant
            0 <= i <= t@.len(),
            out@.map_values(|l: Vec<char>| l@) + lines_from(t@, i as int, cur@) == lines_of(t@),
        decreases t@.len() - i,
    {
        let ghost before = out@.map_values(|l: Vec<char>| l@);
        if t[i] == '\n' {
            let ghost whole = cur@;
            if cur.len() > 0 && cur[cur.len() - 1] == '\r' {
                cur.pop();
            }
            assert(cur@ == strip_cr(whole));
            out.push(cur);
            cur = Vec::new();
            assert(out@.map_values(|l: Vec<char>| l@) =~= before.push(strip_cr(whole)));
            assert(before + lines_from(t@, i as int, whole) =~= before.push(strip_cr(whole))
                + lines_from(t@, i + 1, seq![]));
        } else {
            cur.push(t[i]);
        }
        i = i + 1;
    }
    let ghost before = out@.map_values(|l: Vec<char>| l@);
    if cur.len() > 0 {
        let ghost last = cur@;
        out.push(cur);
        assert(out@.map_values(|l: Vec<char>| l@) =~= before + seq![last]);
    } else {
        assert(before =~= before + lines_from(t@, i as int, cur@));
    }
    out
}

/// The characters that `char::is_whitespace` accepts.
pub open spec fn is_space(c: char) -> bool {
    c == ' ' || ('\u{9}' <= c && c <= '\u{d}') || c == '\u{85}' || c == '\u{a0}'
        || c == '\u{1680}' || ('\u{2000}' <= c && c <= '\u{200a}') || c == '\u{2028}'
        || c == '\u{2029}' || c == '\u{202f}' || c == '\u{205f}' || c == '\u{3000}'
}

/// Whether `c` is white space.
pub fn space_char(c: char) -> (r: bool)
    ensures
        r == is_space(c),
{
    c == ' ' || ('\u{9}' <= c && c <= '\u{d}') || c == '\u{85}' || c == '\u{a0}'
        || c == '\u{1680}' || ('\u{2000}' <= c && c <= '\u{200a}') || c == '\u{2028}'
        || c == '\u{2029}' || c == '\u{202f}' || c == '\u{205f}' || c == '\u{3000}'
}

/// `cur` as a token, if it is not empty.
pub open spec fn token_if_any(cur: Seq<char>) -> Seq<Seq<char>> {
    if cur.len() > 0 {
        seq![cur]
    } else {
        seq![]
    }
}

/// The white-space separated tokens of `s` from position `i` on, `cur` being
/// the part of the current token read so far.
pub open spec fn tokens_from(s: Seq<char>, i: int, cur: Seq<char>) -> Seq<Seq<char>>
    decreases s.len() - i,
{
    if i < 0 || i >= s.len() {
        token_if_any(cur)
    } else if is_space(s[i]) {
        token_if_any(cur) + tokens_from(s, i + 1, seq![])
    } else {
        tokens_from(s, i + 1, cur.push(s[i]))
    }
}

/// The white-space separated tokens of `s`.
pub open spec fn tokens_of(s: Seq<char>) -> Seq<Seq<char>> {
    tokens_from(s, 0, seq![])
}

/// Splits `s` at white space, dropping empty tokens.
pub fn split_tokens(s: &Vec<char>) -> (r: Vec<Vec<char>>)
    ensures
        r@.map_values(|l: Vec<char>| l@) == tokens_of(s@),
{
    let mut out: Vec<Vec<char>> = Vec::new();
    let mut cur: Vec<char> = Vec::new();
    let mut i: usize = 0;
    while i < s.len()
        invariant
            0 <= i <= s@.len(),
            out@.map_values(|l: Vec<char>| l@) + tokens_from(s@, i as int, cur@) == tokens_of(s@),
        decreases s@.len() - i,
    {
        let ghost before = out@.map_values(|l: Vec<char>| l@);
        if space_char(s[i]) {
            let ghost whole = cur@;
            if cur.len() > 0 {
                out.push(cur);
                assert(out@.map_values(|l: Vec<char>| l@) =~= before + token_if_any(whole));
            } else {
                assert(before =~= before + token_if_any(whole));
            }
            cur = Vec::new();
            assert(before + tokens_from(s@, i as int, whole) =~= before + token_if_any(whole)
                + tokens_from(s@, i + 1, seq![]));
        } else {
            cur.push(s[i]);
        }
        i = i + 1;
    }
    let ghost before = out@.map_values(|l: Vec<char>| l@);
    if cur.len() > 0 {
        let ghost last = cur@;
        out.push(cur);
        assert(out@.map_values(|l: Vec<char>| l@) =~= before + seq![last]);
    } else {
        assert(before =~= before + tokens_from(s@, i as int, cur@));
    }
    out
}

/// `s` without the ampersands it begins with.
pub open spec fn strip_amps(s: Seq<char>) -> Seq<char>
    decreases s.len(),
{
    if s.len() > 0 && s[0] == '&' {
        strip_amps(s.drop_first())
    } else {
        s
    }
}

pub open spec fn is_digit(c: char) -> bool {
    '0' <= c && c <= '9'
}

pub open spec fn all_digits(s: Seq<char>) -> bool {
    forall|i: int| 0 <= i < s.len() ==> is_digit(#[trigger] s[i])
}

/// The number that a run of decimal digits writes.
pub open spec fn digits_value(s: Seq<char>) -> nat
    decreases s.len(),
{
    if s.len() == 0 {
        0
    } else {
        digits_value(s.drop_last()) * 10 + ((s.last() as nat) - ('0' as nat)) as nat
    }
}

/// The integer that `s` writes: an optional sign and at least one digit.
pub open spec fn int_literal(s: Seq<char>) -> Option<int> {
    if s.len() > 0 && (s[0] == '-' || s[0] == '+') {
        let d = s.drop_first();
        if d.len() > 0 && all_digits(d) {
            if s[0] == '-' {
                Some(-(digits_value(d) as int))
            } else {
                Some(digits_value(d) as int)
            }
        } else {
            None
        }
    } else if s.len() > 0 && all_digits(s) {
        Some(digits_value(s) as int)
    } else {
        None
    }
}

/// What `i64::from_str` accepts: an integer literal within range.
pub open spec fn i64_literal(s: Seq<char>) -> Option<i64> {
    match int_literal(s) {
        Some(v) => if i64::MIN <= v <= i64::MAX {
            Some(v as i64)
        } else {
            None
        },
        None => None,
    }
}

proof fn lemma_digits_grow(s: Seq<char>, n: int)
    requires
        0 <= n <= s.len(),
        all_digits(s),
    ensures
        digits_value(s.subrange(0, n)) <= digits_value(s),
    decreases s.len() - n,
{
    if n < s.len() {
        lemma_digits_grow(s, n + 1);
        let p = s.subrange(0, n + 1);
        assert(p.drop_last() =~= s.subrange(0, n));
        assert(is_digit(s[n]));
    } else {
        assert(s.subrange(0, n) =~= s);
    }
}

/// The value of the decimal digits `s[from..to]`, when it fits in a `u64`.
fn digits_u64(s: &Vec<char>, from: usize, to: usize) -> (r: Option<u64>)
    requires
        from <= to <= s@.len(),
        all_digits(s@.subrange(from as int, to as int)),
    ensures
        r matches Some(v) ==> v == digits_value(s@.subrange(from as int, to as int)),
        r is None ==> digits_value(s@.subrange(from as int, to as int)) > u64::MAX,
{
    let ghost d = s@.subrange(from as int, to as int);
    let mut acc: u64 = 0;
    let mut i: usize = from;
    while i < to
        invariant
            from <= i <= to <= s@.len(),
            d == s@.subrange(from as int, to as int),
            all_digits(d),
            acc == digits_value(d.subrange(0, i - from)),
        decreases to - i,
    {
        let ghost p = d.subrange(0, i - from + 1);
        assert(p.drop_last() =~= d.subrange(0, i - from));
        assert(p.last() == s@[i as int]);
        assert(is_digit(d[i - from]));
        let dig = (s[i] as u32 - '0' as u32) as u64;
        match acc.checked_mul(10) {
            Some(m) => match m.checked_add(dig) {
                Some(v) => {
                    acc = v;
                },
                None => {
                    proof {
                        lemma_digits_grow(d, i - from + 1);
                    }
                    return None;
                },
            },
            None => {
                proof {
                    lemma_digits_grow(d, i - from + 1);
                }
                return None;
            },
        }
        i = i + 1;
    }
    assert(d.subrange(0, i - from) =~= d);
    Some(acc)
}

/// Reads an `i64` the way `i64::from_str` does.
pub fn parse_i64(s: &Vec<char>) -> (r: Option<i64>)
    ensures
        r == i64_literal(s@),
{
    if s.len() == 0 {
        return None;
    }
    let signed = s[0] == '-' || s[0] == '+';
    let from: usize = if signed { 1 } else { 0 };
    if from >= s.len() {
        assert(s@.drop_first().len() == 0);
        return None;
    }
    let mut k: usize = from;
    while k < s.len()
        invariant
            s@.len() > 0,
            signed == (s@[0] == '-' || s@[0] == '+'),
            from == (if signed { 1usize } else { 0usize }),
            from <= k <= s@.len(),
            forall|j: int| from <= j < k ==> is_digit(#[trigger] s@[j]),
        decreases s@.len() - k,
    {
        if !('0' <= s[k] && s[k] <= '9') {
            proof {
                if signed {
                    assert(s@.drop_first()[k - 1] == s@[k as int]);
                    assert(!is_digit(s@.drop_first()[k - 1]));
                } else {
                    assert(!is_digit(s@[k as int]));
                }
            }
            return None;
        }
        k = k + 1;
    }
    let ghost d = s@.subrange(from as int, s@.len() as int);
    assert(all_digits(d));
    if signed {
        assert(s@.drop_first() =~= d);
    } else {
        assert(s@ =~= d);
    }
    match digits_u64(s, from, s.len()) {
        Some(v) => {
            if s[0] == '-' {
                if v <= 9223372036854775808u64 {
                    if v == 9223372036854775808u64 {
                        Some(i64::MIN)
                    } else {
                        Some(-(v as i64))
                    }
                } else {
                    None
                }
            } else if v <= 9223372036854775807u64 {
                Some(v as i64)
            } else {
                None
            }
        },
        None => None,
    }
}

/// Drops the ampersands at the start of `s`.
pub fn strip_ampersands(s: &Vec<char>) -> (r: Vec<char>)
    ensures
        r@ == strip_amps(s@),
{
    let mut i: usize = 0;
    assert(s@.subrange(0, s@.len() as int) =~= s@);
    while i < s.len() && s[i] == '&'
        invariant
            0 <= i <= s@.len(),
            strip_amps(s@) == strip_amps(s@.subrange(i as int, s@.len() as int)),
        decreases s@.len() - i,
    {
        assert(s@.subrange(i as int, s@.len() as int).drop_first() =~= s@.subrange(i + 1, s@.len() as int));
        i = i + 1;
    }
    let mut out: Vec<char> = Vec::new();
    let mut j: usize = i;
    while j < s.len()
        invariant
            i <= j <= s@.len(),
            out@ == s@.subrange(i as int, j as int),
        decreases s@.len() - j,
    {
        out.push(s[j]);
        assert(out@ =~= s@.subrange(i as int, j + 1));
        j = j + 1;
    }
    out
}

/// The sign of a number literal and the rest of it.
pub open spec fn sign_split(s: Seq<char>) -> (bool, Seq<char>) {
    if s.len() > 0 && s[0] == '-' {
        (true, s.drop_first())
    } else if s.len() > 0 && s[0] == '+' {
        (false, s.drop_first())
    } else {
        (false, s)
    }
}

/// The position of the first `.` of `s` at or after `i`, or its length.
pub open spec fn dot_at(s: Seq<char>, i: int) -> int
    decreases s.len() - i,
{
    if i < 0 || i >= s.len() {
        s.len() as int
    } else if s[i] == '.' {
        i
    } else {
        dot_at(s, i + 1)
    }
}

/// The sign and the integer digits of a plain decimal literal: digits, a
/// point, digits, with at least one digit in all.
pub open spec fn decimal_parts(s: Seq<char>) -> Option<(bool, Seq<char>)> {
    let (neg, r) = sign_split(s);
    let d = dot_at(r, 0);
    let ip = r.subrange(0, d);
    let fp = if d < r.len() {
        r.subrange(d + 1, r.len() as int)
    } else {
        seq![]
    };
    if all_digits(ip) && all_digits(fp) && (ip.len() > 0 || fp.len() > 0) {
        Some((neg, ip))
    } else {
        None
    }
}

pub open spec fn saturate_u32(v: int) -> u32 {
    if v < 0 {
        0
    } else if v > u32::MAX {
        u32::MAX
    } else {
        v as u32
    }
}

/// A decimal literal cut to a whole number of pixels: toward zero, negative
/// values to zero, large ones to `u32::MAX`.
pub open spec fn truncated_u32(s: Seq<char>) -> Option<u32> {
    match decimal_parts(s) {
        Some((neg, ip)) => Some(
            if neg {
                0
            } else {
                saturate_u32(digits_value(ip) as int)
            },
        ),
        None => None,
    }
}

/// Whether `s[a..b]` is all decimal digits.
pub fn digits_between(s: &Vec<char>, a: usize, b: usize) -> (r: bool)
    requires
        a <= b <= s@.len(),
    ensures
        r == all_digits(s@.subrange(a as int, b as int)),
{
    let mut k: usize = a;
    while k < b
        invariant
            a <= k <= b <= s@.len(),
            forall|j: int| a <= j < k ==> is_digit(#[trigger] s@[j]),
        decreases b - k,
    {
        if !('0' <= s[k] && s[k] <= '9') {
            assert(s@.subrange(a as int, b as int)[k - a] == s@[k as int]);
            return false;
        }
        k = k + 1;
    }
    assert forall|j: int| 0 <= j < b - a implies is_digit(#[trigger] s@.subrange(a as int, b as int)[j]) by {
        assert(s@.subrange(a as int, b as int)[j] == s@[a + j]);
    }
    true
}

/// `s` from position `from` on.
fn tail_of(s: &Vec<char>, from: usize) -> (r: Vec<char>)
    requires
        from <= s@.len(),
    ensures
        r@ == s@.subrange(from as int, s@.len() as int),
{
    let mut out: Vec<char> = Vec::new();
    let mut j: usize = from;
    while j < s.len()
        invariant
            from <= j <= s@.len(),
            out@ == s@.subrange(from as int, j as int),
        decreases s@.len() - j,
    {
        out.push(s[j]);
        assert(out@ =~= s@.subrange(from as int, j + 1));
        j = j + 1;
    }
    out
}

/// The sign of a plain decimal literal and the value of its integer digits,
/// `None` for that value when it exceeds `u64::MAX`.
pub fn decimal_whole(text: &str) -> (r: Option<(bool, Option<u64>)>)
    ensures
        match decimal_parts(text@) {
            None => r is None,
            Some((neg, ip)) => r matches Some((n, v)) && n == neg && match v {
                Some(x) => x == digits_value(ip),
                None => digits_value(ip) > u64::MAX,
            },
        },
{
    let s = chars_of(text);
    let negative = s.len() > 0 && s[0] == '-';
    let from: usize = if s.len() > 0 && (s[0] == '-' || s[0] == '+') { 1 } else { 0 };
    let rest = tail_of(&s, from);
    assert(sign_split(s@) == (negative, rest@)) by {
        if from == 1 {
            assert(s@.drop_first() =~= rest@);
        } else {
            assert(s@ =~= rest@);
        }
    }
    let mut d: usize = 0;
    while d < rest.len() && rest[d] != '.'
        invariant
            0 <= d <= rest@.len(),
            dot_at(rest@, 0) == dot_at(rest@, d as int),
        decreases rest@.len() - d,
    {
        d = d + 1;
    }
    let frac_from: usize = if d < rest.len() { d + 1 } else { d };
    let ip_ok = digits_between(&rest, 0, d);
    let fp_ok = digits_between(&rest, frac_from, rest.len());
    if d == rest.len() {
        assert(rest@.subrange(frac_from as int, rest@.len() as int) =~= seq![]);
    }
    if !ip_ok || !fp_ok || (d == 0 && frac_from == rest.len()) {
        return None;
    }
    Some((negative, digits_u64(&rest, 0, d)))
}

/// Cuts a plain decimal literal to a whole number of pixels.
pub fn truncate_decimal(text: &str) -> (r: Option<u32>)
    ensures
        r == truncated_u32(text@),
{
    match decimal_whole(text) {
        None => None,
        Some((true, _)) => Some(0),
        Some((false, Some(v))) => {
            if v > 4294967295u64 {
                Some(u32::MAX)
            } else {
                Some(v as u32)
            }
        },
        Some((false, None)) => Some(u32::MAX),
    }
}

} // verus!
