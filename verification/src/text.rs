//! Character-level text handling: conversion between strings and character
//! vectors, comma removal, whitespace trimming, and the number grammars that
//! the statistics panel is read with.

use vstd::prelude::*;

verus! {

// ---------------------------------------------------------------------------
// Conversions
// ---------------------------------------------------------------------------

/// The characters of `s`, in order.
pub fn chars_of(s: &str) -> (res: Vec<char>)
    ensures
        res@ == s@,
{
    let mut res: Vec<char> = Vec::new();
    for c in it: s.chars()
        invariant
            res@ == it.seq().take(it.index()),
    {
        res.push(c);
    }
    res
}

/// Collects characters into a `String` (std's `FromIterator<&char>` for `String`).
/// Trusted: the collected string holds exactly the given characters, in order.
#[verifier::external_body]
pub(crate) fn string_of(chars: &[char]) -> (res: String)
    ensures
        res@ == chars@,
{
    chars.iter().collect()
}

/// Whether the characters `a` spell exactly the string `s`.
pub fn same_text(a: &[char], s: &str) -> (res: bool)
    ensures
        res == (a@ == s@),
{
    let n = s.unicode_len();
    if n != a.len() {
        return false;
    }
    let mut i: usize = 0;
    while i < n
        invariant
            n == a@.len(),
            n == s@.len(),
            i <= n,
            forall|j: int| 0 <= j < i ==> a@[j] == s@[j],
        decreases n - i,
    {
        if a[i] != s.get_char(i) {
            return false;
        }
        i += 1;
    }
    assert(a@ =~= s@);
    true
}

// ---------------------------------------------------------------------------
// Commas
// ---------------------------------------------------------------------------

/// `s` with every `','` taken out (the thousands separators of the panel).
pub open spec fn without_commas(s: Seq<char>) -> Seq<char> {
    s.filter(|c: char| c != ',')
}

/// Removes every comma, keeping the other characters in order.
pub fn remove_commas(s: &[char]) -> (res: Vec<char>)
    ensures
        res@ == without_commas(s@),
{
    let mut res: Vec<char> = Vec::new();
    let mut i: usize = 0;
    while i < s.len()
        invariant
            i <= s.len(),
            res@ == without_commas(s@.take(i as int)),
        decreases s.len() - i,
    {
        proof {
            reveal_with_fuel(Seq::filter, 1);
            assert(s@.take(i + 1).drop_last() =~= s@.take(i as int));
        }
        if s[i] != ',' {
            res.push(s[i]);
        }
        i += 1;
    }
    assert(s@.take(s.len() as int) =~= s@);
    res
}

// ---------------------------------------------------------------------------
// Whitespace
// ---------------------------------------------------------------------------

/// The Unicode `White_Space` property, the set that `char::is_whitespace` and
/// `str::trim` go by.
pub open spec fn is_white_space(c: char) -> bool {
    ||| '\u{9}' <= c <= '\u{d}'
    ||| c == ' '
    ||| c == '\u{85}'
    ||| c == '\u{a0}'
    ||| c == '\u{1680}'
    ||| '\u{2000}' <= c <= '\u{200a}'
    ||| c == '\u{2028}'
    ||| c == '\u{2029}'
    ||| c == '\u{202f}'
    ||| c == '\u{205f}'
    ||| c == '\u{3000}'
}

/// Executable test of [`is_white_space`].
pub fn white_space(c: char) -> (res: bool)
    ensures
        res == is_white_space(c),
{
    ('\u{9}' <= c && c <= '\u{d}') || c == ' ' || c == '\u{85}' || c == '\u{a0}' || c == '\u{1680}'
        || ('\u{2000}' <= c && c <= '\u{200a}') || c == '\u{2028}' || c == '\u{2029}' || c
        == '\u{202f}' || c == '\u{205f}' || c == '\u{3000}'
}

/// `s` without its leading whitespace.
pub open spec fn trim_start(s: Seq<char>) -> Seq<char>
    decreases s.len(),
{
    if s.len() > 0 && is_white_space(s[0]) {
        trim_start(s.drop_first())
    } else {
        s
    }
}

/// `s` without its trailing whitespace.
pub open spec fn trim_end(s: Seq<char>) -> Seq<char>
    decreases s.len(),
{
    if s.len() > 0 && is_white_space(s.last()) {
        trim_end(s.drop_last())
    } else {
        s
    }
}

/// `s` without leading and trailing whitespace (what `str::trim` returns).
pub open spec fn trimmed(s: Seq<char>) -> Seq<char> {
    trim_end(trim_start(s))
}

proof fn lemma_trim_start_skip(s: Seq<char>, a: int)
    requires
        0 <= a < s.len(),
        is_white_space(s[a]),
    ensures
        trim_start(s.skip(a)) == trim_start(s.skip(a + 1)),
{
    assert(s.skip(a).drop_first() =~= s.skip(a + 1));
}

proof fn lemma_trim_end_take(s: Seq<char>, b: int)
    requires
        0 < b <= s.len(),
        is_white_space(s[b - 1]),
    ensures
        trim_end(s.take(b)) == trim_end(s.take(b - 1)),
{
    assert(s.take(b).drop_last() =~= s.take(b - 1));
}

/// Removes leading and trailing whitespace.
pub fn trim(s: &[char]) -> (res: Vec<char>)
    ensures
        res@ == trimmed(s@),
{
    let mut a: usize = 0;
    assert(s@.skip(0) =~= s@);
    while a < s.len() && white_space(s[a])
        invariant
            a <= s.len(),
            trim_start(s@) == trim_start(s@.skip(a as int)),
        decreases s.len() - a,
    {
        proof {
            lemma_trim_start_skip(s@, a as int);
        }
        a += 1;
    }
    let ghost rest = s@.skip(a as int);
    assert(trim_start(s@) == rest);
    let mut b: usize = s.len();
    assert(rest.take(rest.len() as int) =~= rest);
    while b > a && white_space(s[b - 1])
        invariant
            a <= b <= s.len(),
            rest == s@.skip(a as int),
            trimmed(s@) == trim_end(rest.take(b - a)),
        decreases b - a,
    {
        proof {
            lemma_trim_end_take(rest, (b - a) as int);
        }
        b -= 1;
    }
    let mut res: Vec<char> = Vec::new();
    let mut i: usize = a;
    while i < b
        invariant
            a <= i <= b <= s.len(),
            res@ == s@.subrange(a as int, i as int),
        decreases b - i,
    {
        res.push(s[i]);
        i += 1;
    }
    assert(rest.take(b - a) =~= s@.subrange(a as int, b as int));
    res
}

// ---------------------------------------------------------------------------
// Unsigned decimal numbers
// ---------------------------------------------------------------------------

pub open spec fn is_ascii_digit(c: char) -> bool {
    '0' <= c <= '9'
}

pub open spec fn all_digits(d: Seq<char>) -> bool {
    forall|i: int| 0 <= i < d.len() ==> is_ascii_digit(#[trigger] d[i])
}

pub open spec fn digit_value(c: char) -> nat {
    (c as int - '0' as int) as nat
}

/// The number that the decimal digits `d` spell (most significant first).
pub open spec fn digits_value(d: Seq<char>) -> nat
    decreases d.len(),
{
    if d.len() == 0 {
        0
    } else {
        digits_value(d.drop_last()) * 10 + digit_value(d.last())
    }
}

/// What `str::parse::<u64>` gives: an optional `'+'`, then at least one ASCII
/// digit and nothing else, whose value fits in a `u64`.
pub open spec fn u64_from_text(s: Seq<char>) -> Option<u64> {
    let d = if s.len() > 0 && s[0] == '+' {
        s.drop_first()
    } else {
        s
    };
    if d.len() > 0 && all_digits(d) && digits_value(d) <= u64::MAX {
        Some(digits_value(d) as u64)
    } else {
        None
    }
}

proof fn lemma_digits_value_grows(d: Seq<char>, k: int)
    requires
        0 <= k <= d.len(),
    ensures
        digits_value(d.take(k)) <= digits_value(d),
    decreases d.len(),
{
    if k < d.len() {
        lemma_digits_value_grows(d.drop_last(), k);
        assert(d.drop_last().take(k) =~= d.take(k));
    } else {
        assert(d.take(k) =~= d);
    }
}

/// Parses an unsigned decimal number as `str::parse::<u64>` does.
pub fn parse_u64(s: &[char]) -> (res: Option<u64>)
    ensures
        res == u64_from_text(s@),
{
    let start: usize = if s.len() > 0 && s[0] == '+' {
        1
    } else {
        0
    };
    let ghost d = if s@.len() > 0 && s@[0] == '+' {
        s@.drop_first()
    } else {
        s@
    };
    assert(d =~= s@.skip(start as int));
    if start >= s.len() {
        return None;
    }
    let mut value: u64 = 0;
    let mut i: usize = start;
    assert(d.take(0) =~= Seq::<char>::empty());
    while i < s.len()
        invariant
            start <= i <= s.len(),
            start < s.len(),
            d =~= s@.skip(start as int),
            d == (if s@.len() > 0 && s@[0] == '+' {
                s@.drop_first()
            } else {
                s@
            }),
            all_digits(d.take(i - start)),
            value == digits_value(d.take(i - start)),
        decreases s.len() - i,
    {
        let c = s[i];
        if !('0' <= c && c <= '9') {
            assert(!is_ascii_digit(d[i - start]));
            return None;
        }
        let dv: u64 = (c as u32 - '0' as u32) as u64;
        assert(d.take(i - start + 1).drop_last() =~= d.take(i - start));
        if value > (u64::MAX - dv) / 10 {
            proof {
                assert(value * 10 + dv > u64::MAX) by (nonlinear_arith)
                    requires
                        value > (u64::MAX - dv) / 10,
                        dv <= 9,
                ;
                lemma_digits_value_grows(d, i - start + 1);
                assert(digits_value(d.take(i - start + 1)) == value * 10 + dv);
            }
            return None;
        }
        proof {
            assert(value * 10 + dv <= u64::MAX) by (nonlinear_arith)
                requires
                    value <= (u64::MAX - dv) / 10,
                    dv <= 9,
            ;
        }
        value = value * 10 + dv;
        i += 1;
    }
    assert(d.take(i - start) =~= d);
    Some(value)
}

/// The decimal digit character for `d < 10`.
pub open spec fn digit_char(d: nat) -> char {
    ('0' as int + d) as char
}

/// The shortest decimal spelling of `n` (what `u64`'s `Display` writes).
pub open spec fn decimal(n: nat) -> Seq<char>
    decreases n,
{
    if n < 10 {
        seq![digit_char(n)]
    } else {
        decimal(n / 10).push(digit_char(n % 10))
    }
}

/// Writes `n` in decimal.
pub fn decimal_of(n: u64) -> (res: Vec<char>)
    ensures
        res@ == decimal(n as nat),
    decreases n,
{
    let digit = ((n % 10) as u8 + 48u8) as char;
    if n < 10 {
        let mut res: Vec<char> = Vec::new();
        res.push(digit);
        assert(res@ =~= seq![digit_char(n as nat)]);
        res
    } else {
        let mut res = decimal_of(n / 10);
        res.push(digit);
        res
    }
}


// ---------------------------------------------------------------------------
// Floating-point literals
// ---------------------------------------------------------------------------

pub open spec fn is_sign(c: char) -> bool {
    c == '+' || c == '-'
}

/// ASCII lower-casing of one character.
pub open spec fn ascii_lower(c: char) -> char {
    if 'A' <= c <= 'Z' {
        ((c as int) + 32) as char
    } else {
        c
    }
}

/// `s` is `word` (given in lower case) up to ASCII case.
pub open spec fn same_ignoring_case(s: Seq<char>, word: Seq<char>) -> bool {
    &&& s.len() == word.len()
    &&& forall|i: int| 0 <= i < s.len() ==> ascii_lower(#[trigger] s[i]) == word[i]
}

/// `Digit+ | Digit+ '.' Digit* | Digit* '.' Digit+`: digits with at most one
/// point, and at least one digit.
pub open spec fn is_mantissa(m: Seq<char>) -> bool {
    &&& forall|i: int| 0 <= i < m.len() ==> is_ascii_digit(#[trigger] m[i]) || m[i] == '.'
    &&& forall|i: int, j: int|
        0 <= i < m.len() && 0 <= j < m.len() && #[trigger] m[i] == '.' && #[trigger] m[j] == '.'
            ==> i == j
    &&& exists|i: int| 0 <= i < m.len() && is_ascii_digit(#[trigger] m[i])
}

pub open spec fn is_exponent_marker(c: char) -> bool {
    c == 'e' || c == 'E'
}

/// `Exp ::= 'e' Sign? Digit+` (either case of `e`).
pub open spec fn is_exponent(x: Seq<char>) -> bool {
    &&& x.len() > 0
    &&& is_exponent_marker(x[0])
    &&& {
        let r = x.drop_first();
        let d = if r.len() > 0 && is_sign(r[0]) {
            r.drop_first()
        } else {
            r
        };
        d.len() > 0 && all_digits(d)
    }
}

/// Index of the first exponent marker in `b`, or its length when it has none.
pub open spec fn exponent_start(b: Seq<char>) -> nat
    decreases b.len(),
{
    if b.len() == 0 {
        0
    } else if is_exponent_marker(b[0]) {
        0
    } else {
        1 + exponent_start(b.drop_first())
    }
}

/// `Number ::= Mantissa Exp?`
pub open spec fn is_decimal_number(b: Seq<char>) -> bool {
    let k = exponent_start(b) as int;
    is_mantissa(b.take(k)) && (k == b.len() || is_exponent(b.skip(k)))
}

/// The grammar that `str::parse::<f64>` accepts, as std documents it:
/// `Sign? ( 'inf' | 'infinity' | 'nan' | Number )`, ASCII case ignored.
pub open spec fn is_float_literal(s: Seq<char>) -> bool {
    let b = if s.len() > 0 && is_sign(s[0]) {
        s.drop_first()
    } else {
        s
    };
    ||| same_ignoring_case(b, seq!['i', 'n', 'f'])
    ||| same_ignoring_case(b, seq!['i', 'n', 'f', 'i', 'n', 'i', 't', 'y'])
    ||| same_ignoring_case(b, seq!['n', 'a', 'n'])
    ||| is_decimal_number(b)
}

fn lower(c: char) -> (res: char)
    ensures
        res == ascii_lower(c),
{
    if 'A' <= c && c <= 'Z' {
        ((c as u32 + 32) as u8) as char
    } else {
        c
    }
}

fn word_ignoring_case(s: &[char], from: usize, word: &[char]) -> (res: bool)
    requires
        from <= s.len(),
    ensures
        res == same_ignoring_case(s@.skip(from as int), word@),
{
    if s.len() - from != word.len() {
        return false;
    }
    let mut i: usize = 0;
    while i < word.len()
        invariant
            from <= s.len(),
            s.len() - from == word.len(),
            i <= word.len(),
            forall|j: int| 0 <= j < i ==> ascii_lower(s@.skip(from as int)[j]) == word@[j],
        decreases word.len() - i,
    {
        if lower(s[from + i]) != word[i] {
            assert(ascii_lower(s@.skip(from as int)[i as int]) != word@[i as int]);
            return false;
        }
        i += 1;
    }
    true
}

fn mantissa_ok(s: &[char], from: usize, to: usize) -> (res: bool)
    requires
        from <= to <= s.len(),
    ensures
        res == is_mantissa(s@.subrange(from as int, to as int)),
{
    let ghost m = s@.subrange(from as int, to as int);
    let mut i: usize = from;
    let mut dot: Option<usize> = None;
    let mut digit: Option<usize> = None;
    while i < to
        invariant
            from <= i <= to <= s.len(),
            m == s@.subrange(from as int, to as int),
            forall|j: int| 0 <= j < i - from ==> is_ascii_digit(#[trigger] m[j]) || m[j] == '.',
            match dot {
                Some(p) => from <= p < i && m[p - from] == '.' && forall|j: int|
                    0 <= j < i - from && #[trigger] m[j] == '.' ==> j == p - from,
                None => forall|j: int| 0 <= j < i - from ==> #[trigger] m[j] != '.',
            },
            match digit {
                Some(p) => from <= p < i && is_ascii_digit(m[p - from]),
                None => forall|j: int| 0 <= j < i - from ==> !is_ascii_digit(#[trigger] m[j]),
            },
        decreases to - i,
    {
        let c = s[i];
        if c == '.' {
            if dot.is_some() {
                let p = dot.unwrap();
                assert(m[p - from] == '.' && m[i - from] == '.');
                return false;
            }
            dot = Some(i);
        } else if '0' <= c && c <= '9' {
            digit = Some(i);
        } else {
            assert(!(is_ascii_digit(m[i - from]) || m[i - from] == '.'));
            return false;
        }
        i += 1;
    }
    match digit {
        Some(p) => {
            assert(is_ascii_digit(m[p - from]));
            true
        },
        None => false,
    }
}

fn exponent_ok(s: &[char], from: usize) -> (res: bool)
    requires
        from <= s.len(),
    ensures
        res == is_exponent(s@.skip(from as int)),
{
    let ghost x = s@.skip(from as int);
    if from >= s.len() || !(s[from] == 'e' || s[from] == 'E') {
        return false;
    }
    let ghost r = x.drop_first();
    let mut start = from + 1;
    if start < s.len() && (s[start] == '+' || s[start] == '-') {
        start = start + 1;
    }
    let ghost d = if r.len() > 0 && is_sign(r[0]) {
        r.drop_first()
    } else {
        r
    };
    assert(d =~= s@.skip(start as int));
    assert(is_exponent(x) == (d.len() > 0 && all_digits(d)));
    if start >= s.len() {
        return false;
    }
    let mut i = start;
    while i < s.len()
        invariant
            start <= i <= s.len(),
            start < s.len(),
            d =~= s@.skip(start as int),
            x == s@.skip(from as int),
            is_exponent(x) == (d.len() > 0 && all_digits(d)),
            forall|j: int| 0 <= j < i - start ==> is_ascii_digit(#[trigger] d[j]),
        decreases s.len() - i,
    {
        if !('0' <= s[i] && s[i] <= '9') {
            assert(!is_ascii_digit(d[i - start]));
            return false;
        }
        i += 1;
    }
    true
}

proof fn lemma_exponent_start(b: Seq<char>, k: int)
    requires
        0 <= k <= b.len(),
        forall|j: int| 0 <= j < k ==> !is_exponent_marker(#[trigger] b[j]),
        k == b.len() || is_exponent_marker(b[k]),
    ensures
        exponent_start(b) == k,
    decreases k,
{
    if k > 0 {
        assert(!is_exponent_marker(b[0]));
        lemma_exponent_start(b.drop_first(), k - 1);
    }
}

fn decimal_number_ok(s: &[char], from: usize) -> (res: bool)
    requires
        from <= s.len(),
    ensures
        res == is_decimal_number(s@.skip(from as int)),
{
    let ghost b = s@.skip(from as int);
    let mut k = from;
    while k < s.len() && !(s[k] == 'e' || s[k] == 'E')
        invariant
            from <= k <= s.len(),
            b == s@.skip(from as int),
            forall|j: int| 0 <= j < k - from ==> !is_exponent_marker(#[trigger] b[j]),
        decreases s.len() - k,
    {
        k += 1;
    }
    proof {
        lemma_exponent_start(b, k - from);
    }
    assert(b.take(k - from) =~= s@.subrange(from as int, k as int));
    assert(b.skip(k - from) =~= s@.skip(k as int));
    let mantissa = mantissa_ok(s, from, k);
    if !mantissa {
        return false;
    }
    k == s.len() || exponent_ok(s, k)
}

/// Whether `s` is accepted by `str::parse::<f64>`.
pub fn is_float_text(s: &[char]) -> (res: bool)
    ensures
        res == is_float_literal(s@),
{
    let from: usize = if s.len() > 0 && (s[0] == '+' || s[0] == '-') {
        1
    } else {
        0
    };
    assert(s@.skip(0) =~= s@);
    assert(s@.len() > 0 ==> s@.skip(1) =~= s@.drop_first());
    let inf = vec!['i', 'n', 'f'];
    let infinity = vec!['i', 'n', 'f', 'i', 'n', 'i', 't', 'y'];
    let nan = vec!['n', 'a', 'n'];
    assert(inf@ =~= seq!['i', 'n', 'f']);
    assert(infinity@ =~= seq!['i', 'n', 'f', 'i', 'n', 'i', 't', 'y']);
    assert(nan@ =~= seq!['n', 'a', 'n']);
    word_ignoring_case(s, from, &inf) || word_ignoring_case(s, from, &infinity)
        || word_ignoring_case(s, from, &nan) || decimal_number_ok(s, from)
}

} // verus!
