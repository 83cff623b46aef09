//! Decimal and hexadecimal text, as the exchange's wire format uses it.
use vstd::prelude::*;

verus! {

/// The ASCII digit for `d` in `0..10`.
pub open spec fn digit_char(d: int) -> char {
    ((d + '0' as int) as u8) as char
}

/// Decimal digits of a natural number, most significant first, without
/// leading zeros (zero is `"0"`).
pub open spec fn digits_of(n: nat) -> Seq<char>
    decreases n,
{
    if n < 10 {
        seq![digit_char(n as int)]
    } else {
        digits_of(n / 10).push(digit_char((n % 10) as int))
    }
}

/// Decimal text of an integer: a `-` before the digits of a negative value.
pub open spec fn decimal_of(n: int) -> Seq<char> {
    if n < 0 {
        seq!['-'] + digits_of((-n) as nat)
    } else {
        digits_of(n as nat)
    }
}

/// Relies on std's `String::push`: appends one character.
#[verifier::external_body]
pub(crate) fn push_char(s: &mut String, c: char)
    ensures
        final(s)@ == old(s)@.push(c),
{
    s.push(c);
}

fn push_digits(s: &mut String, n: u64)
    ensures
        final(s)@ == old(s)@ + digits_of(n as nat),
    decreases n,
{
    let d = ((n % 10) as u8 + 48u8) as char;
    if n >= 10 {
        push_digits(s, n / 10);
    }
    push_char(s, d);
    proof {
        assert(d == digit_char((n % 10) as int));
    }
    assert(final(s)@ =~= old(s)@ + digits_of(n as nat));
}

/// Appends the decimal text of `n` to `s`.
pub(crate) fn push_i64(s: &mut String, n: i64)
    ensures
        final(s)@ == old(s)@ + decimal_of(n as int),
{
    if n < 0 {
        push_char(s, '-');
        let m: u64 = if n == i64::MIN {
            9223372036854775808u64
        } else {
            (-n) as u64
        };
        push_digits(s, m);
        assert(final(s)@ =~= old(s)@ + decimal_of(n as int));
    } else {
        push_digits(s, n as u64);
    }
}

/// The decimal text of `n`, as `i64`'s `to_string` writes it.
pub fn format_i64(n: i64) -> (r: String)
    ensures
        r@ == decimal_of(n as int),
{
    let mut s = String::new();
    push_i64(&mut s, n);
    assert(s@ =~= decimal_of(n as int));
    s
}

pub open spec fn is_digit(c: char) -> bool {
    '0' <= c && c <= '9'
}

pub open spec fn all_digits(s: Seq<char>) -> bool {
    forall|i: int| 0 <= i < s.len() ==> is_digit(#[trigger] s[i])
}

/// Value of a run of decimal digits.
pub open spec fn digits_value(s: Seq<char>) -> nat
    decreases s.len(),
{
    if s.len() == 0 {
        0
    } else {
        digits_value(s.drop_last()) * 10 + (s.last() as nat - '0' as nat) as nat
    }
}

/// What `i64`'s `from_str` gives for `s`: an optional `+` or `-`, then one
/// or more ASCII digits, with a value in `i64`'s range; else nothing.
pub open spec fn parsed_i64(s: Seq<char>) -> Option<i64> {
    let signed = s.len() > 0 && (s[0] == '-' || s[0] == '+');
    let body = if signed { s.subrange(1, s.len() as int) } else { s };
    let v: int = if signed && s[0] == '-' { -digits_value(body) } else { digits_value(body) as int };
    if body.len() == 0 || !all_digits(body) {
        None
    } else if i64::MIN <= v && v <= i64::MAX {
        Some(v as i64)
    } else {
        None
    }
}

proof fn lemma_digits_value_grows(s: Seq<char>, i: int, j: int)
    requires
        0 <= i <= j <= s.len(),
    ensures
        digits_value(s.subrange(0, i)) <= digits_value(s.subrange(0, j)),
    decreases j - i,
{
    if i < j {
        lemma_digits_value_grows(s, i, j - 1);
        assert(s.subrange(0, j).drop_last() =~= s.subrange(0, j - 1));
    }
}

/// Reads a signed decimal integer the way `i64`'s `from_str` does.
pub fn parse_i64(s: &str) -> (r: Option<i64>)
    ensures
        r == parsed_i64(s@),
{
    let n = s.unicode_len();
    let mut start: usize = 0;
    let mut negative = false;
    if n > 0 {
        let c = s.get_char(0);
        if c == '-' || c == '+' {
            start = 1;
            negative = c == '-';
        }
    }
    let ghost body = s@.subrange(start as int, n as int);
    assert(body =~= if start == 1 { s@.subrange(1, s@.len() as int) } else { s@ });
    if start == n {
        return None;
    }
    let limit: u64 = if negative { 9223372036854775808u64 } else { 9223372036854775807u64 };
    let mut acc: u64 = 0;
    let mut i: usize = start;
    while i < n
        invariant
            start <= i <= n,
            n == s@.len(),
            body == s@.subrange(start as int, n as int),
            body == (if s@.len() > 0 && (s@[0] == '-' || s@[0] == '+') {
                s@.subrange(1, s@.len() as int)
            } else {
                s@
            }),
            acc as nat == digits_value(body.subrange(0, i - start)),
            acc <= limit,
            forall|k: int| 0 <= k < i - start ==> is_digit(#[trigger] body[k]),
            start == 1 <==> (s@.len() > 0 && (s@[0] == '-' || s@[0] == '+')),
            negative <==> (start == 1 && s@[0] == '-'),
            limit == if negative { 9223372036854775808u64 } else { 9223372036854775807u64 },
        decreases n - i,
    {
        let c = s.get_char(i);
        if !('0' <= c && c <= '9') {
            assert(!is_digit(body[i - start]));
            assert(!all_digits(body));
            return None;
        }
        let d: u64 = (c as u32 - 48u32) as u64;
        assert(body.subrange(0, i + 1 - start).drop_last() =~= body.subrange(0, i - start));
        assert(d as nat == (c as nat - '0' as nat) as nat);
        assert(digits_value(body.subrange(0, i + 1 - start)) == acc * 10 + d);
        let next: u128 = acc as u128 * 10 + d as u128;
        if next > limit as u128 {
            proof {
                lemma_digits_value_grows(body, i + 1 - start, body.len() as int);
                assert(body.subrange(0, body.len() as int) =~= body);
                assert(digits_value(body) > limit);
                if negative {
                    assert(-digits_value(body) < i64::MIN);
                } else {
                    assert(digits_value(body) > i64::MAX);
                }
            }
            return None;
        }
        acc = next as u64;
        i = i + 1;
    }
    assert(body.subrange(0, i - start) =~= body);
    if negative {
        if acc == 9223372036854775808u64 {
            Some(i64::MIN)
        } else {
            Some(-(acc as i64))
        }
    } else {
        Some(acc as i64)
    }
}

/// Lower-case hexadecimal digit for `v` in `0..16`.
pub open spec fn hex_digit(v: int) -> char {
    if v < 10 {
        digit_char(v)
    } else {
        ((v - 10 + 'a' as int) as u8) as char
    }
}

/// Two lower-case hexadecimal digits per byte, high nibble first.
pub open spec fn lower_hex_of(b: Seq<u8>) -> Seq<char>
    decreases b.len(),
{
    if b.len() == 0 {
        Seq::empty()
    } else {
        lower_hex_of(b.drop_last()) + seq![
            hex_digit(b.last() as int / 16),
            hex_digit(b.last() as int % 16),
        ]
    }
}

fn nibble_char(v: u8) -> (c: char)
    requires
        v < 16,
    ensures
        c == hex_digit(v as int),
{
    if v < 10 {
        (v + 48u8) as char
    } else {
        (v - 10 + 97u8) as char
    }
}

/// Encodes `b` as lower-case hexadecimal, two digits per byte.
pub fn hex_lower(b: &[u8]) -> (r: String)
    ensures
        r@ == lower_hex_of(b@),
        r@.len() == 2 * b@.len(),
{
    let mut s = String::new();
    let mut i: usize = 0;
    while i < b.len()
        invariant
            i <= b@.len(),
            s@ == lower_hex_of(b@.subrange(0, i as int)),
            s@.len() == 2 * i,
        decreases b@.len() - i,
    {
        let v = b[i];
        push_char(&mut s, nibble_char(v / 16));
        push_char(&mut s, nibble_char(v % 16));
        assert(b@.subrange(0, i + 1).drop_last() =~= b@.subrange(0, i as int));
        assert(s@ =~= lower_hex_of(b@.subrange(0, i + 1)));
        i = i + 1;
    }
    assert(b@.subrange(0, i as int) =~= b@);
    s
}

/// One step of the recogniser for the digits of a float literal:
/// `Sign? (Digit+ | Digit+ '.' Digit* | Digit* '.' Digit+) ('e' Sign? Digit+)?`,
/// with `e` in either case. States: 0 start, 1 after the sign, 2 integer
/// digits, 3 a point with no digit yet, 4 fraction, 5 after `e`, 6 after the
/// exponent's sign, 7 exponent digits, 8 refused.
pub open spec fn float_step(st: u8, c: char) -> u8 {
    let sign = c == '+' || c == '-';
    let e = c == 'e' || c == 'E';
    if st == 0 {
        if sign { 1 } else if is_digit(c) { 2 } else if c == '.' { 3 } else { 8 }
    } else if st == 1 {
        if is_digit(c) { 2 } else if c == '.' { 3 } else { 8 }
    } else if st == 2 {
        if is_digit(c) { 2 } else if c == '.' { 4 } else if e { 5 } else { 8 }
    } else if st == 3 {
        if is_digit(c) { 4 } else { 8 }
    } else if st == 4 {
        if is_digit(c) { 4 } else if e { 5 } else { 8 }
    } else if st == 5 {
        if sign { 6 } else if is_digit(c) { 7 } else { 8 }
    } else if st == 6 || st == 7 {
        if is_digit(c) { 7 } else { 8 }
    } else {
        8
    }
}

/// The recogniser's state after reading `s`.
pub open spec fn float_run(s: Seq<char>) -> u8
    decreases s.len(),
{
    if s.len() == 0 {
        0
    } else {
        float_step(float_run(s.drop_last()), s.last())
    }
}

pub open spec fn ascii_lower(c: char) -> char {
    if 'A' <= c && c <= 'Z' {
        ((c as u32 + 32) as u8) as char
    } else {
        c
    }
}

/// `s` spells `w` with ASCII letters in either case.
pub open spec fn spells(s: Seq<char>, w: Seq<char>) -> bool {
    s.len() == w.len() && forall|i: int| 0 <= i < s.len() ==> ascii_lower(#[trigger] s[i]) == w[i]
}

/// `s` without one leading `+` or `-`.
pub open spec fn unsigned_part(s: Seq<char>) -> Seq<char> {
    if s.len() > 0 && (s[0] == '+' || s[0] == '-') {
        s.subrange(1, s.len() as int)
    } else {
        s
    }
}

/// The texts that `f64`'s `from_str` reads, per its documented grammar: a
/// decimal literal, or `inf`, `infinity` or `nan` in any case, each with an
/// optional sign.
pub open spec fn float_syntax(s: Seq<char>) -> bool {
    let st = float_run(s);
    let u = unsigned_part(s);
    st == 2 || st == 4 || st == 7 || spells(u, seq!['i', 'n', 'f']) || spells(
        u,
        seq!['i', 'n', 'f', 'i', 'n', 'i', 't', 'y'],
    ) || spells(u, seq!['n', 'a', 'n'])
}

fn float_next(st: u8, c: char) -> (r: u8)
    ensures
        r == float_step(st, c),
{
    let sign = c == '+' || c == '-';
    let e = c == 'e' || c == 'E';
    let digit = '0' <= c && c <= '9';
    if st == 0 {
        if sign { 1 } else if digit { 2 } else if c == '.' { 3 } else { 8 }
    } else if st == 1 {
        if digit { 2 } else if c == '.' { 3 } else { 8 }
    } else if st == 2 {
        if digit { 2 } else if c == '.' { 4 } else if e { 5 } else { 8 }
    } else if st == 3 {
        if digit { 4 } else { 8 }
    } else if st == 4 {
        if digit { 4 } else if e { 5 } else { 8 }
    } else if st == 5 {
        if sign { 6 } else if digit { 7 } else { 8 }
    } else if st == 6 || st == 7 {
        if digit { 7 } else { 8 }
    } else {
        8
    }
}

fn lower_char(c: char) -> (r: char)
    ensures
        r == ascii_lower(c),
{
    if 'A' <= c && c <= 'Z' {
        ((c as u32 + 32) as u8) as char
    } else {
        c
    }
}

fn spells_word(s: &str, from: usize, w: &[char]) -> (r: bool)
    requires
        from <= s@.len(),
    ensures
        r == spells(s@.subrange(from as int, s@.len() as int), w@),
{
    let n = s.unicode_len();
    let ghost u = s@.subrange(from as int, n as int);
    if n - from != w.len() {
        return false;
    }
    let mut i: usize = 0;
    while i < w.len()
        invariant
            n == s@.len(),
            from <= n,
            n - from == w@.len(),
            u == s@.subrange(from as int, n as int),
            i <= w@.len(),
            forall|k: int| 0 <= k < i ==> ascii_lower(#[trigger] u[k]) == w@[k],
        decreases w@.len() - i,
    {
        if lower_char(s.get_char(from + i)) != w[i] {
            assert(ascii_lower(u[i as int]) != w@[i as int]);
            return false;
        }
        i = i + 1;
    }
    true
}

/// Whether `f64`'s `from_str` would read `s`, by its documented grammar.
pub fn is_float_text(s: &str) -> (r: bool)
    ensures
        r == float_syntax(s@),
{
    let n = s.unicode_len();
    let mut st: u8 = 0;
    let mut i: usize = 0;
    while i < n
        invariant
            n == s@.len(),
            i <= n,
            st == float_run(s@.subrange(0, i as int)),
        decreases n - i,
    {
        assert(s@.subrange(0, i + 1).drop_last() =~= s@.subrange(0, i as int));
        st = float_next(st, s.get_char(i));
        i = i + 1;
    }
    assert(s@.subrange(0, n as int) =~= s@);
    let from: usize = if n > 0 && (s.get_char(0) == '+' || s.get_char(0) == '-') { 1 } else { 0 };
    assert(s@.subrange(from as int, n as int) =~= unsigned_part(s@));
    let inf = ['i', 'n', 'f'];
    let infinity = ['i', 'n', 'f', 'i', 'n', 'i', 't', 'y'];
    let nan = ['n', 'a', 'n'];
    assert(inf@ =~= seq!['i', 'n', 'f']);
    assert(infinity@ =~= seq!['i', 'n', 'f', 'i', 'n', 'i', 't', 'y']);
    assert(nan@ =~= seq!['n', 'a', 'n']);
    st == 2 || st == 4 || st == 7 || spells_word(s, from, &inf) || spells_word(s, from, &infinity)
        || spells_word(s, from, &nan)
}

} // verus!
