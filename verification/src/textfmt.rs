//! Character-level primitives for the cache envelope format: decimal
//! numbers, quoted strings with escapes, and literal matching.  Every
//! encoder is paired with a total specification-level decoder, and
//! round-trip lemmas show that decoding an encoding yields the original
//! value.

use vstd::prelude::*;

verus! {

// ---------------------------------------------------------------------
// Trusted string helpers.

/// Relies on String::push: appends exactly one character at the end.
#[verifier::external_body]
pub fn push_char(out: &mut String, c: char)
    ensures
        final(out)@ == old(out)@.push(c),
{
    out.push(c);
}

/// Relies on str::chars: yields the characters of the string in order.
#[verifier::external_body]
pub fn str_chars_vec(s: &str) -> (r: Vec<char>)
    ensures
        r@ == s@,
{
    s.chars().collect()
}

// ---------------------------------------------------------------------
// Decimal digits.

pub open spec fn is_dec_digit(c: char) -> bool {
    c == '0' || c == '1' || c == '2' || c == '3' || c == '4' || c == '5' || c == '6' || c == '7'
        || c == '8' || c == '9'
}

pub open spec fn digit_char(d: nat) -> char {
    if d == 0 {
        '0'
    } else if d == 1 {
        '1'
    } else if d == 2 {
        '2'
    } else if d == 3 {
        '3'
    } else if d == 4 {
        '4'
    } else if d == 5 {
        '5'
    } else if d == 6 {
        '6'
    } else if d == 7 {
        '7'
    } else if d == 8 {
        '8'
    } else {
        '9'
    }
}

pub open spec fn digit_val(c: char) -> nat {
    if c == '0' {
        0
    } else if c == '1' {
        1
    } else if c == '2' {
        2
    } else if c == '3' {
        3
    } else if c == '4' {
        4
    } else if c == '5' {
        5
    } else if c == '6' {
        6
    } else if c == '7' {
        7
    } else if c == '8' {
        8
    } else {
        9
    }
}

/// Lowercase hexadecimal digits, as the standard formatter prints
/// them.
pub open spec fn hex_digit(d: nat) -> char {
    if d < 10 {
        digit_char(d)
    } else if d == 10 {
        'a'
    } else if d == 11 {
        'b'
    } else if d == 12 {
        'c'
    } else if d == 13 {
        'd'
    } else if d == 14 {
        'e'
    } else {
        'f'
    }
}

/// The value of a lowercase hexadecimal digit, `None` for any other
/// character.
pub open spec fn hex_char_val(c: char) -> Option<nat> {
    if is_dec_digit(c) {
        Some(digit_val(c))
    } else if c == 'a' {
        Some(10)
    } else if c == 'b' {
        Some(11)
    } else if c == 'c' {
        Some(12)
    } else if c == 'd' {
        Some(13)
    } else if c == 'e' {
        Some(14)
    } else if c == 'f' {
        Some(15)
    } else {
        None
    }
}

/// A control character survives the trip through its code point.
proof fn lemma_ctl_char_cast(c: char)
    requires
        (c as u32) < 32,
    ensures
        ((c as u32) as char) == c,
{
}

pub proof fn lemma_hex_digit_val(d: nat)
    requires
        d < 16,
    ensures
        hex_char_val(hex_digit(d)) == Some(d),
{
}

/// Appends one lowercase hexadecimal digit.
pub fn push_hex_digit(out: &mut String, d: u8)
    requires
        d < 16,
    ensures
        final(out)@ == old(out)@.push(hex_digit(d as nat)),
{
    match d {
        0 => push_char(out, '0'),
        1 => push_char(out, '1'),
        2 => push_char(out, '2'),
        3 => push_char(out, '3'),
        4 => push_char(out, '4'),
        5 => push_char(out, '5'),
        6 => push_char(out, '6'),
        7 => push_char(out, '7'),
        8 => push_char(out, '8'),
        9 => push_char(out, '9'),
        10 => push_char(out, 'a'),
        11 => push_char(out, 'b'),
        12 => push_char(out, 'c'),
        13 => push_char(out, 'd'),
        14 => push_char(out, 'e'),
        _ => push_char(out, 'f'),
    }
}

/// Reads one lowercase hexadecimal digit.
pub fn hex_val_exec(c: char) -> (r: Option<u8>)
    ensures
        match r {
            Some(v) => v < 16 && hex_char_val(c) == Some(v as nat),
            None => hex_char_val(c) is None,
        },
{
    match c {
        '0' => Some(0),
        '1' => Some(1),
        '2' => Some(2),
        '3' => Some(3),
        '4' => Some(4),
        '5' => Some(5),
        '6' => Some(6),
        '7' => Some(7),
        '8' => Some(8),
        '9' => Some(9),
        'a' => Some(10),
        'b' => Some(11),
        'c' => Some(12),
        'd' => Some(13),
        'e' => Some(14),
        'f' => Some(15),
        _ => None,
    }
}

/// The decimal rendering of a natural number, most significant digit first.
pub open spec fn dec_of(n: nat) -> Seq<char>
    decreases n,
{
    if n < 10 {
        seq![digit_char(n)]
    } else {
        dec_of(n / 10).push(digit_char(n % 10))
    }
}

/// The value of a digit sequence, read most significant digit first.
pub open spec fn from_digits(ds: Seq<char>) -> nat
    decreases ds.len(),
{
    if ds.len() == 0 {
        0
    } else {
        from_digits(ds.drop_last()) * 10 + digit_val(ds.last())
    }
}

/// How many leading characters of `s` are decimal digits.
pub open spec fn digit_prefix_len(s: Seq<char>) -> nat
    decreases s.len(),
{
    if s.len() > 0 && is_dec_digit(s[0]) {
        1 + digit_prefix_len(s.skip(1))
    } else {
        0
    }
}

/// Total decoder for an unsigned decimal number at the head of `s`:
/// the longest digit prefix is taken, and the decode fails when there
/// is no digit or the value does not fit in a `u64`.
pub open spec fn dec_u64_at(s: Seq<char>) -> Option<(u64, Seq<char>)> {
    let k = digit_prefix_len(s);
    if k == 0 {
        None
    } else if from_digits(s.take(k as int)) > u64::MAX {
        None
    } else {
        Some(((from_digits(s.take(k as int)) as u64), s.skip(k as int)))
    }
}

/// The rendering of a signed number: a minus sign for negatives,
/// then the decimal magnitude.
pub open spec fn enc_i64(n: i64) -> Seq<char> {
    if n >= 0 {
        dec_of(n as nat)
    } else {
        seq!['-'] + dec_of((-(n as int)) as nat)
    }
}

pub open spec fn dec_i64_at(s: Seq<char>) -> Option<(i64, Seq<char>)> {
    if s.len() > 0 && s[0] == '-' {
        match dec_u64_at(s.skip(1)) {
            Some((m, rest)) => if m <= 9223372036854775808u64 {
                Some(((-(m as int)) as i64, rest))
            } else {
                None
            },
            None => None,
        }
    } else {
        match dec_u64_at(s) {
            Some((m, rest)) => if m <= i64::MAX as u64 {
                Some((m as i64, rest))
            } else {
                None
            },
            None => None,
        }
    }
}

pub proof fn lemma_dec_of_digits(n: nat)
    ensures
        dec_of(n).len() >= 1,
        forall|m: int| 0 <= m < dec_of(n).len() ==> is_dec_digit(#[trigger] dec_of(n)[m]),
        is_dec_digit(dec_of(n)[0]),
    decreases n,
{
    if n >= 10 {
        lemma_dec_of_digits(n / 10);
    }
}

pub proof fn lemma_from_digits_dec_of(n: nat)
    ensures
        from_digits(dec_of(n)) == n,
    decreases n,
{
    if n < 10 {
        let c = digit_char(n);
        let ds = seq![c];
        assert(dec_of(n) == ds);
        assert(ds.len() == 1);
        assert(ds.drop_last() =~= Seq::<char>::empty());
        assert(from_digits(Seq::<char>::empty()) == 0);
        assert(ds.last() == c);
        assert(from_digits(ds) == from_digits(ds.drop_last()) * 10 + digit_val(ds.last()));
    } else {
        lemma_from_digits_dec_of(n / 10);
        let d = digit_char(n % 10);
        assert(dec_of(n) == dec_of(n / 10).push(d));
        assert(dec_of(n).drop_last() =~= dec_of(n / 10));
        assert(dec_of(n).last() == d);
        assert(digit_val(d) == n % 10);
        assert(from_digits(dec_of(n)) == (n / 10) * 10 + n % 10);
    }
}

pub proof fn lemma_digit_prefix_of_concat(ds: Seq<char>, rest: Seq<char>)
    requires
        forall|m: int| 0 <= m < ds.len() ==> is_dec_digit(#[trigger] ds[m]),
        rest.len() == 0 || !is_dec_digit(rest[0]),
    ensures
        digit_prefix_len(ds + rest) == ds.len(),
    decreases ds.len(),
{
    if ds.len() == 0 {
        assert(ds + rest =~= rest);
    } else {
        assert((ds + rest)[0] == ds[0]);
        assert((ds + rest).skip(1) =~= ds.skip(1) + rest);
        lemma_digit_prefix_of_concat(ds.skip(1), rest);
    }
}

/// The value of a digit prefix only grows as the prefix extends.
pub proof fn lemma_from_digits_mono(s: Seq<char>, j: int, k: int)
    requires
        0 <= j <= k <= s.len(),
    ensures
        from_digits(s.take(j)) <= from_digits(s.take(k)),
    decreases k - j,
{
    if j < k {
        lemma_from_digits_mono(s, j, k - 1);
        assert(s.take(k).drop_last() =~= s.take(k - 1));
        assert(from_digits(s.take(k)) == from_digits(s.take(k - 1)) * 10 + digit_val(
            s.take(k).last(),
        ));
    }
}

/// If the first `k` characters are digits and the `k`th is not (or the
/// sequence ends there), the digit prefix has length exactly `k`.
pub proof fn lemma_digit_prefix_exact(s: Seq<char>, k: int)
    requires
        0 <= k <= s.len(),
        forall|m: int| 0 <= m < k ==> is_dec_digit(#[trigger] s[m]),
        k == s.len() || !is_dec_digit(s[k]),
    ensures
        digit_prefix_len(s) == k,
    decreases k,
{
    if k == 0 {
    } else {
        lemma_digit_prefix_exact(s.skip(1), k - 1);
    }
}

pub proof fn lemma_digit_prefix_le_len(s: Seq<char>)
    ensures
        digit_prefix_len(s) <= s.len(),
    decreases s.len(),
{
    if s.len() > 0 && is_dec_digit(s[0]) {
        lemma_digit_prefix_le_len(s.skip(1));
    }
}

pub proof fn lemma_digit_prefix_lower(s: Seq<char>, k: int)
    requires
        0 <= k <= s.len(),
        forall|m: int| 0 <= m < k ==> is_dec_digit(#[trigger] s[m]),
    ensures
        digit_prefix_len(s) >= k,
    decreases k,
{
    if k > 0 {
        lemma_digit_prefix_lower(s.skip(1), k - 1);
    }
}

/// Round trip for unsigned numbers: decoding an encoding followed by
/// anything that does not begin with a digit yields the value back.
pub proof fn lemma_dec_u64_round(n: u64, rest: Seq<char>)
    requires
        rest.len() == 0 || !is_dec_digit(rest[0]),
    ensures
        dec_u64_at(dec_of(n as nat) + rest) == Some((n, rest)),
{
    let ds = dec_of(n as nat);
    let s = ds + rest;
    lemma_dec_of_digits(n as nat);
    lemma_digit_prefix_of_concat(ds, rest);
    assert(s.take(ds.len() as int) =~= ds);
    assert(s.skip(ds.len() as int) =~= rest);
    lemma_from_digits_dec_of(n as nat);
}

/// Decimal renderings are injective: equal renderings mean equal
/// numbers.
pub proof fn lemma_dec_of_injective(a: nat, b: nat)
    ensures
        dec_of(a) == dec_of(b) ==> a == b,
{
    lemma_from_digits_dec_of(a);
    lemma_from_digits_dec_of(b);
}

/// A keyed text `prefix + digits + suffix` determines the number and
/// the suffix, provided the suffix does not begin with a digit.
pub proof fn lemma_keyed_text_injective(p: Seq<char>, a: u64, s1: Seq<char>, b: u64, s2: Seq<char>)
    requires
        s1.len() == 0 || !is_dec_digit(s1[0]),
        s2.len() == 0 || !is_dec_digit(s2[0]),
    ensures
        p + dec_of(a as nat) + s1 == p + dec_of(b as nat) + s2 ==> a == b && s1 == s2,
{
    if p + dec_of(a as nat) + s1 == p + dec_of(b as nat) + s2 {
        let ta = dec_of(a as nat) + s1;
        let tb = dec_of(b as nat) + s2;
        assert((p + dec_of(a as nat) + s1).skip(p.len() as int) =~= ta);
        assert((p + dec_of(b as nat) + s2).skip(p.len() as int) =~= tb);
        assert(ta == tb);
        lemma_dec_of_digits(a as nat);
        lemma_dec_of_digits(b as nat);
        lemma_digit_prefix_of_concat(dec_of(a as nat), s1);
        lemma_digit_prefix_of_concat(dec_of(b as nat), s2);
        let k = dec_of(a as nat).len() as int;
        assert(dec_of(b as nat).len() as int == k);
        assert(ta.take(k) =~= dec_of(a as nat));
        assert(tb.take(k) =~= dec_of(b as nat));
        lemma_dec_of_injective(a as nat, b as nat);
        assert(ta.skip(k) =~= s1);
        assert(tb.skip(k) =~= s2);
    }
}

/// Round trip for signed numbers.
pub proof fn lemma_dec_i64_round(n: i64, rest: Seq<char>)
    requires
        rest.len() == 0 || !is_dec_digit(rest[0]),
    ensures
        dec_i64_at(enc_i64(n) + rest) == Some((n, rest)),
{
    if n >= 0 {
        lemma_dec_u64_round(n as u64, rest);
        let s = enc_i64(n) + rest;
        lemma_dec_of_digits(n as nat);
        assert(s[0] == dec_of(n as nat)[0]);
        assert(s[0] != '-');
    } else {
        let mag = (-(n as int)) as u64;
        lemma_dec_u64_round(mag, rest);
        let s = enc_i64(n) + rest;
        assert(s[0] == '-');
        assert(s.skip(1) =~= dec_of(mag as nat) + rest);
        assert(mag <= 9223372036854775808u64);
        assert((-(mag as int)) as i64 == n);
    }
}

// ---------------------------------------------------------------------
// Literals.

/// Decoder that expects the exact characters of `lit` at the head of `s`.
pub open spec fn dec_lit(s: Seq<char>, lit: Seq<char>) -> Option<Seq<char>> {
    if lit.len() <= s.len() && s.take(lit.len() as int) == lit {
        Some(s.skip(lit.len() as int))
    } else {
        None
    }
}

pub proof fn lemma_dec_lit(lit: Seq<char>, rest: Seq<char>)
    ensures
        dec_lit(lit + rest, lit) == Some(rest),
{
    let s = lit + rest;
    assert(s.take(lit.len() as int) =~= lit);
    assert(s.skip(lit.len() as int) =~= rest);
}

// ---------------------------------------------------------------------
// Quoted strings.

/// How one character is written inside a quoted string.  The quote
/// and the backslash are escaped, the three common control
/// characters by name, every other control character as a hex
/// escape, so the encoding stays valid JSON; everything else stands
/// for itself.
pub open spec fn esc_char(c: char) -> Seq<char> {
    if c == '"' {
        seq!['\\', '"']
    } else if c == '\\' {
        seq!['\\', '\\']
    } else if c == '\n' {
        seq!['\\', 'n']
    } else if c == '\t' {
        seq!['\\', 't']
    } else if c == '\r' {
        seq!['\\', 'r']
    } else if (c as u32) < 32 {
        seq![
            '\\',
            'u',
            '0',
            '0',
            hex_digit(((c as u32) / 16) as nat),
            hex_digit(((c as u32) % 16) as nat),
        ]
    } else {
        seq![c]
    }
}

pub open spec fn esc(s: Seq<char>) -> Seq<char>
    decreases s.len(),
{
    if s.len() == 0 {
        Seq::empty()
    } else {
        esc_char(s[0]) + esc(s.skip(1))
    }
}

/// The full rendering of a string field: quote, escaped body, quote.
pub open spec fn enc_str(s: Seq<char>) -> Seq<char> {
    seq!['"'] + esc(s) + seq!['"']
}

/// What an escape code stands for; `None` for an unknown code.
pub open spec fn unesc_code(c: char) -> Option<char> {
    if c == '"' {
        Some('"')
    } else if c == '\\' {
        Some('\\')
    } else if c == 'n' {
        Some('\n')
    } else if c == 't' {
        Some('\t')
    } else if c == 'r' {
        Some('\r')
    } else {
        None
    }
}

/// Total decoder for the body of a quoted string, after the opening
/// quote: reads until the closing quote, undoing escapes.
pub open spec fn dec_str_body(s: Seq<char>) -> Option<(Seq<char>, Seq<char>)>
    decreases s.len(),
{
    if s.len() == 0 {
        None
    } else if s[0] == '"' {
        Some((Seq::empty(), s.skip(1)))
    } else if s[0] == '\\' {
        if s.len() < 2 {
            None
        } else if s[1] == 'u' {
            if s.len() < 6 {
                None
            } else if s[2] == '0' && s[3] == '0' && hex_char_val(s[4]) is Some && hex_char_val(
                s[5],
            ) is Some && hex_char_val(s[4])->0 * 16 + hex_char_val(s[5])->0 < 32 {
                match dec_str_body(s.skip(6)) {
                    Some((body, rest)) => Some(
                        (
                            seq![
                                ((hex_char_val(s[4])->0 * 16 + hex_char_val(s[5])->0) as char),
                            ] + body,
                            rest,
                        ),
                    ),
                    None => None,
                }
            } else {
                None
            }
        } else {
            match unesc_code(s[1]) {
                Some(ch) => match dec_str_body(s.skip(2)) {
                    Some((body, rest)) => Some((seq![ch] + body, rest)),
                    None => None,
                },
                None => None,
            }
        }
    } else {
        match dec_str_body(s.skip(1)) {
            Some((body, rest)) => Some((seq![s[0]] + body, rest)),
            None => None,
        }
    }
}

/// Total decoder for a whole quoted string at the head of `s`.
pub open spec fn dec_str_at(s: Seq<char>) -> Option<(Seq<char>, Seq<char>)> {
    if s.len() > 0 && s[0] == '"' {
        dec_str_body(s.skip(1))
    } else {
        None
    }
}

pub proof fn lemma_esc_append(a: Seq<char>, b: Seq<char>)
    ensures
        esc(a + b) == esc(a) + esc(b),
    decreases a.len(),
{
    if a.len() == 0 {
        assert(a + b =~= b);
        assert(esc(a) + esc(b) =~= esc(b));
    } else {
        assert((a + b)[0] == a[0]);
        assert((a + b).skip(1) =~= a.skip(1) + b);
        lemma_esc_append(a.skip(1), b);
        assert(esc(a + b) =~= esc(a) + esc(b));
    }
}

pub proof fn lemma_esc_snoc(s: Seq<char>, i: int)
    requires
        0 <= i < s.len(),
    ensures
        esc(s.take(i + 1)) == esc(s.take(i)) + esc_char(s[i]),
{
    assert(s.take(i + 1) =~= s.take(i) + seq![s[i]]);
    lemma_esc_append(s.take(i), seq![s[i]]);
    let single = seq![s[i]];
    assert(single.len() == 1);
    assert(single.skip(1) =~= Seq::<char>::empty());
    assert(esc(Seq::<char>::empty()) =~= Seq::<char>::empty());
    assert(esc(single) == esc_char(single[0]) + esc(single.skip(1)));
    assert(esc(single) =~= esc_char(s[i]));
}

pub proof fn lemma_dec_str_body_round(s: Seq<char>, rest: Seq<char>)
    ensures
        dec_str_body(esc(s) + (seq!['"'] + rest)) == Some((s, rest)),
    decreases s.len(),
{
    if s.len() == 0 {
        assert(esc(s) + (seq!['"'] + rest) =~= seq!['"'] + rest);
        let t = seq!['"'] + rest;
        assert(t[0] == '"');
        assert(t.skip(1) =~= rest);
    } else {
        let c = s[0];
        let t = esc(s) + (seq!['"'] + rest);
        lemma_dec_str_body_round(s.skip(1), rest);
        let u = esc(s.skip(1)) + (seq!['"'] + rest);
        if c == '"' || c == '\\' || c == '\n' || c == '\t' || c == '\r' {
            assert(esc_char(c).len() == 2);
            assert(t[0] == '\\');
            assert(t.len() >= 2);
            assert(t[1] == esc_char(c)[1]);
            assert(t[1] != 'u');
            assert(unesc_code(esc_char(c)[1]) == Some(c));
            assert(t.skip(2) =~= u);
            assert(seq![c] + s.skip(1) =~= s);
        } else if (c as u32) < 32 {
            let code = (c as u32) as nat;
            assert(esc_char(c).len() == 6);
            assert(t.len() >= 6);
            assert(t[0] == '\\' && t[1] == 'u' && t[2] == '0' && t[3] == '0');
            assert(t[4] == hex_digit(code / 16));
            assert(t[5] == hex_digit(code % 16));
            lemma_hex_digit_val(code / 16);
            lemma_hex_digit_val(code % 16);
            assert(hex_char_val(t[4]) == Some(code / 16));
            assert(hex_char_val(t[5]) == Some(code % 16));
            assert(hex_char_val(t[4])->0 * 16 + hex_char_val(t[5])->0 == code) by {
                assert((code / 16) * 16 + code % 16 == code);
            }
            lemma_ctl_char_cast(c);
            assert(((hex_char_val(t[4])->0 * 16 + hex_char_val(t[5])->0) as char) == c);
            assert(t.skip(6) =~= u);
            assert(seq![c] + s.skip(1) =~= s);
        } else {
            assert(esc_char(c) =~= seq![c]);
            assert(t[0] == c);
            assert(t[0] != '"' && t[0] != '\\');
            assert(t.skip(1) =~= u);
            assert(seq![c] + s.skip(1) =~= s);
        }
    }
}

/// Round trip for quoted strings: decoding an encoding followed by
/// anything at all yields the original characters.
pub proof fn lemma_dec_str_round(s: Seq<char>, rest: Seq<char>)
    ensures
        dec_str_at(enc_str(s) + rest) == Some((s, rest)),
{
    let t = enc_str(s) + rest;
    assert(t[0] == '"');
    assert(t.skip(1) =~= esc(s) + (seq!['"'] + rest));
    lemma_dec_str_body_round(s, rest);
}

// ---------------------------------------------------------------------
// Small general facts about concatenation, used to re-associate the
// long concatenations that the record encoders produce.

pub proof fn lemma_assoc(a: Seq<char>, b: Seq<char>, c: Seq<char>)
    ensures
        (a + b) + c == a + (b + c),
{
    assert((a + b) + c =~= a + (b + c));
}

/// The head and tail of a sequence built as `[c] + a + b` followed by
/// anything.
pub proof fn lemma_head3(c: char, a: Seq<char>, b: Seq<char>, r: Seq<char>)
    ensures
        (((seq![c] + a) + b) + r).len() > 0,
        (((seq![c] + a) + b) + r)[0] == c,
        (((seq![c] + a) + b) + r).skip(1) == a + (b + r),
{
    assert((((seq![c] + a) + b) + r).skip(1) =~= a + (b + r));
}

/// A literal of one known character decodes at any sequence that
/// starts with that character.
pub proof fn lemma_dec_lit1(s: Seq<char>, c: char)
    requires
        s.len() > 0,
        s[0] == c,
    ensures
        dec_lit(s, seq![c]) == Some(s.skip(1)),
{
    assert(s.take(1) =~= seq![s[0]]);
}

// ---------------------------------------------------------------------
// Decoding consumes text.  These facts justify the termination of the
// decoders for repeated elements, which recurse on the remaining text.

pub proof fn lemma_dec_u64_consumes(s: Seq<char>)
    ensures
        dec_u64_at(s) matches Some(p) ==> p.1.len() < s.len(),
{
    if dec_u64_at(s) is Some {
        lemma_digit_prefix_le_len(s);
    }
}

pub proof fn lemma_dec_i64_consumes(s: Seq<char>)
    ensures
        dec_i64_at(s) matches Some(p) ==> p.1.len() < s.len(),
{
    if s.len() > 0 && s[0] == '-' {
        lemma_dec_u64_consumes(s.skip(1));
    } else {
        lemma_dec_u64_consumes(s);
    }
}

pub proof fn lemma_dec_str_body_consumes(s: Seq<char>)
    ensures
        dec_str_body(s) matches Some(p) ==> p.1.len() < s.len(),
    decreases s.len(),
{
    if s.len() == 0 {
    } else if s[0] == '"' {
    } else if s[0] == '\\' {
        if s.len() >= 6 && s[1] == 'u' {
            lemma_dec_str_body_consumes(s.skip(6));
        } else if s.len() >= 2 {
            lemma_dec_str_body_consumes(s.skip(2));
        }
    } else {
        lemma_dec_str_body_consumes(s.skip(1));
    }
}

pub proof fn lemma_dec_str_consumes(s: Seq<char>)
    ensures
        dec_str_at(s) matches Some(p) ==> p.1.len() < s.len(),
{
    if s.len() > 0 && s[0] == '"' {
        lemma_dec_str_body_consumes(s.skip(1));
    }
}

// ---------------------------------------------------------------------
// Executable encoders.

pub fn push_digit(out: &mut String, d: u64)
    requires
        d < 10,
    ensures
        final(out)@ == old(out)@.push(digit_char(d as nat)),
{
    match d {
        0 => push_char(out, '0'),
        1 => push_char(out, '1'),
        2 => push_char(out, '2'),
        3 => push_char(out, '3'),
        4 => push_char(out, '4'),
        5 => push_char(out, '5'),
        6 => push_char(out, '6'),
        7 => push_char(out, '7'),
        8 => push_char(out, '8'),
        _ => push_char(out, '9'),
    }
}

/// Appends the decimal rendering of `n`.
pub fn push_u64(out: &mut String, n: u64)
    ensures
        final(out)@ == old(out)@ + dec_of(n as nat),
    decreases n,
{
    if n >= 10 {
        push_u64(out, n / 10);
        push_digit(out, n % 10);
        assert(final(out)@ =~= old(out)@ + dec_of(n as nat));
    } else {
        push_digit(out, n);
        assert(final(out)@ =~= old(out)@ + dec_of(n as nat));
    }
}

/// Appends the decimal rendering of a signed number.
pub fn push_i64(out: &mut String, n: i64)
    ensures
        final(out)@ == old(out)@ + enc_i64(n),
{
    if n >= 0 {
        push_u64(out, n as u64);
    } else {
        push_char(out, '-');
        let mag: u64 = if n == i64::MIN {
            9223372036854775808u64
        } else {
            (-n) as u64
        };
        assert(mag as nat == (-(n as int)) as nat);
        push_u64(out, mag);
        assert(final(out)@ =~= old(out)@ + enc_i64(n));
    }
}

/// Appends the quoted, escaped rendering of `s`.
pub fn push_quoted(out: &mut String, s: &str)
    ensures
        final(out)@ == old(out)@ + enc_str(s@),
{
    let cs = str_chars_vec(s);
    push_char(out, '"');
    let n = cs.len();
    let mut i: usize = 0;
    while i < n
        invariant
            n == cs.len(),
            cs@ == s@,
            i <= n,
            out@ == old(out)@ + seq!['"'] + esc(s@.take(i as int)),
        decreases n - i,
    {
        let c = cs[i];
        proof {
            lemma_esc_snoc(s@, i as int);
        }
        if c == '"' {
            push_char(out, '\\');
            push_char(out, '"');
        } else if c == '\\' {
            push_char(out, '\\');
            push_char(out, '\\');
        } else if c == '\n' {
            push_char(out, '\\');
            push_char(out, 'n');
        } else if c == '\t' {
            push_char(out, '\\');
            push_char(out, 't');
        } else if c == '\r' {
            push_char(out, '\\');
            push_char(out, 'r');
        } else if (c as u32) < 32 {
            push_char(out, '\\');
            push_char(out, 'u');
            push_char(out, '0');
            push_char(out, '0');
            let code: u32 = c as u32;
            push_hex_digit(out, (code / 16) as u8);
            push_hex_digit(out, (code % 16) as u8);
        } else {
            push_char(out, c);
        }
        assert(out@ =~= old(out)@ + seq!['"'] + esc(s@.take(i + 1)));
        i = i + 1;
    }
    assert(s@.take(n as int) =~= s@);
    push_char(out, '"');
    assert(final(out)@ =~= old(out)@ + enc_str(s@));
}

/// Appends the literal characters of `lit` (used for fixed punctuation
/// and field names of the envelope format).
pub fn push_lit(out: &mut String, lit: &str)
    ensures
        final(out)@ == old(out)@ + lit@,
{
    let cs = str_chars_vec(lit);
    let n = cs.len();
    let mut i: usize = 0;
    while i < n
        invariant
            n == cs.len(),
            cs@ == lit@,
            i <= n,
            out@ == old(out)@ + lit@.take(i as int),
        decreases n - i,
    {
        push_char(out, cs[i]);
        assert(out@ =~= old(out)@ + lit@.take(i + 1));
        i = i + 1;
    }
    assert(lit@.take(n as int) =~= lit@);
}

// ---------------------------------------------------------------------
// Executable decoders.

pub fn is_dec_digit_exec(c: char) -> (r: bool)
    ensures
        r == is_dec_digit(c),
{
    c == '0' || c == '1' || c == '2' || c == '3' || c == '4' || c == '5' || c == '6' || c == '7'
        || c == '8' || c == '9'
}

pub fn digit_val_exec(c: char) -> (r: u64)
    requires
        is_dec_digit(c),
    ensures
        r == digit_val(c),
        r < 10,
{
    match c {
        '0' => 0,
        '1' => 1,
        '2' => 2,
        '3' => 3,
        '4' => 4,
        '5' => 5,
        '6' => 6,
        '7' => 7,
        '8' => 8,
        _ => 9,
    }
}

/// Reads an unsigned decimal number from position `i`, conforming
/// exactly to the total decoder `dec_u64_at`.
pub fn parse_u64(v: &Vec<char>, i: usize) -> (r: Option<(u64, usize)>)
    requires
        i <= v@.len(),
    ensures
        match r {
            Some(p) => i <= p.1 <= v@.len() && dec_u64_at(v@.skip(i as int)) == Some(
                (p.0, v@.skip(p.1 as int)),
            ),
            None => dec_u64_at(v@.skip(i as int)) is None,
        },
{
    let ghost s = v@.skip(i as int);
    let mut j = i;
    let mut acc: u64 = 0;
    if !(j < v.len() && is_dec_digit_exec(v[j])) {
        assert(digit_prefix_len(s) == 0);
        return None;
    }
    while j < v.len() && is_dec_digit_exec(v[j])
        invariant
            i <= j <= v@.len(),
            s == v@.skip(i as int),
            forall|m: int| 0 <= m < j - i ==> is_dec_digit(#[trigger] s[m]),
            acc == from_digits(s.take(j - i)),
        decreases v@.len() - j,
    {
        let d = digit_val_exec(v[j]);
        let t: u128 = acc as u128 * 10 + d as u128;
        proof {
            assert(s[j - i] == v@[j as int]);
            assert(s.take(j - i + 1).drop_last() =~= s.take(j - i));
            assert(s.take(j - i + 1).last() == s[j - i]);
            assert(from_digits(s.take(j - i + 1)) == acc * 10 + digit_val(s[j - i]));
        }
        if t > u64::MAX as u128 {
            proof {
                assert forall|m: int| 0 <= m < j - i + 1 implies is_dec_digit(
                    #[trigger] s[m],
                ) by {
                    if m == j - i {
                        assert(s[m] == v@[j as int]);
                    }
                }
                lemma_digit_prefix_lower(s, j - i + 1);
                lemma_digit_prefix_le_len(s);
                let k = digit_prefix_len(s) as int;
                lemma_from_digits_mono(s, j - i + 1, k);
            }
            return None;
        }
        acc = t as u64;
        j = j + 1;
    }
    proof {
        assert forall|m: int| 0 <= m < j - i implies is_dec_digit(#[trigger] s[m]) by {}
        lemma_digit_prefix_exact(s, j - i);
        assert(s.skip(j - i) =~= v@.skip(j as int));
    }
    Some((acc, j))
}

/// Reads a signed decimal number from position `i`, conforming exactly
/// to the total decoder `dec_i64_at`.
pub fn parse_i64(v: &Vec<char>, i: usize) -> (r: Option<(i64, usize)>)
    requires
        i <= v@.len(),
    ensures
        match r {
            Some(p) => i <= p.1 <= v@.len() && dec_i64_at(v@.skip(i as int)) == Some(
                (p.0, v@.skip(p.1 as int)),
            ),
            None => dec_i64_at(v@.skip(i as int)) is None,
        },
{
    let ghost s = v@.skip(i as int);
    if i < v.len() && v[i] == '-' {
        proof {
            assert(s[0] == v@[i as int]);
            assert(v@.skip(i as int).skip(1) =~= v@.skip(i + 1));
        }
        match parse_u64(v, i + 1) {
            Some((m, j)) => {
                if m <= 9223372036854775807u64 {
                    Some((-(m as i64), j))
                } else if m == 9223372036854775808u64 {
                    Some((i64::MIN, j))
                } else {
                    None
                }
            },
            None => None,
        }
    } else {
        proof {
            if s.len() > 0 {
                assert(s[0] == v@[i as int]);
            }
        }
        match parse_u64(v, i) {
            Some((m, j)) => {
                if m <= i64::MAX as u64 {
                    Some((m as i64, j))
                } else {
                    None
                }
            },
            None => None,
        }
    }
}

/// Expects the characters of `lit` at position `i`, conforming exactly
/// to the total decoder `dec_lit`.
pub fn expect_lit(v: &Vec<char>, i: usize, lit: &str) -> (r: Option<usize>)
    requires
        i <= v@.len(),
    ensures
        match r {
            Some(j) => {
                &&& i <= j <= v@.len()
                &&& j - i == lit@.len()
                &&& dec_lit(v@.skip(i as int), lit@) == Some(v@.skip(j as int))
            },
            None => dec_lit(v@.skip(i as int), lit@) is None,
        },
{
    let ghost s = v@.skip(i as int);
    let cs = str_chars_vec(lit);
    let n = cs.len();
    if v.len() - i < n {
        assert(lit@.len() > s.len());
        return None;
    }
    let mut k: usize = 0;
    while k < n
        invariant
            n == cs.len(),
            cs@ == lit@,
            s == v@.skip(i as int),
            i <= v@.len(),
            v@.len() <= usize::MAX,
            n <= v@.len() - i,
            k <= n,
            forall|m: int| 0 <= m < k ==> s[m] == lit@[m],
        decreases n - k,
    {
        proof {
            assert(s[k as int] == v@[i + k]);
        }
        if v[i + k] != cs[k] {
            proof {
                assert(s.take(lit@.len() as int)[k as int] == s[k as int]);
                assert(s.take(lit@.len() as int) != lit@);
            }
            return None;
        }
        k = k + 1;
    }
    proof {
        assert(s.take(lit@.len() as int) =~= lit@);
        assert(s.skip(lit@.len() as int) =~= v@.skip(i + n));
    }
    Some(i + n)
}

/// Reads a quoted string from position `i`, conforming exactly to the
/// total decoder `dec_str_at`.
pub fn parse_quoted(v: &Vec<char>, i: usize) -> (r: Option<(String, usize)>)
    requires
        i <= v@.len(),
    ensures
        match r {
            Some(p) => i <= p.1 <= v@.len() && dec_str_at(v@.skip(i as int)) == Some(
                (p.0@, v@.skip(p.1 as int)),
            ),
            None => dec_str_at(v@.skip(i as int)) is None,
        },
{
    let ghost s = v@.skip(i as int);
    if !(i < v.len() && v[i] == '"') {
        proof {
            if s.len() > 0 {
                assert(s[0] == v@[i as int]);
            }
        }
        return None;
    }
    assert(s[0] == '"');
    let ghost body0 = s.skip(1);
    let mut acc = String::new();
    let mut j = i + 1;
    proof {
        assert(v@.skip(i as int).skip(1) =~= v@.skip(i + 1));
    }
    loop
        invariant
            i + 1 <= j <= v@.len(),
            body0 == v@.skip(i + 1),
            s == v@.skip(i as int),
            s.len() > 0 && s[0] == '"',
            body0 == s.skip(1),
            dec_str_body(body0) == match dec_str_body(v@.skip(j as int)) {
                Some(p) => Some((acc@ + p.0, p.1)),
                None => None::<(Seq<char>, Seq<char>)>,
            },
        decreases v@.len() - j,
    {
        let ghost cur = v@.skip(j as int);
        if j >= v.len() {
            assert(cur.len() == 0);
            assert(dec_str_body(body0) is None);
            return None;
        }
        let c = v[j];
        proof {
            assert(cur[0] == v@[j as int]);
            assert(cur.skip(1) =~= v@.skip(j + 1));
        }
        if c == '"' {
            proof {
                assert(dec_str_body(cur) == Some((Seq::<char>::empty(), cur.skip(1))));
                assert(acc@ + Seq::<char>::empty() =~= acc@);
            }
            return Some((acc, j + 1));
        } else if c == '\\' {
            if j + 1 >= v.len() {
                assert(cur.len() < 2);
                assert(dec_str_body(cur) is None);
                return None;
            }
            let e = v[j + 1];
            proof {
                assert(cur[1] == v@[j + 1]);
                assert(cur.skip(2) =~= v@.skip(j + 2));
            }
            if e == 'u' {
                if v.len() - j < 6 {
                    assert(cur.len() < 6);
                    assert(dec_str_body(cur) is None);
                    return None;
                }
                proof {
                    assert(cur[2] == v@[j + 2]);
                    assert(cur[3] == v@[j + 3]);
                    assert(cur[4] == v@[j + 4]);
                    assert(cur[5] == v@[j + 5]);
                    assert(cur.skip(6) =~= v@.skip(j + 6));
                }
                if v[j + 2] != '0' || v[j + 3] != '0' {
                    assert(dec_str_body(cur) is None);
                    return None;
                }
                let v1 = match hex_val_exec(v[j + 4]) {
                    Some(x) => x,
                    None => {
                        assert(dec_str_body(cur) is None);
                        return None;
                    },
                };
                let v2 = match hex_val_exec(v[j + 5]) {
                    Some(x) => x,
                    None => {
                        assert(dec_str_body(cur) is None);
                        return None;
                    },
                };
                let code: u8 = v1 * 16 + v2;
                if code >= 32 {
                    proof {
                        assert(hex_char_val(cur[4])->0 * 16 + hex_char_val(cur[5])->0 >= 32);
                        assert(dec_str_body(cur) is None);
                    }
                    return None;
                }
                let ch: char = code as char;
                proof {
                    assert((hex_char_val(cur[4])->0 * 16 + hex_char_val(cur[5])->0) == code as nat);
                    assert(((hex_char_val(cur[4])->0 * 16 + hex_char_val(cur[5])->0) as char)
                        == ch);
                }
                let ghost acc_old = acc@;
                push_char(&mut acc, ch);
                proof {
                    assert(acc@ =~= acc_old.push(ch));
                    if dec_str_body(v@.skip(j + 6)) is Some {
                        let p = dec_str_body(v@.skip(j + 6)).unwrap();
                        assert(dec_str_body(cur) == Some((seq![ch] + p.0, p.1)));
                        assert(acc_old + (seq![ch] + p.0) =~= acc@ + p.0);
                    }
                }
                j = j + 6;
                continue ;
            }
            let ch: char;
            if e == '"' {
                ch = '"';
            } else if e == '\\' {
                ch = '\\';
            } else if e == 'n' {
                ch = '\n';
            } else if e == 't' {
                ch = '\t';
            } else if e == 'r' {
                ch = '\r';
            } else {
                assert(unesc_code(cur[1]) is None);
                assert(dec_str_body(cur) is None);
                return None;
            }
            assert(unesc_code(cur[1]) == Some(ch));
            let ghost acc_old = acc@;
            push_char(&mut acc, ch);
            proof {
                assert(acc@ =~= acc_old.push(ch));
                if dec_str_body(v@.skip(j + 2)) is Some {
                    let p = dec_str_body(v@.skip(j + 2)).unwrap();
                    assert(dec_str_body(cur) == Some((seq![ch] + p.0, p.1)));
                    assert(acc_old + (seq![ch] + p.0) =~= acc@ + p.0);
                }
            }
            j = j + 2;
        } else {
            let ghost acc_old = acc@;
            push_char(&mut acc, c);
            proof {
                assert(acc@ =~= acc_old.push(c));
                if dec_str_body(v@.skip(j + 1)) is Some {
                    let p = dec_str_body(v@.skip(j + 1)).unwrap();
                    assert(dec_str_body(cur) == Some((seq![c] + p.0, p.1)));
                    assert(acc_old + (seq![c] + p.0) =~= acc@ + p.0);
                }
            }
            j = j + 1;
        }
    }
}

} // verus!
