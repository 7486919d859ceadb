//! Decimal numbers in text: the integer grammar of std's `FromStr` for the
//! integer types, decimal formatting as `to_string` gives it, and the grammar
//! of literals that `f32::from_str` accepts. Readings are returned as plain
//! integers; a floating-point reading is kept as its (checked) text.
use vstd::prelude::*;
use crate::text::{ascii_lower, eq_ignore_ascii_case, string_from, sub_chars, to_ascii_lower, to_chars};

verus! {

pub open spec fn is_digit(c: char) -> bool {
    '0' <= c && c <= '9'
}

pub open spec fn digit_val(c: char) -> nat {
    (c as int - '0' as int) as nat
}

pub open spec fn all_digits(s: Seq<char>) -> bool {
    forall|i: int| 0 <= i < s.len() ==> is_digit(#[trigger] s[i])
}

/// The number that a string of decimal digits denotes.
pub open spec fn digits_value(s: Seq<char>) -> nat
    decreases s.len(),
{
    if s.len() == 0 {
        0
    } else {
        digits_value(s.drop_last()) * 10 + digit_val(s.last())
    }
}

/// An unsigned integer as std's `FromStr` reads it: an optional `+`, then
/// one or more ASCII digits and nothing else.
pub open spec fn parse_unsigned(s: Seq<char>) -> Option<nat> {
    let d = if s.len() > 0 && s[0] == '+' {
        s.drop_first()
    } else {
        s
    };
    if d.len() > 0 && all_digits(d) {
        Some(digits_value(d))
    } else {
        None
    }
}

/// A signed integer as std's `FromStr` reads it: an optional `+` or `-`,
/// then one or more ASCII digits and nothing else.
pub open spec fn parse_signed(s: Seq<char>) -> Option<int> {
    if s.len() > 0 && s[0] == '-' {
        let d = s.drop_first();
        if d.len() > 0 && all_digits(d) {
            Some(-(digits_value(d) as int))
        } else {
            None
        }
    } else {
        match parse_unsigned(s) {
            Some(n) => Some(n as int),
            None => None,
        }
    }
}

/// `s.parse::<u64>().ok()`.
pub open spec fn spec_parse_u64(s: Seq<char>) -> Option<u64> {
    match parse_unsigned(s) {
        Some(n) => if n <= u64::MAX {
            Some(n as u64)
        } else {
            None
        },
        None => None,
    }
}

/// `s.parse::<u32>().ok()`.
pub open spec fn spec_parse_u32(s: Seq<char>) -> Option<u32> {
    match parse_unsigned(s) {
        Some(n) => if n <= u32::MAX {
            Some(n as u32)
        } else {
            None
        },
        None => None,
    }
}

/// `s.parse::<u8>().ok()`.
pub open spec fn spec_parse_u8(s: Seq<char>) -> Option<u8> {
    match parse_unsigned(s) {
        Some(n) => if n <= u8::MAX {
            Some(n as u8)
        } else {
            None
        },
        None => None,
    }
}

/// `s.parse::<i32>().ok()`.
pub open spec fn spec_parse_i32(s: Seq<char>) -> Option<i32> {
    match parse_signed(s) {
        Some(n) => if i32::MIN <= n <= i32::MAX {
            Some(n as i32)
        } else {
            None
        },
        None => None,
    }
}

proof fn lemma_digits_value_prefix(s: Seq<char>, k: int)
    requires
        0 <= k <= s.len(),
        all_digits(s),
    ensures
        digits_value(s.take(k)) <= digits_value(s),
    decreases s.len() - k,
{
    if k < s.len() {
        assert(s.drop_last().take(k) == s.take(k));
        assert(all_digits(s.drop_last())) by {
            assert forall|i: int| 0 <= i < s.drop_last().len() implies is_digit(
                #[trigger] s.drop_last()[i],
            ) by {
                assert(s.drop_last()[i] == s[i]);
            }
        }
        lemma_digits_value_prefix(s.drop_last(), k);
    } else {
        assert(s.take(k) == s);
    }
}

/// Reads `d` as a string of decimal digits whose value is at most `limit`.
fn parse_digits(d: &[char], limit: u64) -> (r: Option<u64>)
    ensures
        r == (if d@.len() > 0 && all_digits(d@) && digits_value(d@) <= limit {
            Some(digits_value(d@) as u64)
        } else {
            None::<u64>
        }),
{
    if d.len() == 0 {
        return None;
    }
    let mut acc: u64 = 0;
    let mut i: usize = 0;
    assert(d@.take(0) =~= Seq::<char>::empty());
    while i < d.len()
        invariant
            i <= d@.len(),
            all_digits(d@.take(i as int)),
            acc == digits_value(d@.take(i as int)),
            acc <= limit,
        decreases d@.len() - i,
    {
        let c = d[i];
        assert(d@.take(i as int + 1).drop_last() == d@.take(i as int));
        assert(d@.take(i as int + 1).last() == c);
        if !('0' <= c && c <= '9') {
            assert(!all_digits(d@)) by {
                assert(!is_digit(d@[i as int]));
            }
            return None;
        }
        let dv = (c as u32 - '0' as u32) as u64;
        assert(dv == digit_val(c));
        assert(all_digits(d@.take(i as int + 1))) by {
            assert forall|j: int| 0 <= j < i + 1 implies is_digit(
                #[trigger] d@.take(i as int + 1)[j],
            ) by {
                if j < i {
                    assert(d@.take(i as int + 1)[j] == d@.take(i as int)[j]);
                }
            }
        }
        if dv > limit || acc > (limit - dv) / 10 {
            proof {
                let q = (limit - dv) / 10;
                if dv <= limit {
                    assert(acc * 10 + dv > limit) by (nonlinear_arith)
                        requires
                            acc > q,
                            q == (limit - dv) / 10,
                            dv <= limit,
                    ;
                }
                assert(digits_value(d@.take(i as int + 1)) > limit);
                if all_digits(d@) {
                    lemma_digits_value_prefix(d@, i as int + 1);
                }
            }
            return None;
        }
        assert(acc * 10 + dv <= limit) by (nonlinear_arith)
            requires
                acc <= (limit - dv) / 10,
                dv <= limit,
        ;
        acc = acc * 10 + dv;
        i = i + 1;
    }
    assert(d@.take(d@.len() as int) == d@);
    Some(acc)
}

/// Reads an unsigned decimal integer of at most `limit`.
fn parse_unsigned_upto(s: &[char], limit: u64) -> (r: Option<u64>)
    ensures
        r == (match parse_unsigned(s@) {
            Some(n) => if n <= limit {
                Some(n as u64)
            } else {
                None::<u64>
            },
            None => None::<u64>,
        }),
{
    if s.len() > 0 && s[0] == '+' {
        let d = sub_chars(s, 1, s.len());
        assert(d@ == s@.drop_first());
        parse_digits(d.as_slice(), limit)
    } else {
        parse_digits(s, limit)
    }
}

/// `s.parse::<u64>().ok()`.
pub fn parse_u64(s: &[char]) -> (r: Option<u64>)
    ensures
        r == spec_parse_u64(s@),
{
    parse_unsigned_upto(s, u64::MAX)
}

/// `s.parse::<u32>().ok()`.
pub fn parse_u32(s: &[char]) -> (r: Option<u32>)
    ensures
        r == spec_parse_u32(s@),
{
    match parse_unsigned_upto(s, u32::MAX as u64) {
        Some(n) => Some(n as u32),
        None => None,
    }
}

/// `s.parse::<u8>().ok()`.
pub fn parse_u8(s: &[char]) -> (r: Option<u8>)
    ensures
        r == spec_parse_u8(s@),
{
    match parse_unsigned_upto(s, u8::MAX as u64) {
        Some(n) => Some(n as u8),
        None => None,
    }
}

/// `s.parse::<i32>().ok()`.
pub fn parse_i32(s: &[char]) -> (r: Option<i32>)
    ensures
        r == spec_parse_i32(s@),
{
    if s.len() > 0 && s[0] == '-' {
        let d = sub_chars(s, 1, s.len());
        assert(d@ == s@.drop_first());
        match parse_digits(d.as_slice(), 0x8000_0000u64) {
            Some(n) => Some((0 - (n as i64)) as i32),
            None => None,
        }
    } else {
        match parse_unsigned_upto(s, i32::MAX as u64) {
            Some(n) => Some(n as i32),
            None => None,
        }
    }
}

// ---------------------------------------------------------------------------
// Formatting
// ---------------------------------------------------------------------------

pub open spec fn digit_char(d: nat) -> char {
    ('0' as int + d) as char
}

/// The decimal digits of `n`, without leading zeros (`to_string` of an unsigned integer).
pub open spec fn decimal(n: nat) -> Seq<char>
    decreases n,
{
    if n < 10 {
        seq![digit_char(n)]
    } else {
        decimal(n / 10).push(digit_char(n % 10))
    }
}

/// `to_string` of a signed integer.
pub open spec fn signed_decimal(v: int) -> Seq<char> {
    if v < 0 {
        seq!['-'] + decimal((-v) as nat)
    } else {
        decimal(v as nat)
    }
}

fn digit_to_char(d: u8) -> (c: char)
    requires
        d < 10,
    ensures
        c == digit_char(d as nat),
{
    match d {
        0 => '0',
        1 => '1',
        2 => '2',
        3 => '3',
        4 => '4',
        5 => '5',
        6 => '6',
        7 => '7',
        8 => '8',
        _ => '9',
    }
}

/// Appends the decimal digits of `n` to `out`.
pub fn push_decimal(out: &mut Vec<char>, n: u128)
    ensures
        final(out)@ == old(out)@ + decimal(n as nat),
    decreases n,
{
    if n >= 10 {
        push_decimal(out, n / 10);
    }
    let ghost mid = out@;
    out.push(digit_to_char((n % 10) as u8));
    proof {
        if n >= 10 {
            assert(out@ =~= old(out)@ + decimal(n as nat));
        } else {
            assert(out@ =~= old(out)@ + decimal(n as nat));
        }
    }
}

/// The decimal text of an unsigned integer.
pub fn format_unsigned(n: u128) -> (s: String)
    ensures
        s@ == decimal(n as nat),
{
    let mut v: Vec<char> = Vec::new();
    push_decimal(&mut v, n);
    assert(v@ =~= decimal(n as nat));
    string_from(v.as_slice())
}

/// The decimal text of a signed integer.
pub fn format_signed(n: i64) -> (s: String)
    ensures
        s@ == signed_decimal(n as int),
{
    let mut v: Vec<char> = Vec::new();
    if n < 0 {
        v.push('-');
        let m: u128 = (0 - (n as i128)) as u128;
        push_decimal(&mut v, m);
    } else {
        push_decimal(&mut v, n as u128);
    }
    assert(v@ =~= signed_decimal(n as int));
    string_from(v.as_slice())
}

// ---------------------------------------------------------------------------
// Laws of the decimal text
// ---------------------------------------------------------------------------

pub proof fn lemma_decimal_digits(n: nat)
    ensures
        decimal(n).len() > 0,
        all_digits(decimal(n)),
        digits_value(decimal(n)) == n,
    decreases n,
{
    if n >= 10 {
        lemma_decimal_digits(n / 10);
        let d = decimal(n);
        assert(d.drop_last() == decimal(n / 10));
        assert forall|i: int| 0 <= i < d.len() implies is_digit(#[trigger] d[i]) by {
            if i < d.len() - 1 {
                assert(d[i] == decimal(n / 10)[i]);
            }
        }
    } else {
        assert(digits_value(decimal(n).drop_last()) == 0) by {
            assert(decimal(n).drop_last() =~= Seq::<char>::empty());
        }
    }
}

/// Reading back the decimal text of a number gives the number.
pub proof fn lemma_parse_decimal(n: nat)
    ensures
        parse_unsigned(decimal(n)) == Some(n),
        parse_signed(decimal(n)) == Some(n as int),
{
    lemma_decimal_digits(n);
    assert(is_digit(decimal(n)[0]));
}

/// Reading back the text of a signed integer gives the integer.
pub proof fn lemma_parse_signed_decimal(v: int)
    ensures
        parse_signed(signed_decimal(v)) == Some(v),
{
    if v < 0 {
        let m = (-v) as nat;
        lemma_decimal_digits(m);
        assert((seq!['-'] + decimal(m)).drop_first() =~= decimal(m));
    } else {
        lemma_parse_decimal(v as nat);
    }
}

// ---------------------------------------------------------------------------
// Floating-point literals
// ---------------------------------------------------------------------------

/// The number of ASCII digits at the front of `s`.
pub open spec fn leading_digits(s: Seq<char>) -> nat
    decreases s.len(),
{
    if s.len() > 0 && is_digit(s[0]) {
        1 + leading_digits(s.drop_first())
    } else {
        0
    }
}

/// `e` or `E`, an optional sign, then one or more digits.
pub open spec fn is_exponent(t: Seq<char>) -> bool {
    t.len() > 0 && (t[0] == 'e' || t[0] == 'E') && {
        let u = t.drop_first();
        let w = if u.len() > 0 && (u[0] == '+' || u[0] == '-') {
            u.drop_first()
        } else {
            u
        };
        w.len() > 0 && all_digits(w)
    }
}

/// `Number ::= (Digit+ | Digit+ '.' Digit* | Digit* '.' Digit+) Exp?`
pub open spec fn is_decimal_number(b: Seq<char>) -> bool {
    let k1 = leading_digits(b);
    let r1 = b.skip(k1 as int);
    if r1.len() > 0 && r1[0] == '.' {
        let r2 = r1.drop_first();
        let k2 = leading_digits(r2);
        k1 + k2 > 0 && (k2 == r2.len() || is_exponent(r2.skip(k2 as int)))
    } else {
        k1 > 0 && (k1 == b.len() || is_exponent(r1))
    }
}

/// The text that `f32::from_str` accepts, per its documented grammar:
/// `Sign? ('inf' | 'infinity' | 'nan' | Number)`, the words in any ASCII case.
pub open spec fn is_float_literal(s: Seq<char>) -> bool {
    let b = if s.len() > 0 && (s[0] == '+' || s[0] == '-') {
        s.drop_first()
    } else {
        s
    };
    ||| eq_ignore_ascii_case(b, "inf"@)
    ||| eq_ignore_ascii_case(b, "infinity"@)
    ||| eq_ignore_ascii_case(b, "nan"@)
    ||| is_decimal_number(b)
}

proof fn lemma_leading_digits(s: Seq<char>, k: int)
    requires
        0 <= k <= s.len(),
        forall|j: int| 0 <= j < k ==> is_digit(#[trigger] s[j]),
        k == s.len() || !is_digit(s[k]),
    ensures
        leading_digits(s) == k,
    decreases k,
{
    if k > 0 {
        assert forall|j: int| 0 <= j < k - 1 implies is_digit(#[trigger] s.drop_first()[j]) by {
            assert(s.drop_first()[j] == s[j + 1]);
        }
        if k < s.len() {
            assert(s.drop_first()[k - 1] == s[k]);
        }
        lemma_leading_digits(s.drop_first(), k - 1);
    }
}

fn count_leading_digits(s: &[char]) -> (k: usize)
    ensures
        k == leading_digits(s@),
        k <= s@.len(),
{
    let mut k: usize = 0;
    while k < s.len() && '0' <= s[k] && s[k] <= '9'
        invariant
            k <= s@.len(),
            forall|j: int| 0 <= j < k ==> is_digit(#[trigger] s@[j]),
        decreases s@.len() - k,
    {
        k = k + 1;
    }
    proof {
        lemma_leading_digits(s@, k as int);
    }
    k
}

fn all_digits_exec(s: &[char]) -> (r: bool)
    ensures
        r == all_digits(s@),
{
    let mut i: usize = 0;
    while i < s.len()
        invariant
            i <= s@.len(),
            forall|j: int| 0 <= j < i ==> is_digit(#[trigger] s@[j]),
        decreases s@.len() - i,
    {
        if !('0' <= s[i] && s[i] <= '9') {
            return false;
        }
        i = i + 1;
    }
    true
}

fn is_exponent_exec(t: &[char]) -> (r: bool)
    ensures
        r == is_exponent(t@),
{
    if t.len() == 0 || !(t[0] == 'e' || t[0] == 'E') {
        return false;
    }
    let u = sub_chars(t, 1, t.len());
    assert(u@ == t@.drop_first());
    let w = if u.len() > 0 && (u[0] == '+' || u[0] == '-') {
        let w = sub_chars(u.as_slice(), 1, u.len());
        assert(w@ == u@.drop_first());
        w
    } else {
        u
    };
    w.len() > 0 && all_digits_exec(w.as_slice())
}

fn is_decimal_number_exec(b: &[char]) -> (r: bool)
    ensures
        r == is_decimal_number(b@),
{
    let k1 = count_leading_digits(b);
    let r1 = sub_chars(b, k1, b.len());
    assert(r1@ == b@.skip(k1 as int));
    if r1.len() > 0 && r1[0] == '.' {
        let r2 = sub_chars(r1.as_slice(), 1, r1.len());
        assert(r2@ == r1@.drop_first());
        let k2 = count_leading_digits(r2.as_slice());
        if k1 + k2 == 0 {
            return false;
        }
        if k2 == r2.len() {
            return true;
        }
        let r3 = sub_chars(r2.as_slice(), k2, r2.len());
        assert(r3@ == r2@.skip(k2 as int));
        is_exponent_exec(r3.as_slice())
    } else {
        k1 > 0 && (k1 == b.len() || is_exponent_exec(r1.as_slice()))
    }
}

fn eq_ignore_case_exec(a: &[char], w: &str) -> (r: bool)
    ensures
        r == eq_ignore_ascii_case(a@, w@),
{
    let wv = to_chars(w);
    if a.len() != wv.len() {
        return false;
    }
    let mut i: usize = 0;
    while i < a.len()
        invariant
            i <= a@.len(),
            a@.len() == wv@.len(),
            wv@ == w@,
            forall|j: int| 0 <= j < i ==> ascii_lower(a@[j]) == ascii_lower(wv@[j]),
        decreases a@.len() - i,
    {
        if to_ascii_lower(a[i]) != to_ascii_lower(wv[i]) {
            return false;
        }
        i = i + 1;
    }
    true
}

/// Whether `f32::from_str` accepts `s`.
pub fn is_float_literal_exec(s: &[char]) -> (r: bool)
    ensures
        r == is_float_literal(s@),
{
    let b = if s.len() > 0 && (s[0] == '+' || s[0] == '-') {
        let b = sub_chars(s, 1, s.len());
        assert(b@ == s@.drop_first());
        b
    } else {
        sub_chars(s, 0, s.len())
    };
    assert(b@ == (if s@.len() > 0 && (s@[0] == '+' || s@[0] == '-') {
        s@.drop_first()
    } else {
        s@
    }));
    eq_ignore_case_exec(b.as_slice(), "inf") || eq_ignore_case_exec(b.as_slice(), "infinity")
        || eq_ignore_case_exec(b.as_slice(), "nan") || is_decimal_number_exec(b.as_slice())
}

} // verus!
