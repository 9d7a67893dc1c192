//! Decimal and hexadecimal rendering of integers, and integer parsing with the
//! grammar of Rust's `FromStr` for integers: an optional sign followed by one
//! or more ASCII digits whose value fits the target type.
use vstd::prelude::*;

verus! {

/// The ASCII digit for `d < 10`.
pub open spec fn digit_char(d: nat) -> char {
    ((('0' as u32) as nat) + d) as char
}

/// The lower-case hexadecimal digit for `d < 16`.
pub open spec fn hex_char(d: nat) -> char {
    if d < 10 {
        digit_char(d)
    } else {
        ((('a' as u32) as nat) + (d - 10)) as char
    }
}

/// Decimal rendering without leading zeros (`Display` for unsigned integers).
pub open spec fn dec(n: nat) -> Seq<char>
    decreases n,
{
    if n < 10 {
        seq![digit_char(n)]
    } else {
        dec(n / 10).push(digit_char(n % 10))
    }
}

/// Decimal rendering of a signed integer (`Display` for signed integers).
pub open spec fn dec_signed(n: int) -> Seq<char> {
    if n < 0 {
        seq!['-'] + dec((-n) as nat)
    } else {
        dec(n as nat)
    }
}

/// Minimal lower-case hexadecimal rendering (`{:x}`).
pub open spec fn hex(n: nat) -> Seq<char>
    decreases n,
{
    if n < 16 {
        seq![hex_char(n)]
    } else {
        hex(n / 16).push(hex_char(n % 16))
    }
}

/// Lower-case hexadecimal rendering of the low `width` digits, zero padded
/// (`{:0width$x}` when the value fits in `width` digits).
pub open spec fn hex_fixed(n: nat, width: nat) -> Seq<char>
    decreases width,
{
    if width == 0 {
        Seq::empty()
    } else {
        hex_fixed(n / 16, (width - 1) as nat).push(hex_char(n % 16))
    }
}

fn digit_exec(d: u64) -> (c: char)
    requires
        d < 10,
    ensures
        c == digit_char(d as nat),
{
    let b: u8 = 48u8 + (d as u8);
    b as char
}

fn hex_exec(d: u64) -> (c: char)
    requires
        d < 16,
    ensures
        c == hex_char(d as nat),
{
    if d < 10 {
        digit_exec(d)
    } else {
        let b: u8 = 97u8 + ((d - 10) as u8);
        b as char
    }
}

/// Append the decimal digits of `n` to `out`.
pub fn push_dec(out: &mut Vec<char>, n: u64)
    ensures
        final(out)@ == old(out)@ + dec(n as nat),
    decreases n,
{
    if n >= 10 {
        push_dec(out, n / 10);
    }
    let c = digit_exec(n % 10);
    out.push(c);
    proof {
        if n >= 10 {
            assert(dec(n as nat) == dec((n / 10) as nat).push(digit_char((n % 10) as nat)));
        }
    }
    assert(final(out)@ =~= old(out)@ + dec(n as nat));
}

/// Append the decimal rendering of a signed `n` to `out`.
pub fn push_dec_signed(out: &mut Vec<char>, n: i64)
    ensures
        final(out)@ == old(out)@ + dec_signed(n as int),
{
    if n < 0 {
        out.push('-');
        let m: u64 = (0i128 - (n as i128)) as u64;
        push_dec(out, m);
        assert(final(out)@ =~= old(out)@ + dec_signed(n as int));
    } else {
        push_dec(out, n as u64);
    }
}

/// Append the minimal hexadecimal digits of `n` to `out`.
pub fn push_hex(out: &mut Vec<char>, n: u64)
    ensures
        final(out)@ == old(out)@ + hex(n as nat),
    decreases n,
{
    if n >= 16 {
        push_hex(out, n / 16);
    }
    let c = hex_exec(n % 16);
    out.push(c);
    assert(final(out)@ =~= old(out)@ + hex(n as nat));
}

/// Append the `width` low hexadecimal digits of `n`, zero padded.
pub fn push_hex_fixed(out: &mut Vec<char>, n: u64, width: u64)
    ensures
        final(out)@ == old(out)@ + hex_fixed(n as nat, width as nat),
    decreases width,
{
    if width == 0 {
        assert(final(out)@ =~= old(out)@ + hex_fixed(n as nat, width as nat));
        return ;
    }
    push_hex_fixed(out, n / 16, width - 1);
    let c = hex_exec(n % 16);
    out.push(c);
    assert(final(out)@ =~= old(out)@ + hex_fixed(n as nat, width as nat));
}

/// `n.to_string()` for unsigned integers.
pub fn u64_to_string(n: u64) -> (s: String)
    ensures
        s@ == dec(n as nat),
{
    let mut v: Vec<char> = Vec::new();
    push_dec(&mut v, n);
    assert(v@ =~= dec(n as nat));
    crate::text::string_from_chars(v.as_slice())
}

pub open spec fn is_digit(c: char) -> bool {
    '0' <= c && c <= '9'
}

pub open spec fn digit_value(c: char) -> nat {
    ((c as u32) - ('0' as u32)) as nat
}

/// The value of a string of decimal digits (0 for the empty string).
pub open spec fn digits_value(s: Seq<char>) -> nat
    decreases s.len(),
{
    if s.len() == 0 {
        0
    } else {
        digits_value(s.drop_last()) * 10 + digit_value(s.last())
    }
}

pub open spec fn all_digits(s: Seq<char>) -> bool {
    forall|i: int| 0 <= i < s.len() ==> is_digit(#[trigger] s[i])
}

/// `s` with one leading `+` removed, if present.
pub open spec fn unsigned_body(s: Seq<char>) -> Seq<char> {
    if s.len() > 0 && s[0] == '+' {
        s.drop_first()
    } else {
        s
    }
}

/// What `str::parse` gives for an unsigned integer type whose largest value is
/// `max`: `Some(value)` exactly when the text is an optional `+` and one or more
/// ASCII digits of value at most `max`.
pub open spec fn parse_unsigned(s: Seq<char>, max: nat) -> Option<nat> {
    let body = unsigned_body(s);
    if body.len() > 0 && all_digits(body) && digits_value(body) <= max {
        Some(digits_value(body))
    } else {
        None
    }
}

/// What `str::parse` gives for a signed integer type with range `[min, max]`:
/// an optional `+` or `-`, one or more ASCII digits, value within the range.
pub open spec fn parse_signed(s: Seq<char>, min: int, max: int) -> Option<int> {
    if s.len() > 0 && s[0] == '-' {
        let body = s.drop_first();
        if body.len() > 0 && all_digits(body) && -(digits_value(body) as int) >= min {
            Some(-(digits_value(body) as int))
        } else {
            None
        }
    } else {
        let body = unsigned_body(s);
        if body.len() > 0 && all_digits(body) && digits_value(body) <= max {
            Some(digits_value(body) as int)
        } else {
            None
        }
    }
}

proof fn lemma_digits_take(s: Seq<char>, i: int)
    requires
        0 <= i < s.len(),
    ensures
        digits_value(s.take(i + 1)) == digits_value(s.take(i)) * 10 + digit_value(s[i]),
{
    assert(s.take(i + 1).drop_last() =~= s.take(i));
}

proof fn lemma_digits_grow(s: Seq<char>, i: int)
    requires
        0 <= i <= s.len(),
    ensures
        digits_value(s.take(i)) <= digits_value(s),
    decreases s.len() - i,
{
    if i < s.len() {
        lemma_digits_take(s, i);
        lemma_digits_grow(s, i + 1);
    } else {
        assert(s.take(i) =~= s);
    }
}

/// The value of the all-digit text `s` if it is at most `max`.
fn digits_at_most(s: &[char], max: u64) -> (r: Option<u64>)
    ensures
        r == (if all_digits(s@) && digits_value(s@) <= max as nat {
            Some(digits_value(s@) as u64)
        } else {
            None
        }),
        r is Some ==> r->0 as nat == digits_value(s@),
{
    let mut acc: u64 = 0;
    let mut i: usize = 0;
    while i < s.len()
        invariant
            i <= s@.len(),
            all_digits(s@.take(i as int)),
            acc as nat == digits_value(s@.take(i as int)),
            acc <= max,
        decreases s@.len() - i,
    {
        let c = s[i];
        if !('0' <= c && c <= '9') {
            assert(!is_digit(s@[i as int]));
            return None;
        }
        let d: u64 = (c as u32 - 48) as u64;
        proof {
            lemma_digits_take(s@, i as int);
        }
        if d > max || acc > (max - d) / 10 {
            proof {
                if d <= max {
                    assert(acc * 10 + d > max) by (nonlinear_arith)
                        requires
                            acc > (max - d) / 10,
                            d <= max,
                    ;
                }
                lemma_digits_grow(s@, i as int + 1);
            }
            return None;
        }
        proof {
            assert(acc * 10 + d <= max) by (nonlinear_arith)
                requires
                    acc <= (max - d) / 10,
                    d <= max,
            ;
        }
        acc = acc * 10 + d;
        assert(all_digits(s@.take(i as int + 1)));
        i = i + 1;
    }
    assert(s@.take(s@.len() as int) =~= s@);
    Some(acc)
}

/// `str::parse::<u64>`-style parsing with an upper bound `max` (the type's
/// largest value).
pub fn parse_unsigned_chars(s: &[char], max: u64) -> (r: Option<u64>)
    ensures
        r == (match parse_unsigned(s@, max as nat) {
            Some(v) => Some(v as u64),
            None => None,
        }),
{
    let body = if s.len() > 0 && s[0] == '+' {
        crate::text::slice_range(s, 1, s.len())
    } else {
        crate::text::slice_range(s, 0, s.len())
    };
    assert(body@ =~= unsigned_body(s@));
    if body.len() == 0 {
        return None;
    }
    digits_at_most(body.as_slice(), max)
}

/// `s.parse::<u32>().ok()`.
pub fn parse_u32(s: &str) -> (r: Option<u32>)
    ensures
        r == (match parse_unsigned(s@, u32::MAX as nat) {
            Some(v) => Some(v as u32),
            None => None,
        }),
{
    let v = crate::text::chars_of(s);
    match parse_unsigned_chars(v.as_slice(), 0xFFFF_FFFF) {
        Some(x) => Some(x as u32),
        None => None,
    }
}

/// `s.parse::<u64>().ok()`.
pub fn parse_u64(s: &str) -> (r: Option<u64>)
    ensures
        r == (match parse_unsigned(s@, u64::MAX as nat) {
            Some(v) => Some(v as u64),
            None => None,
        }),
{
    let v = crate::text::chars_of(s);
    parse_unsigned_chars(v.as_slice(), 0xFFFF_FFFF_FFFF_FFFF)
}

/// `s.parse::<usize>().ok()`.
pub fn parse_usize(s: &str) -> (r: Option<usize>)
    ensures
        r == (match parse_unsigned(s@, usize::MAX as nat) {
            Some(v) => Some(v as usize),
            None => None,
        }),
{
    let v = crate::text::chars_of(s);
    let max: u64 = usize::MAX as u64;
    match parse_unsigned_chars(v.as_slice(), max) {
        Some(x) => Some(x as usize),
        None => None,
    }
}

/// `s.parse::<i64>().ok()`.
pub fn parse_i64(s: &str) -> (r: Option<i64>)
    ensures
        r == (match parse_signed(s@, i64::MIN as int, i64::MAX as int) {
            Some(v) => Some(v as i64),
            None => None,
        }),
{
    let v = crate::text::chars_of(s);
    if v.len() > 0 && v[0] == '-' {
        let body = crate::text::slice_range(v.as_slice(), 1, v.len());
        assert(body@ =~= s@.drop_first());
        if body.len() == 0 {
            return None;
        }
        match digits_at_most(body.as_slice(), 0x8000_0000_0000_0000) {
            Some(x) => {
                let r: i128 = 0i128 - (x as i128);
                Some(r as i64)
            },
            None => None,
        }
    } else {
        match parse_unsigned_chars(v.as_slice(), 0x7FFF_FFFF_FFFF_FFFF) {
            Some(x) => Some(x as i64),
            None => None,
        }
    }
}

proof fn lemma_digit_char(d: nat)
    requires
        d < 10,
    ensures
        is_digit(digit_char(d)),
        digit_value(digit_char(d)) == d,
{
    let x: int = ('0' as u32) as int + d;
    assert(x == 48 + d);
    assert((x as char) as u32 == x);
}

/// The decimal rendering of `n` is a non-empty run of digits whose value is `n`.
pub proof fn lemma_dec_digits(n: nat)
    ensures
        dec(n).len() > 0,
        all_digits(dec(n)),
        digits_value(dec(n)) == n,
    decreases n,
{
    if n < 10 {
        assert(dec(n) == seq![digit_char(n)]);
        assert(dec(n).drop_last() =~= Seq::<char>::empty());
        lemma_digit_char(n);
        assert(dec(n).last() == digit_char(n));
        assert(digits_value(dec(n)) == digits_value(dec(n).drop_last()) * 10 + digit_value(dec(n).last()));
        assert(digits_value(Seq::<char>::empty()) == 0);
    } else {
        lemma_digit_char(n % 10);
        lemma_dec_digits(n / 10);
        let prev = dec(n / 10);
        assert(dec(n) == prev.push(digit_char(n % 10)));
        assert(dec(n).drop_last() =~= prev);
        assert(all_digits(dec(n))) by {
            assert forall|i: int| 0 <= i < dec(n).len() implies is_digit(#[trigger] dec(n)[i]) by {
                if i < prev.len() {
                    assert(dec(n)[i] == prev[i]);
                }
            }
        }
        assert((n / 10) * 10 + n % 10 == n) by (nonlinear_arith);
        assert(dec(n).last() == digit_char(n % 10));
        assert(digits_value(dec(n)) == digits_value(prev) * 10 + digit_value(digit_char(n % 10)));
    }
}

/// Rendering an unsigned number in decimal and parsing it back gives the number.
pub proof fn lemma_parse_unsigned_dec(n: nat, max: nat)
    requires
        n <= max,
    ensures
        parse_unsigned(dec(n), max) == Some(n),
{
    lemma_dec_digits(n);
    assert(is_digit(dec(n)[0]));
    assert(unsigned_body(dec(n)) == dec(n));
}

/// Rendering a signed number in decimal and parsing it back gives the number.
pub proof fn lemma_parse_signed_dec(n: int, min: int, max: int)
    requires
        min <= n <= max,
        min <= 0,
    ensures
        parse_signed(dec_signed(n), min, max) == Some(n),
{
    if n < 0 {
        let m = (-n) as nat;
        lemma_dec_digits(m);
        assert((seq!['-'] + dec(m)).drop_first() =~= dec(m));
        assert((seq!['-'] + dec(m))[0] == '-');
    } else {
        lemma_dec_digits(n as nat);
        assert(is_digit(dec(n as nat)[0]));
    }
}

/// A decimal rendering holds no character other than digits.
pub proof fn lemma_dec_signed_chars(n: int)
    ensures
        forall|i: int| 0 <= i < dec_signed(n).len() ==> is_digit(#[trigger] dec_signed(n)[i]) || dec_signed(n)[i] == '-',
{
    if n < 0 {
        lemma_dec_digits((-n) as nat);
        assert forall|i: int| 0 <= i < dec_signed(n).len() implies is_digit(#[trigger] dec_signed(n)[i]) || dec_signed(n)[i] == '-' by {
            if i > 0 {
                assert(dec_signed(n)[i] == dec((-n) as nat)[i - 1]);
            }
        }
    } else {
        lemma_dec_digits(n as nat);
    }
}

/// A fixed-width hexadecimal rendering has exactly `width` digits.
pub proof fn lemma_hex_fixed_len(n: nat, width: nat)
    ensures
        hex_fixed(n, width).len() == width,
    decreases width,
{
    if width > 0 {
        lemma_hex_fixed_len(n / 16, (width - 1) as nat);
    }
}

} // verus!
