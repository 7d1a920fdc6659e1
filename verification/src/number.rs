//! Decimal integers: reading them as `str::parse` does for `i32`, `u16` and
//! `i64`, and writing them as `Display` does.

use vstd::prelude::*;

verus! {

/// An ASCII decimal digit.
pub open spec fn is_digit(c: char) -> bool {
    '0' <= c && c <= '9'
}

/// The value of an ASCII decimal digit.
pub open spec fn digit_value(c: char) -> int {
    c as int - '0' as int
}

/// Whether every character of `s` is an ASCII decimal digit.
pub open spec fn all_digits(s: Seq<char>) -> bool {
    forall|i: int| 0 <= i < s.len() ==> #[trigger] is_digit(s[i])
}

/// The value of a run of decimal digits, most significant first.
pub open spec fn digits_value(s: Seq<char>) -> int
    decreases s.len(),
{
    if s.len() == 0 {
        0
    } else {
        10 * digits_value(s.drop_last()) + digit_value(s.last())
    }
}

/// The value that `str::parse` reads from `s` before its range check: an
/// optional `+` (or `-` for a signed type) and then at least one digit, and
/// nothing else.
pub open spec fn decimal_value(s: Seq<char>, signed: bool) -> Option<int> {
    if s.len() == 0 {
        None
    } else if s[0] == '+' || (signed && s[0] == '-') {
        let d = s.drop_first();
        if d.len() > 0 && all_digits(d) {
            Some(
                if s[0] == '-' {
                    -digits_value(d)
                } else {
                    digits_value(d)
                },
            )
        } else {
            None
        }
    } else if all_digits(s) {
        Some(digits_value(s))
    } else {
        None
    }
}

/// What `s.parse::<i32>()` gives back, `None` standing for its error.
pub open spec fn parsed_i32(s: Seq<char>) -> Option<i32> {
    match decimal_value(s, true) {
        Some(v) => if i32::MIN <= v && v <= i32::MAX {
            Some(v as i32)
        } else {
            None
        },
        None => None,
    }
}

/// What `s.parse::<u16>()` gives back, `None` standing for its error.
pub open spec fn parsed_u16(s: Seq<char>) -> Option<u16> {
    match decimal_value(s, false) {
        Some(v) => if 0 <= v && v <= u16::MAX {
            Some(v as u16)
        } else {
            None
        },
        None => None,
    }
}

/// What `s.parse::<i64>()` gives back, `None` standing for its error.
pub open spec fn parsed_i64(s: Seq<char>) -> Option<i64> {
    match decimal_value(s, true) {
        Some(v) => if i64::MIN <= v && v <= i64::MAX {
            Some(v as i64)
        } else {
            None
        },
        None => None,
    }
}

/// The character of a decimal digit `0 <= d < 10`.
pub open spec fn digit_char(d: int) -> char {
    (d + '0' as int) as char
}

/// The decimal digits of `n`, without leading zeros.
pub open spec fn nat_decimal(n: nat) -> Seq<char>
    decreases n,
{
    if n < 10 {
        seq![digit_char(n as int)]
    } else {
        nat_decimal(n / 10).push(digit_char((n % 10) as int))
    }
}

/// How `Display` writes the integer `v`: a `-` for a negative number, then
/// its digits without leading zeros.
pub open spec fn int_decimal(v: int) -> Seq<char> {
    if v < 0 {
        seq!['-'] + nat_decimal((-v) as nat)
    } else {
        nat_decimal(v as nat)
    }
}

/// A run of digits is worth at least as much as any of its prefixes, and
/// never less than zero.
pub proof fn lemma_digits_value_grows(s: Seq<char>, i: int)
    requires
        0 <= i <= s.len(),
        all_digits(s),
    ensures
        0 <= digits_value(s.take(i)) <= digits_value(s),
    decreases s.len(),
{
    if s.len() > 0 {
        if i == s.len() {
            assert(s.take(i) =~= s);
            lemma_digits_value_grows(s.drop_last(), i - 1);
            assert(s.drop_last().take(i - 1) =~= s.drop_last().take(s.drop_last().len() as int));
            assert(s.drop_last().take(s.drop_last().len() as int) =~= s.drop_last());
        } else {
            lemma_digits_value_grows(s.drop_last(), i);
            assert(s.drop_last().take(i) =~= s.take(i));
        }
        assert(is_digit(s[s.len() - 1]));
    } else {
        assert(s.take(i) =~= s);
    }
}

/// The decimal digits of `n` are a non-empty run of digits worth `n`.
pub proof fn lemma_nat_decimal_digits(n: nat)
    ensures
        nat_decimal(n).len() > 0,
        all_digits(nat_decimal(n)),
        digits_value(nat_decimal(n)) == n,
    decreases n,
{
    if n >= 10 {
        lemma_nat_decimal_digits(n / 10);
        let s = nat_decimal(n);
        assert(s.drop_last() =~= nat_decimal(n / 10));
        assert(digit_value(digit_char((n % 10) as int)) == n % 10);
        assert(10 * (n / 10) + n % 10 == n);
        assert(s.last() == digit_char((n % 10) as int));
        assert(digits_value(s) == 10 * digits_value(s.drop_last()) + digit_value(s.last()));
        assert forall|i: int| 0 <= i < s.len() implies #[trigger] is_digit(s[i]) by {
            if i < s.len() - 1 {
                assert(s[i] == nat_decimal(n / 10)[i]);
            }
        }
    } else {
        assert(digit_value(digit_char(n as int)) == n);
        let s = nat_decimal(n);
        assert(s.drop_last() =~= Seq::<char>::empty());
        assert(digits_value(s) == 10 * digits_value(s.drop_last()) + digit_value(s.last()));
    }
}

/// Reading back the decimal form of any integer, with a sign allowed, gives
/// the integer.
pub proof fn lemma_int_decimal_roundtrip(v: int)
    ensures
        decimal_value(int_decimal(v), true) == Some(v),
{
    let s = int_decimal(v);
    if v < 0 {
        let m = (-v) as nat;
        lemma_nat_decimal_digits(m);
        assert(s.drop_first() =~= nat_decimal(m));
    } else {
        lemma_nat_decimal_digits(v as nat);
        assert(is_digit(s[0]));
    }
}

/// Writing an `i32` in decimal and reading it back with `parse::<i32>` gives
/// the same number.
pub proof fn lemma_i32_decimal_roundtrip(v: i32)
    ensures
        parsed_i32(int_decimal(v as int)) == Some(v),
{
    lemma_int_decimal_roundtrip(v as int);
}

/// Writing an `i64` in decimal and reading it back with `parse::<i64>` gives
/// the same number.
pub proof fn lemma_i64_decimal_roundtrip(v: i64)
    ensures
        parsed_i64(int_decimal(v as int)) == Some(v),
{
    lemma_int_decimal_roundtrip(v as int);
}

/// Writing a `u16` in decimal and reading it back with `parse::<u16>` gives
/// the same number.
pub proof fn lemma_u16_decimal_roundtrip(v: u16)
    ensures
        parsed_u16(nat_decimal(v as nat)) == Some(v),
{
    lemma_nat_decimal_digits(v as nat);
    assert(is_digit(nat_decimal(v as nat)[0]));
}

/// Reads the decimal integer of `s` as `str::parse` does, and gives it back
/// when it lies between `lo` and `hi`.
fn decimal_in_range(s: &Vec<char>, signed: bool, lo: i64, hi: i64) -> (r: Option<i64>)
    requires
        -0x100_0000_0000 <= lo <= 0 <= hi <= 0x100_0000_0000,
    ensures
        r == (match decimal_value(s@, signed) {
            Some(v) => if lo <= v && v <= hi {
                Some(v as i64)
            } else {
                None
            },
            None => None,
        }),
{
    let cap: i64 = 0x200_0000_0000;
    if s.len() == 0 {
        return None;
    }
    let mut start: usize = 0;
    let mut neg = false;
    if s[0] == '+' || (signed && s[0] == '-') {
        start = 1;
        neg = s[0] == '-';
        if s.len() == 1 {
            return None;
        }
    }
    let ghost d = s@.subrange(start as int, s@.len() as int);
    let mut acc: i64 = 0;
    let mut big = false;
    let mut i: usize = start;
    while i < s.len()
        invariant
            start <= i <= s.len(),
            start < s.len(),
            start == 0 || start == 1,
            (start == 1) == (s@[0] == '+' || (signed && s@[0] == '-')),
            neg == (start == 1 && s@[0] == '-'),
            d == s@.subrange(start as int, s@.len() as int),
            forall|k: int| start <= k < i ==> #[trigger] is_digit(s@[k]),
            !big ==> acc == digits_value(s@.subrange(start as int, i as int)) && 0 <= acc <= cap,
            big ==> digits_value(s@.subrange(start as int, i as int)) > cap,
            cap == 0x200_0000_0000,
        decreases s.len() - i,
    {
        let c = s[i];
        if !('0' <= c && c <= '9') {
            assert(!all_digits(d)) by {
                assert(d[i - start] == c);
                assert(!is_digit(d[i - start]));
            }
            if start == 1 {
                assert(d =~= s@.drop_first());
            } else {
                assert(d =~= s@);
            }
            assert(decimal_value(s@, signed).is_none());
            return None;
        }
        let ghost before = s@.subrange(start as int, i as int);
        let ghost after = s@.subrange(start as int, i + 1);
        assert(after.drop_last() =~= before);
        assert(after.last() == c);
        proof {
            assert(all_digits(before));
            assert(all_digits(after));
            lemma_digits_value_grows(after, after.len() - 1);
            assert(after.take(after.len() - 1) =~= before);
        }
        if !big {
            let dv = (c as u32 - '0' as u32) as i64;
            let next = acc * 10 + dv;
            if next > cap {
                big = true;
            } else {
                acc = next;
            }
        }
        i += 1;
    }
    assert(s@.subrange(start as int, s.len() as int) =~= d);
    assert(all_digits(d));
    if start == 1 {
        assert(d =~= s@.drop_first());
    } else {
        assert(d =~= s@);
    }
    if big {
        return None;
    }
    let v = if neg {
        -acc
    } else {
        acc
    };
    if lo <= v && v <= hi {
        Some(v)
    } else {
        None
    }
}

/// Reads `s` as `s.parse::<i32>()` does.
pub fn parse_i32(s: &Vec<char>) -> (r: Option<i32>)
    ensures
        r == parsed_i32(s@),
{
    match decimal_in_range(s, true, i32::MIN as i64, i32::MAX as i64) {
        Some(v) => Some(v as i32),
        None => None,
    }
}

/// Reads `s` as `s.parse::<u16>()` does.
pub fn parse_u16(s: &Vec<char>) -> (r: Option<u16>)
    ensures
        r == parsed_u16(s@),
{
    match decimal_in_range(s, false, 0, u16::MAX as i64) {
        Some(v) => Some(v as u16),
        None => None,
    }
}

/// Appends the decimal digits of `n` to `out`.
pub fn push_nat_decimal(out: &mut String, n: u64)
    ensures
        final(out)@ == old(out)@ + nat_decimal(n as nat),
    decreases n,
{
    if n >= 10 {
        push_nat_decimal(out, n / 10);
    }
    let d = (n % 10) as u8;
    let c = (d + 48u8) as char;
    assert(c == digit_char((n % 10) as int));
    out.push(c);
    if n >= 10 {
        assert(out@ =~= old(out)@ + nat_decimal(n as nat));
    } else {
        assert(out@ =~= old(out)@ + nat_decimal(n as nat));
    }
}

/// Appends `v` written as `Display` writes it.
pub fn push_int_decimal(out: &mut String, v: i64)
    ensures
        final(out)@ == old(out)@ + int_decimal(v as int),
{
    if v < 0 {
        out.push('-');
        let m: u64 = if v == i64::MIN {
            0x8000_0000_0000_0000u64
        } else {
            (-v) as u64
        };
        push_nat_decimal(out, m);
        assert(out@ =~= old(out)@ + int_decimal(v as int));
    } else {
        push_nat_decimal(out, v as u64);
    }
}

/// `v` written in decimal, as `v.to_string()` gives it.
pub fn int_to_string(v: i64) -> (r: String)
    ensures
        r@ == int_decimal(v as int),
{
    let mut out = String::new();
    push_int_decimal(&mut out, v);
    assert(out@ =~= int_decimal(v as int));
    out
}

} // verus!
