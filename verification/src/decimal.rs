//! Unsigned decimal numbers: how a user ID is written into a path, and how
//! one is read from a password file.

use vstd::arithmetic::div_mod::lemma_div_denominator;
use vstd::arithmetic::power::{lemma_pow_positive, pow};
use vstd::prelude::*;

verus! {

/// The character for the digit `d`.
pub open spec fn digit(d: nat) -> char {
    (48 + d) as char
}

/// `n` in decimal, without leading zeros.
pub open spec fn decimal(n: nat) -> Seq<char>
    decreases n,
{
    if n < 10 {
        seq![digit(n)]
    } else {
        decimal(n / 10).push(digit(n % 10))
    }
}

/// Whether `b` is an ASCII digit.
pub open spec fn is_digit(b: u8) -> bool {
    48 <= b <= 57
}

/// Whether every byte of `s` is an ASCII digit.
pub open spec fn all_digits(s: Seq<u8>) -> bool {
    forall|i: int| 0 <= i < s.len() ==> is_digit(#[trigger] s[i])
}

/// The number that a string of digits spells in base ten.
pub open spec fn digits_value(s: Seq<u8>) -> nat
    decreases s.len(),
{
    if s.len() == 0 {
        0
    } else {
        (digits_value(s.drop_last()) * 10 + (s.last() - 48)) as nat
    }
}

/// `s` without the one plus sign that it may start with.
pub open spec fn without_plus(s: Seq<u8>) -> Seq<u8> {
    if s.len() > 0 && s[0] == 43 {
        s.drop_first()
    } else {
        s
    }
}

/// What `s` reads as: an optional plus sign, then one or more digits and
/// nothing else, for a number that fits in 32 bits.
pub open spec fn parsed(s: Seq<u8>) -> Option<u32> {
    let body = without_plus(s);
    if body.len() > 0 && all_digits(body) && digits_value(body) <= u32::MAX {
        Some(digits_value(body) as u32)
    } else {
        None
    }
}

/// The text of one digit.
fn digit_text(d: u64) -> (t: &'static str)
    requires
        d < 10,
    ensures
        t@ == seq![digit(d as nat)],
{
    proof {
        reveal_strlit("0");
        reveal_strlit("1");
        reveal_strlit("2");
        reveal_strlit("3");
        reveal_strlit("4");
        reveal_strlit("5");
        reveal_strlit("6");
        reveal_strlit("7");
        reveal_strlit("8");
        reveal_strlit("9");
    }
    match d {
        0 => "0",
        1 => "1",
        2 => "2",
        3 => "3",
        4 => "4",
        5 => "5",
        6 => "6",
        7 => "7",
        8 => "8",
        _ => "9",
    }
}

/// Appends `n` in decimal to `out`.
pub fn push_decimal(out: &mut String, n: u64)
    ensures
        final(out)@ == old(out)@ + decimal(n as nat),
    decreases n,
{
    if n >= 10 {
        push_decimal(out, n / 10);
    }
    out.append(digit_text(n % 10));
    assert(out@ =~= old(out)@ + decimal(n as nat));
}

/// `n` in decimal, with a minus sign in front where it is negative.
pub open spec fn signed_decimal(n: int) -> Seq<char> {
    if n < 0 {
        "-"@ + decimal((-n) as nat)
    } else {
        decimal(n as nat)
    }
}

/// Appends `n` in decimal to `out`, with a minus sign where it is negative.
pub fn push_signed_decimal(out: &mut String, n: i32)
    ensures
        final(out)@ == old(out)@ + signed_decimal(n as int),
{
    if n < 0 {
        out.append("-");
        push_decimal(out, (-(n as i64)) as u64);
    } else {
        push_decimal(out, n as u64);
    }
    assert(out@ =~= old(out)@ + signed_decimal(n as int));
}

/// Longer digit strings spell numbers that are at least as large.
proof fn lemma_digits_value_grows(s: Seq<u8>, k: int)
    requires
        0 <= k <= s.len(),
        all_digits(s),
    ensures
        digits_value(s.take(k)) <= digits_value(s),
    decreases s.len() - k,
{
    if k < s.len() {
        assert(s.take(k + 1).drop_last() =~= s.take(k));
        assert(is_digit(s[k]));
        assert(s.take(k + 1).last() == s[k]);
        lemma_digits_value_grows(s, k + 1);
    } else {
        assert(s.take(k) =~= s);
    }
}

/// Reads an unsigned number: an optional plus sign, then digits only.
pub fn parse_u32(s: &[u8]) -> (r: Option<u32>)
    ensures
        r == parsed(s@),
{
    let start: usize = if s.len() > 0 && s[0] == 43 {
        1
    } else {
        0
    };
    let ghost body = without_plus(s@);
    assert(body =~= s@.skip(start as int));
    if s.len() == start {
        return None;
    }
    let mut value: u32 = 0;
    let mut i: usize = start;
    assert(body.take(0) =~= Seq::<u8>::empty());
    while i < s.len()
        invariant
            start <= i <= s@.len(),
            start < s@.len(),
            body == without_plus(s@),
            body == s@.skip(start as int),
            forall|j: int| 0 <= j < i - start ==> is_digit(#[trigger] body[j]),
            value == digits_value(body.take(i - start)),
        decreases s@.len() - i,
    {
        let b: u8 = s[i];
        assert(body[i - start] == b);
        if b < 48 || b > 57 {
            return None;
        }
        assert(body.take(i + 1 - start).drop_last() =~= body.take(i - start));
        assert(body.take(i + 1 - start).last() == b);
        let wide: u64 = value as u64 * 10 + (b - 48) as u64;
        if wide > u32::MAX as u64 {
            proof {
                if all_digits(body) {
                    lemma_digits_value_grows(body, i + 1 - start);
                }
            }
            return None;
        }
        value = wide as u32;
        i = i + 1;
    }
    assert(body.take(i - start) =~= body);
    Some(value)
}

/// The bytes of a string of ASCII characters.
pub open spec fn ascii_bytes(s: Seq<char>) -> Seq<u8> {
    s.map_values(|c: char| c as u8)
}

/// The decimal text of a number is made of digits that spell the number.
pub proof fn lemma_decimal_digits(n: nat)
    ensures
        decimal(n).len() > 0,
        all_digits(ascii_bytes(decimal(n))),
        digits_value(ascii_bytes(decimal(n))) == n,
    decreases n,
{
    let b = ascii_bytes(decimal(n));
    if n < 10 {
        assert(b =~= seq![(48 + n) as u8]);
        assert(b.drop_last() =~= Seq::<u8>::empty());
        assert(digits_value(b.drop_last()) == 0);
    } else {
        lemma_decimal_digits(n / 10);
        let front = ascii_bytes(decimal(n / 10));
        assert(b.drop_last() =~= front);
        assert(b.last() == 48 + n % 10);
        assert forall|i: int| 0 <= i < b.len() implies is_digit(#[trigger] b[i]) by {
            if i < b.len() - 1 {
                assert(b[i] == front[i]);
            }
        }
    }
}

/// Writing a number in decimal and reading it back gives the number.
pub proof fn law_decimal_round_trip(n: u32)
    ensures
        parsed(ascii_bytes(decimal(n as nat))) == Some(n),
{
    lemma_decimal_digits(n as nat);
    let b = ascii_bytes(decimal(n as nat));
    assert(is_digit(b[0]));
}


/// The digit of `n` at a place is that of `n / 10` one place further right.
proof fn lemma_digit_moves(n: int, e: nat)
    requires
        n >= 0,
    ensures
        pow(10, 0) == 1,
        pow(10, e + 1) == 10 * pow(10, e),
        pow(10, e) > 0,
        (n / 10) / pow(10, e) == n / pow(10, e + 1),
{
    reveal(pow);
    lemma_pow_positive(10, e);
    lemma_div_denominator(n, 10, pow(10, e));
}

/// A number is written in base ten: the character that has `e` others behind it
/// is the digit for the `e`th power of ten, there are as many characters as the
/// number needs, and the first is zero only where it is the only one.
pub proof fn law_decimal_is_base_ten(n: nat)
    ensures
        decimal(n).len() > 0,
        n < pow(10, decimal(n).len()),
        decimal(n).len() > 1 ==> n >= pow(10, (decimal(n).len() - 1) as nat),
        forall|k: int|
            0 <= k < decimal(n).len() ==> #[trigger] decimal(n)[k] as int == 48 + (n as int / pow(
                10,
                (decimal(n).len() - 1 - k) as nat,
            )) % 10,
    decreases n,
{
    let d = decimal(n);
    lemma_digit_moves(n as int, 0);
    if n < 10 {
        assert(pow(10, 1) == 10);
        assert(n as int / pow(10, 0) == n);
    } else {
        let q = n / 10;
        let front = decimal(q);
        law_decimal_is_base_ten(q);
        lemma_digit_moves(n as int, front.len());
        lemma_digit_moves(n as int, (front.len() - 1) as nat);
        assert forall|k: int| 0 <= k < d.len() implies #[trigger] d[k] as int == 48 + (n as int / pow(
            10,
            (d.len() - 1 - k) as nat,
        )) % 10 by {
            if k < front.len() {
                assert(d[k] == front[k]);
                lemma_digit_moves(n as int, (front.len() - 1 - k) as nat);
                assert((front.len() - 1 - k) as nat + 1 == (d.len() - 1 - k) as nat);
            } else {
                assert(n as int / pow(10, 0) == n);
            }
        }
    }
}

/// A number with a sign is the number without it, behind a minus sign where it
/// is below zero and only there.
pub proof fn law_minus_sign_marks_negative_numbers(n: nat)
    ensures
        signed_decimal(n as int) == decimal(n),
        n > 0 ==> signed_decimal(-(n as int)) == seq!['-'] + decimal(n),
{
    reveal_strlit("-");
    assert("-"@ =~= seq!['-']);
}

/// What a string of digits spells, and its digits, determine each other.
proof fn lemma_digits_are_base_ten(s: Seq<u8>)
    requires
        all_digits(s),
    ensures
        digits_value(s) < pow(10, s.len()),
        forall|k: int|
            0 <= k < s.len() ==> #[trigger] s[k] == 48 + (digits_value(s) as int / pow(
                10,
                (s.len() - 1 - k) as nat,
            )) % 10,
    decreases s.len(),
{
    lemma_digit_moves(0, 0);
    if s.len() > 0 {
        let front = s.drop_last();
        let n = digits_value(s);
        assert(all_digits(front)) by {
            assert forall|i: int| 0 <= i < front.len() implies is_digit(#[trigger] front[i]) by {
                assert(is_digit(s[i]));
            }
        }
        assert(is_digit(s[s.len() - 1]));
        lemma_digits_are_base_ten(front);
        assert(n / 10 == digits_value(front) && n % 10 == s.last() - 48);
        lemma_digit_moves(n as int, front.len());
        assert forall|k: int| 0 <= k < s.len() implies #[trigger] s[k] == 48 + (n as int / pow(
            10,
            (s.len() - 1 - k) as nat,
        )) % 10 by {
            if k < front.len() {
                assert(s[k] == front[k]);
                lemma_digit_moves(n as int, (front.len() - 1 - k) as nat);
                assert((front.len() - 1 - k) as nat + 1 == (s.len() - 1 - k) as nat);
            } else {
                assert(n as int / pow(10, 0) == n);
            }
        }
    }
}

proof fn lemma_base_ten_spells(s: Seq<u8>, n: nat)
    requires
        n < pow(10, s.len()),
        forall|k: int|
            0 <= k < s.len() ==> #[trigger] s[k] == 48 + (n as int / pow(10, (s.len() - 1 - k) as nat))
                % 10,
    ensures
        all_digits(s),
        digits_value(s) == n,
    decreases s.len(),
{
    lemma_digit_moves(n as int, 0);
    if s.len() > 0 {
        let front = s.drop_last();
        let q = n / 10;
        lemma_digit_moves(n as int, front.len());
        assert forall|k: int| 0 <= k < front.len() implies #[trigger] front[k] == 48 + (q as int / pow(
            10,
            (front.len() - 1 - k) as nat,
        )) % 10 by {
            assert(s[k] == front[k]);
            lemma_digit_moves(n as int, (front.len() - 1 - k) as nat);
            assert((front.len() - 1 - k) as nat + 1 == (s.len() - 1 - k) as nat);
        }
        lemma_base_ten_spells(front, q);
        assert(s[s.len() - 1] == 48 + n % 10) by {
            assert(n as int / pow(10, 0) == n);
        }
        assert forall|i: int| 0 <= i < s.len() implies is_digit(#[trigger] s[i]) by {
            if i < front.len() {
                assert(is_digit(front[i]));
            }
        }
    }
}

/// Every number of 32 bits is read from its digits in base ten, with as many
/// zeros in front as there may be, and with or without a plus sign.
pub proof fn law_spelled_numbers_are_read(s: Seq<u8>, n: u32)
    requires
        s.len() > 0,
        n < pow(10, s.len()),
        forall|k: int|
            0 <= k < s.len() ==> #[trigger] s[k] == 48 + (n as int / pow(
                10,
                (s.len() - 1 - k) as nat,
            )) % 10,
    ensures
        parsed(s) == Some(n),
        parsed(seq![43u8] + s) == Some(n),
{
    lemma_base_ten_spells(s, n as nat);
    assert(is_digit(s[0]));
    assert((seq![43u8] + s).drop_first() =~= s);
}

/// A number is read only from digits in base ten that spell it, behind at most
/// one plus sign: nothing else is a number.
pub proof fn law_only_spelled_numbers_are_read(s: Seq<u8>)
    requires
        parsed(s) is Some,
    ensures
        ({
            let n = parsed(s)->0 as int;
            let d = if s[0] == 43 {
                s.drop_first()
            } else {
                s
            };
            &&& d.len() > 0
            &&& n < pow(10, d.len())
            &&& forall|k: int|
                0 <= k < d.len() ==> #[trigger] d[k] == 48 + (n as int / pow(
                    10,
                    (d.len() - 1 - k) as nat,
                )) % 10
        }),
{
    lemma_digits_are_base_ten(without_plus(s));
}

} // verus!
