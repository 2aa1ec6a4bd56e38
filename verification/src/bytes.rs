//! Byte strings: big-endian words, wiping, and the small scans the other
//! modules share.

use vstd::prelude::*;

verus! {

/// The big-endian encoding of `n`: four bytes, most significant first.
pub open spec fn be_word(n: u32) -> Seq<u8> {
    seq![
        (n / 0x100_0000) as u8,
        (n / 0x1_0000 % 0x100) as u8,
        (n / 0x100 % 0x100) as u8,
        (n % 0x100) as u8,
    ]
}

/// The number that the first four bytes of `b` spell, most significant first.
pub open spec fn be_value(b: Seq<u8>) -> int {
    b[0] * 0x100_0000 + b[1] * 0x1_0000 + b[2] * 0x100 + b[3]
}

/// Appends `n` to `out`, most significant byte first.
pub fn push_be_word(out: &mut Vec<u8>, n: u32)
    ensures
        final(out)@ == old(out)@ + be_word(n),
        final(out)@.len() == old(out)@.len() + 4,
        final(out)@.take(old(out)@.len() as int) == old(out)@,
        ({
            let w = final(out)@.skip(old(out)@.len() as int);
            w[0] * 0x100_0000 + w[1] * 0x1_0000 + w[2] * 0x100 + w[3] == n
        }),
{
    out.push((n / 0x100_0000) as u8);
    out.push((n / 0x1_0000 % 0x100) as u8);
    out.push((n / 0x100 % 0x100) as u8);
    out.push((n % 0x100) as u8);
}

/// Reads four bytes as a number, most significant byte first.
pub fn read_be_word(b: &[u8]) -> (n: u32)
    requires
        b@.len() >= 4,
    ensures
        n == be_value(b@),
        n == b@[0] * 0x100_0000 + b@[1] * 0x1_0000 + b@[2] * 0x100 + b@[3],
{
    b[0] as u32 * 0x100_0000 + b[1] as u32 * 0x1_0000 + b[2] as u32 * 0x100 + b[3] as u32
}

/// The four bytes of a word are its digits in base 256, most significant first.
pub proof fn law_word_is_spelled_by_its_bytes(n: u32)
    ensures
        be_word(n).len() == 4,
        be_word(n)[0] * 0x100_0000 + be_word(n)[1] * 0x1_0000 + be_word(n)[2] * 0x100
            + be_word(n)[3] == n,
{
}

/// Four bytes are read as digits in base 256, most significant first; what
/// follows them makes no difference.
pub proof fn law_bytes_are_read_as_digits(b0: u8, b1: u8, b2: u8, b3: u8, more: Seq<u8>)
    ensures
        be_value(seq![b0, b1, b2, b3] + more) == b0 * 0x100_0000 + b1 * 0x1_0000 + b2 * 0x100 + b3,
{
}

/// Writing a word and reading it back gives the word.
pub proof fn law_be_word_round_trip(n: u32)
    ensures
        be_word(n).len() == 4,
        be_value(be_word(n)) == n,
{
}

/// Reading a word and writing it gives the four bytes that were read.
pub proof fn law_be_value_round_trip(b: Seq<u8>)
    requires
        b.len() == 4,
    ensures
        0 <= be_value(b) <= u32::MAX,
        be_word(be_value(b) as u32) == b,
{
    let n = be_value(b) as u32;
    let upper = b[0] * 0x100 + b[1];
    let lower = b[2] * 0x100 + b[3];
    assert(n == upper * 0x1_0000 + lower);
    assert(n / 0x1_0000 == upper);
    assert(upper / 0x100 == b[0] && upper % 0x100 == b[1]);
    assert(n / 0x100_0000 == b[0]);
    assert(n / 0x100 == upper * 0x100 + b[2]);
    assert(be_word(n) =~= b);
}

/// `n` zero bytes.
pub open spec fn zeros(n: nat) -> Seq<u8> {
    Seq::new(n, |i: int| 0u8)
}

/// Overwrites every byte with zero and keeps the length.
pub fn wipe(bytes: &mut Vec<u8>)
    ensures
        final(bytes)@ == zeros(old(bytes)@.len()),
        final(bytes)@.len() == old(bytes)@.len(),
        forall|i: int| 0 <= i < final(bytes)@.len() ==> final(bytes)@[i] == 0,
{
    let mut i: usize = 0;
    while i < bytes.len()
        invariant
            i <= bytes@.len(),
            bytes@.len() == old(bytes)@.len(),
            forall|j: int| 0 <= j < i ==> bytes@[j] == 0,
        decreases bytes@.len() - i,
    {
        bytes.set(i, 0);
        i = i + 1;
    }
}

/// Whether `b` does not occur in `s`.
pub open spec fn lacks(s: Seq<u8>, b: u8) -> bool {
    forall|i: int| 0 <= i < s.len() ==> s[i] != b
}

/// Whether `b` occurs in `s`.
pub fn occurs(s: &[u8], b: u8) -> (r: bool)
    ensures
        r == !lacks(s@, b),
        r == s@.contains(b),
{
    let mut i: usize = 0;
    while i < s.len()
        invariant
            i <= s@.len(),
            forall|j: int| 0 <= j < i ==> s@[j] != b,
        decreases s@.len() - i,
    {
        if s[i] == b {
            return true;
        }
        i = i + 1;
    }
    false
}

/// `s` without the one newline that it may end with.
pub open spec fn without_newline(s: Seq<u8>) -> Seq<u8> {
    if s.len() > 0 && s.last() == 10 {
        s.drop_last()
    } else {
        s
    }
}

/// Takes one newline off the end, if there is one.
pub fn strip_newline(bytes: &mut Vec<u8>)
    ensures
        final(bytes)@ == without_newline(old(bytes)@),
        old(bytes)@ == final(bytes)@ || old(bytes)@ == final(bytes)@.push(10),
        old(bytes)@ == final(bytes)@ ==> old(bytes)@.len() == 0 || old(bytes)@.last() != 10,
{
    let n: usize = bytes.len();
    if n > 0 && bytes[n - 1] == 10 {
        bytes.pop();
        assert(old(bytes)@ =~= bytes@.push(10));
    }
}

/// Copies `s` and puts a zero byte behind it, as C wants its strings. The copy
/// is made once, in memory that is large enough from the start.
pub fn c_string(s: &[u8]) -> (r: Vec<u8>)
    requires
        lacks(s@, 0),
    ensures
        r@ == s@.push(0),
{
    let mut r: Vec<u8> = Vec::with_capacity(s.len().saturating_add(1));
    r.extend_from_slice(s);
    r.push(0);
    r
}


/// What is overwritten has its length and holds nothing but zero.
pub proof fn law_zeros_hold_nothing(n: nat)
    ensures
        zeros(n).len() == n,
        forall|i: int| 0 <= i < n ==> zeros(n)[i] == 0,
{
}

/// A byte string lacks exactly the bytes that it does not contain.
pub proof fn law_lacking_is_not_containing(s: Seq<u8>, b: u8)
    ensures
        lacks(s, b) <==> !s.contains(b),
{
}

/// Of the newlines at the end one is taken off, and nothing else ever is.
pub proof fn law_one_newline_is_taken_off(s: Seq<u8>)
    ensures
        without_newline(s.push(10)) == s,
        s.len() == 0 || s.last() != 10 ==> without_newline(s) == s,
{
    assert(s.push(10).drop_last() =~= s);
}

} // verus!
