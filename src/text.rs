//! Textual forms that records carry: hexadecimal identifiers, decimal
//! numbers and six-digit confirmation codes.

use vstd::prelude::*;

verus! {

/// The sixteen lower-case hexadecimal digits, in order of value.
pub open spec fn digit_chars() -> Seq<char> {
    seq!['0', '1', '2', '3', '4', '5', '6', '7', '8', '9', 'a', 'b', 'c', 'd', 'e', 'f']
}

/// The digit that stands for `d` (below 16).
pub open spec fn digit_of(d: nat) -> char {
    digit_chars()[d as int]
}

/// Two lower-case hexadecimal digits per byte, most significant first.
pub open spec fn hex_of(bytes: Seq<u8>) -> Seq<char>
    decreases bytes.len(),
{
    if bytes.len() == 0 {
        Seq::empty()
    } else {
        let b = bytes.last();
        hex_of(bytes.drop_last()) + seq![digit_of((b / 16) as nat), digit_of((b % 16) as nat)]
    }
}

/// The decimal form of `n`, without leading zeros.
pub open spec fn decimal_of(n: nat) -> Seq<char>
    decreases n,
{
    if n < 10 {
        seq![digit_of(n)]
    } else {
        decimal_of(n / 10) + seq![digit_of(n % 10)]
    }
}

/// The 32-bit big-endian number that four bytes spell.
pub open spec fn be32(b0: u8, b1: u8, b2: u8, b3: u8) -> nat {
    (b0 as nat) * 16777216 + (b1 as nat) * 65536 + (b2 as nat) * 256 + (b3 as nat)
}

/// The confirmation code drawn from the first four random bytes:
/// their big-endian value reduced modulo 900000, plus 100000.
pub open spec fn code_value(bytes: Seq<u8>) -> nat
    recommends
        bytes.len() >= 4,
{
    be32(bytes[0], bytes[1], bytes[2], bytes[3]) % 900000 + 100000
}

/// Whether every character of `s` is a decimal digit.
pub open spec fn all_decimal(s: Seq<char>) -> bool {
    forall|i: int| 0 <= i < s.len() ==> '0' <= #[trigger] s[i] && s[i] <= '9'
}

fn digit_text(d: u8) -> (r: &'static str)
    requires
        d < 16,
    ensures
        r@ == seq![digit_of(d as nat)],
{
    proof {
        reveal_strlit("0");
        reveal_strlit("1");
        reveal_strlit("2");
        reveal_strlit("3");
        reveal_strlit("4");
        reveal_strlit("5");
        reveal_strlit("6");
        reveal_strlit("7");
        reveal_strlit("8");
        reveal_strlit("9");
        reveal_strlit("a");
        reveal_strlit("b");
        reveal_strlit("c");
        reveal_strlit("d");
        reveal_strlit("e");
        reveal_strlit("f");
    }
    let r = match d {
        0 => "0",
        1 => "1",
        2 => "2",
        3 => "3",
        4 => "4",
        5 => "5",
        6 => "6",
        7 => "7",
        8 => "8",
        9 => "9",
        10 => "a",
        11 => "b",
        12 => "c",
        13 => "d",
        14 => "e",
        _ => "f",
    };
    assert(r@ =~= seq![digit_of(d as nat)]);
    r
}

/// Appends the decimal form of `n` to `s`.
pub fn push_decimal(s: &mut String, n: u64)
    ensures
        final(s)@ == old(s)@ + decimal_of(n as nat),
    decreases n,
{
    if n >= 10 {
        push_decimal(s, n / 10);
    }
    s.append(digit_text((n % 10) as u8));
    assert(final(s)@ =~= old(s)@ + decimal_of(n as nat));
}

/// Encodes bytes as lower-case hexadecimal, two digits per byte.
pub fn hex_encode(bytes: &Vec<u8>) -> (r: String)
    ensures
        r@ == hex_of(bytes@),
{
    let mut s = String::new();
    let mut i: usize = 0;
    while i < bytes.len()
        invariant
            i <= bytes.len(),
            s@ == hex_of(bytes@.subrange(0, i as int)),
        decreases bytes.len() - i,
    {
        let b = bytes[i];
        s.append(digit_text(b / 16));
        s.append(digit_text(b % 16));
        assert(bytes@.subrange(0, i + 1).drop_last() =~= bytes@.subrange(0, i as int));
        i = i + 1;
        assert(s@ =~= hex_of(bytes@.subrange(0, i as int)));
    }
    assert(bytes@.subrange(0, i as int) =~= bytes@);
    s
}

/// A number between 100000 and 999999 is written with six decimal digits.
pub proof fn lemma_six_digits(n: nat)
    requires
        100000 <= n <= 999999,
    ensures
        decimal_of(n).len() == 6,
        all_decimal(decimal_of(n)),
{
    reveal_with_fuel(decimal_of, 7);
    let d = decimal_of(n);
    assert(forall|k: nat| k < 10 ==> '0' <= #[trigger] digit_of(k) && digit_of(k) <= '9');
    assert(all_decimal(d));
}

/// Makes an identifier from random bytes: their hexadecimal form.
pub fn generate_unique_id(rand_bytes: &Vec<u8>) -> (r: String)
    ensures
        r@ == hex_of(rand_bytes@),
{
    hex_encode(rand_bytes)
}

/// Makes a six-digit confirmation code from random bytes: the first four,
/// read big-endian, reduced modulo 900000 and raised by 100000.
pub fn generate_otp(rand_bytes: &Vec<u8>) -> (r: String)
    requires
        rand_bytes@.len() >= 4,
    ensures
        r@ == decimal_of(code_value(rand_bytes@)),
        r@.len() == 6,
        all_decimal(r@),
{
    let v: u64 = (rand_bytes[0] as u64) * 16777216 + (rand_bytes[1] as u64) * 65536
        + (rand_bytes[2] as u64) * 256 + (rand_bytes[3] as u64);
    let n: u64 = v % 900000 + 100000;
    let mut s = String::new();
    push_decimal(&mut s, n);
    proof {
        lemma_six_digits(n as nat);
        assert(s@ =~= decimal_of(n as nat));
    }
    s
}

} // verus!
