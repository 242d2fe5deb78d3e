use vstd::prelude::*;

verus! {

/// One byte is an ASCII hexadecimal digit (either case).
pub open spec fn is_hex_byte(b: u8) -> bool {
    (48 <= b <= 57) || (97 <= b <= 102) || (65 <= b <= 70)
}

/// Every byte of `s` is an ASCII hexadecimal digit.
pub open spec fn is_hex_seq(s: Seq<u8>) -> bool {
    forall|i: int| 0 <= i < s.len() ==> is_hex_byte(#[trigger] s[i])
}

/// The ASCII byte for the hexadecimal digit `d` (lowercase letters), `d < 16`.
pub open spec fn hex_digit_byte(d: nat) -> u8 {
    if d < 10 {
        (48 + d) as u8
    } else {
        (87 + d) as u8
    }
}

/// Lowercase hexadecimal rendering of `n`, no padding; `0` renders as `"0"`.
pub open spec fn hex_bytes_of(n: nat) -> Seq<u8>
    decreases n,
{
    if n < 16 {
        seq![hex_digit_byte(n)]
    } else {
        hex_bytes_of(n / 16).push(hex_digit_byte(n % 16))
    }
}

/// Decimal rendering of `n`, no padding; `0` renders as `"0"`.
pub open spec fn dec_bytes_of(n: nat) -> Seq<u8>
    decreases n,
{
    if n < 10 {
        seq![(48 + n) as u8]
    } else {
        dec_bytes_of(n / 10).push((48 + n % 10) as u8)
    }
}

/// The number a sequence of ASCII decimal digits denotes.
pub open spec fn dec_value_of(s: Seq<u8>) -> nat
    decreases s.len(),
{
    if s.len() == 0 {
        0
    } else {
        dec_value_of(s.drop_last()) * 10 + (s.last() - 48) as nat
    }
}

/// A decimal rendering is made of decimal digit bytes only.
pub proof fn lemma_dec_bytes_are_digits(n: nat)
    ensures
        forall|i: int| 0 <= i < dec_bytes_of(n).len() ==> 48 <= #[trigger] dec_bytes_of(n)[i] <= 57,
    decreases n,
{
    if n >= 10 {
        lemma_dec_bytes_are_digits(n / 10);
        assert(forall|i: int|
            0 <= i < dec_bytes_of(n).len() - 1 ==> dec_bytes_of(n)[i] == dec_bytes_of(n / 10)[i]);
    }
}

/// Reading back a decimal rendering gives the number it was made from.
pub proof fn lemma_dec_round_trip(n: nat)
    ensures
        dec_value_of(dec_bytes_of(n)) == n,
    decreases n,
{
    if n < 10 {
        let s = dec_bytes_of(n);
        assert(s.drop_last() =~= Seq::<u8>::empty());
        assert(s.last() == (48 + n) as u8);
        assert(dec_value_of(s) == dec_value_of(s.drop_last()) * 10 + (s.last() - 48) as nat);
        assert(dec_value_of(s.drop_last()) == 0);
    } else {
        lemma_dec_round_trip(n / 10);
        let s = dec_bytes_of(n);
        assert(s.drop_last() =~= dec_bytes_of(n / 10));
        assert(s.last() == (48 + n % 10) as u8);
        assert(dec_value_of(s) == dec_value_of(dec_bytes_of(n / 10)) * 10 + (s.last() - 48) as nat);
        assert(dec_value_of(s) == (n / 10) * 10 + n % 10);
        assert((n / 10) * 10 + n % 10 == n) by (nonlinear_arith);
    }
}

/// The ASCII byte for one hexadecimal digit.
fn hex_digit(d: u8) -> (r: u8)
    requires
        d < 16,
    ensures
        r == hex_digit_byte(d as nat),
{
    if d < 10 {
        48 + d
    } else {
        87 + d
    }
}

/// Lowercase hexadecimal rendering of a nonce, as the nonce tag uses it.
pub fn u64_to_hex_bytes(n: u64) -> (r: Vec<u8>)
    ensures
        r@ == hex_bytes_of(n as nat),
    decreases n,
{
    if n < 16 {
        let mut v: Vec<u8> = Vec::new();
        v.push(hex_digit(n as u8));
        proof {
            assert(v@ =~= hex_bytes_of(n as nat));
        }
        v
    } else {
        let mut v = u64_to_hex_bytes(n / 16);
        v.push(hex_digit((n % 16) as u8));
        v
    }
}

/// Decimal rendering of a byte count, as the object-store framing uses it.
pub fn usize_to_dec_bytes(n: usize) -> (r: Vec<u8>)
    ensures
        r@ == dec_bytes_of(n as nat),
    decreases n,
{
    if n < 10 {
        let mut v: Vec<u8> = Vec::new();
        v.push(48 + n as u8);
        proof {
            assert(v@ =~= dec_bytes_of(n as nat));
        }
        v
    } else {
        let mut v = usize_to_dec_bytes(n / 10);
        v.push(48 + (n % 10) as u8);
        v
    }
}

/// A hash-condition string is usable when it is non-empty and all hex digits.
pub fn is_valid_hex(value: &Vec<u8>) -> (r: bool)
    ensures
        r == (value@.len() > 0 && is_hex_seq(value@)),
{
    if value.len() == 0 {
        return false;
    }
    let mut i: usize = 0;
    while i < value.len()
        invariant
            0 <= i <= value@.len(),
            forall|j: int| 0 <= j < i ==> is_hex_byte(#[trigger] value@[j]),
        decreases value@.len() - i,
    {
        let b = value[i];
        if !((48 <= b && b <= 57) || (97 <= b && b <= 102) || (65 <= b && b <= 70)) {
            return false;
        }
        i = i + 1;
    }
    true
}

/// `b` with an uppercase hex letter folded to lowercase, other bytes unchanged.
pub open spec fn lower_hex_byte(b: u8) -> u8 {
    if 65 <= b <= 70 {
        (b + 32) as u8
    } else {
        b
    }
}

/// `s` folded bytewise by `lower_hex_byte`.
pub open spec fn lower_hex_seq(s: Seq<u8>) -> Seq<u8> {
    s.map_values(|b: u8| lower_hex_byte(b))
}

/// Fold the uppercase hex letters of a condition string to lowercase, so that
/// a required prefix or substring compares case-insensitively against the
/// lowercase digest rendering.
pub fn to_lower_hex(value: &Vec<u8>) -> (r: Vec<u8>)
    ensures
        r@ == lower_hex_seq(value@),
{
    let mut out: Vec<u8> = Vec::new();
    let mut i: usize = 0;
    while i < value.len()
        invariant
            0 <= i <= value@.len(),
            out@.len() == i,
            forall|j: int| 0 <= j < i ==> out@[j] == lower_hex_byte(#[trigger] value@[j]),
        decreases value@.len() - i,
    {
        let b = value[i];
        if 65 <= b && b <= 70 {
            out.push(b + 32);
        } else {
            out.push(b);
        }
        i = i + 1;
    }
    proof {
        assert(out@ =~= lower_hex_seq(value@));
    }
    out
}

} // verus!
